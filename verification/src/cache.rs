//! The completion cache: the most recent response computed for each
//! (document, line) pair.
//!
//! The key deliberately ignores the column and the surrounding text, so
//! any request on the same line reuses the prior response until it is
//! overwritten or the document closes.  The cache is unbounded and does
//! no eviction of its own; the document lifecycle collaborator clears all
//! entries of a document when it closes.

use vstd::prelude::*;

use crate::safemap::{SafeMap, StoreKey};
use crate::types::{CopilotCompletionResponse, ResponseView};

verus! {

/// A cache key: the identity of a document and a zero-based line number.
#[derive(Debug)]
pub struct CacheKey {
    pub uri: String,
    pub line: u32,
}

impl View for CacheKey {
    type V = (Seq<char>, u32);

    open spec fn view(&self) -> (Seq<char>, u32) {
        (self.uri@, self.line)
    }
}

impl StoreKey for CacheKey {
    fn key_eq(&self, other: &Self) -> (r: bool)
        ensures
            r == (self@ == other@),
    {
        self.uri == other.uri && self.line == other.line
    }

    fn key_clone(&self) -> (r: Self)
        ensures
            r@ == self@,
    {
        CacheKey { uri: self.uri.clone(), line: self.line }
    }
}

/// Maps (document identity, line number) to the most recently produced
/// completion response for that line.
pub struct CopilotCache {
    map: SafeMap<CacheKey, CopilotCompletionResponse>,
}

impl View for CopilotCache {
    type V = Map<(Seq<char>, u32), ResponseView>;

    closed spec fn view(&self) -> Map<(Seq<char>, u32), ResponseView> {
        self.map@
    }
}

impl CopilotCache {
    pub fn new() -> (r: Self)
        ensures
            r@ == Map::<(Seq<char>, u32), ResponseView>::empty(),
    {
        CopilotCache { map: SafeMap::new() }
    }

    /// The cached response for this document and line, if one is stored.
    pub fn get_cached_result(&self, uri: &String, line: u32) -> (r: Option<
        CopilotCompletionResponse,
    >)
        ensures
            match r {
                Some(resp) => self@.contains_key((uri@, line)) && resp@ == self@[(uri@, line)],
                None => !self@.contains_key((uri@, line)),
            },
    {
        self.map.get(&CacheKey { uri: uri.clone(), line })
    }

    /// Store the response for this document and line, overwriting any
    /// prior entry for that key and no other.
    pub fn set_cached_result(&mut self, uri: &String, line: u32, response: &CopilotCompletionResponse)
        ensures
            final(self)@ == old(self)@.insert((uri@, line), response@),
    {
        self.map.insert(CacheKey { uri: uri.clone(), line }, response.clone());
    }

    /// Remove every entry of the given document; entries of other
    /// documents are untouched.
    pub fn clear_for_document(&mut self, uri: &String)
        ensures
            final(self)@ == old(self)@.remove_keys(
                Set::new(|k: (Seq<char>, u32)| k.0 == uri@),
            ),
            forall|k: (Seq<char>, u32)| k.0 == uri@ ==> !final(self)@.contains_key(k),
    {
        let ghost m0 = self.map@;
        let snapshot = self.map.snapshot();
        let n = snapshot.len();
        let mut i: usize = 0;
        while i < n
            invariant
                i <= n,
                n == snapshot@.len(),
                forall|k: (Seq<char>, u32)| #[trigger]
                    self.map@.contains_key(k) ==> m0.contains_key(k) && self.map@[k] == m0[k],
                forall|k: (Seq<char>, u32)|
                    m0.contains_key(k) && k.0 != uri@ ==> #[trigger] self.map@.contains_key(k),
                forall|j: int|
                    0 <= j < i && snapshot@[j].0@.0 == uri@ ==> !self.map@.contains_key(
                        #[trigger] snapshot@[j].0@,
                    ),
                forall|j: int|
                    0 <= j < snapshot@.len() ==> #[trigger] m0.contains_key(snapshot@[j].0@),
                forall|k: (Seq<char>, u32)| m0.contains_key(k) ==> exists|j: int|
                    0 <= j < snapshot@.len() && #[trigger] snapshot@[j].0@ == k,
            decreases n - i,
        {
            let key = &snapshot[i].0;
            if key.uri == *uri {
                self.map.remove(key);
            }
            i += 1;
        }
        proof {
            assert(self.map@ =~= m0.remove_keys(Set::new(|k: (Seq<char>, u32)| k.0 == uri@)));
        }
    }
}

} // verus!
