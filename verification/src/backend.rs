//! The request-level engine: position resolution, cache consultation,
//! response construction, correlation-record registration, and the
//! accept/reject consumption of those records.
//!
//! The one operation with nontrivial wall-clock time — the call to the
//! external completion generator — happens between `get_completions_cycling`
//! and `finish_completions`, outside this module and without any lock on
//! the state held here.

use vstd::prelude::*;

use crate::cache::CopilotCache;
use crate::safemap::SafeMap;
use crate::types::{
    CopilotAcceptCompletionParams, CopilotCompletionResponse, CopilotCompletionTelemetry,
    CopilotEditorInfo, CopilotLspCompletionParams, CopilotRejectCompletionParams, DocParams,
    DocView, FolderView, ItemView, ResponseView, TelemetryView, WorkspaceFolder,
    completion_item_view,
};
use crate::util::{
    get_line_before, get_text_after, get_text_before, line_start, position_offset,
    position_to_offset,
};
use crate::Success;

verus! {

/// What position resolution yields for a request: the document fragments
/// around the cursor, with the position clamped to the end of the text.
pub open spec fn doc_params_post(dp: DocParams, p: DocView) -> bool {
    let offset = position_offset(p.source, p.position.line, p.position.character);
    &&& dp.uri@ == p.uri
    &&& dp.pos == p.position
    &&& dp.language@ == p.language_id
    &&& dp.prefix@ == p.source.subrange(0, offset)
    &&& dp.suffix@ == p.source.subrange(offset, p.source.len() as int)
    &&& dp.line_before@ == p.source.subrange(
        line_start(p.source, p.position.line as nat),
        offset,
    )
}

/// The outcome of consulting the cache for a request: either the stored
/// response, unchanged, or the resolved parameters the generator needs.
pub enum CompletionOutcome {
    Cached(CopilotCompletionResponse),
    NeedsGeneration(DocParams),
}

/// What `get_completions_cycling` guarantees: a hit returns the cached
/// response for (document, line) unchanged, identities included; a miss
/// returns faithfully resolved document parameters.
pub open spec fn cycling_post(
    cache: Map<(Seq<char>, u32), ResponseView>,
    p: DocView,
    r: CompletionOutcome,
) -> bool {
    match r {
        CompletionOutcome::Cached(resp) => cache.contains_key((p.uri, p.position.line))
            && resp@ == cache[(p.uri, p.position.line)],
        CompletionOutcome::NeedsGeneration(dp) => !cache.contains_key((p.uri, p.position.line))
            && doc_params_post(dp, p),
    }
}

/// The correlation records registered for a batch of suggestions, keyed
/// by suggestion identity.
pub open spec fn records_of(items: Seq<ItemView>, p: DocView) -> Map<u128, TelemetryView>
    decreases items.len(),
{
    if items.len() == 0 {
        Map::empty()
    } else {
        records_of(items.drop_last(), p).insert(
            items.last().uuid,
            TelemetryView { completion: items.last(), params: p },
        )
    }
}

/// Atomic removal of one correlation record: the record if the identity
/// is present, and the store afterwards.
pub open spec fn consume(m: Map<u128, TelemetryView>, id: u128) -> (
    Option<TelemetryView>,
    Map<u128, TelemetryView>,
) {
    if m.contains_key(id) {
        (Some(m[id]), m.remove(id))
    } else {
        (None, m)
    }
}

/// Consumption of a batch of identities in order: the records found, in
/// order, and the store afterwards; identities not found are skipped.
pub open spec fn consume_all(m: Map<u128, TelemetryView>, ids: Seq<u128>) -> (
    Seq<TelemetryView>,
    Map<u128, TelemetryView>,
)
    decreases ids.len(),
{
    if ids.len() == 0 {
        (Seq::empty(), m)
    } else {
        let first = consume(m, ids[0]);
        let rest = consume_all(first.1, ids.drop_first());
        (
            match first.0 {
                Some(t) => seq![t] + rest.0,
                None => rest.0,
            },
            rest.1,
        )
    }
}

/// The views of a sequence of correlation records.
pub open spec fn telemetry_views(ts: Seq<CopilotCompletionTelemetry>) -> Seq<TelemetryView> {
    ts.map_values(|t: CopilotCompletionTelemetry| t@)
}

/// Workspace folders after registering a batch, each keyed by its name.
pub open spec fn add_folders(m: Map<Seq<char>, FolderView>, fs: Seq<FolderView>) -> Map<
    Seq<char>,
    FolderView,
>
    decreases fs.len(),
{
    if fs.len() == 0 {
        m
    } else {
        add_folders(m, fs.drop_last()).insert(fs.last().name, fs.last())
    }
}

/// Workspace folders after unregistering a batch by name.
pub open spec fn remove_folders(m: Map<Seq<char>, FolderView>, fs: Seq<FolderView>) -> Map<
    Seq<char>,
    FolderView,
>
    decreases fs.len(),
{
    if fs.len() == 0 {
        m
    } else {
        remove_folders(m, fs.drop_last()).remove(fs.last().name)
    }
}

/// The service state: every shared table of the engine, each an instance
/// of the keyed store.
pub struct Backend {
    /// The workspace folders, keyed by folder name.
    pub workspace_folders: SafeMap<String, WorkspaceFolder>,
    /// Current text of each open document, keyed by document identity.
    pub code_map: SafeMap<String, Vec<u8>>,
    /// Process-wide editor metadata.
    pub editor_info: CopilotEditorInfo,
    /// The most recent completion response per (document, line).
    pub cache: CopilotCache,
    /// Correlation records awaiting an accept or reject, keyed by
    /// suggestion identity.
    pub telemetry: SafeMap<u128, CopilotCompletionTelemetry>,
    /// Whether the protocol handshake has completed.
    pub is_initialized: bool,
}

/// Whether `f` is one of the folders stored in `m`.
pub open spec fn folder_listed(m: Map<Seq<char>, FolderView>, f: FolderView) -> bool {
    exists|k: Seq<char>| #[trigger] m.contains_key(k) && m[k] == f
}

/// The parts of the state an operation leaves untouched when it only
/// concerns the cache and the correlation records.
pub open spec fn same_config(pre: Backend, post: Backend) -> bool {
    &&& post.workspace_folders@ == pre.workspace_folders@
    &&& post.code_map@ == pre.code_map@
    &&& post.editor_info == pre.editor_info
    &&& post.is_initialized == pre.is_initialized
}

impl Backend {
    /// A fresh service state: every store empty, nothing initialized.
    pub fn new() -> (r: Self)
        ensures
            r.workspace_folders@ == Map::<Seq<char>, FolderView>::empty(),
            r.code_map@ == Map::<Seq<char>, Seq<u8>>::empty(),
            r.cache@ == Map::<(Seq<char>, u32), ResponseView>::empty(),
            r.telemetry@ == Map::<u128, TelemetryView>::empty(),
            !r.is_initialized,
            r.editor_info@.editor_name == Seq::<char>::empty(),
            r.editor_info@.editor_version == Seq::<char>::empty(),
            r.editor_info@.plugin_name == Seq::<char>::empty(),
            r.editor_info@.plugin_version == Seq::<char>::empty(),
    {
        Backend {
            workspace_folders: SafeMap::new(),
            code_map: SafeMap::new(),
            editor_info: CopilotEditorInfo {
                editor_name: String::new(),
                editor_version: String::new(),
                plugin_name: String::new(),
                plugin_version: String::new(),
            },
            cache: CopilotCache::new(),
            telemetry: SafeMap::new(),
            is_initialized: false,
        }
    }

    pub fn is_initialized(&self) -> (r: bool)
        ensures
            r == self.is_initialized,
    {
        self.is_initialized
    }

    pub fn set_is_initialized(&mut self, is_initialized: bool)
        ensures
            final(self).is_initialized == is_initialized,
            final(self).workspace_folders@ == old(self).workspace_folders@,
            final(self).code_map@ == old(self).code_map@,
            final(self).editor_info == old(self).editor_info,
            final(self).cache@ == old(self).cache@,
            final(self).telemetry@ == old(self).telemetry@,
    {
        self.is_initialized = is_initialized;
    }

    /// The registered workspace folders: one per key of the folder store,
    /// values unchanged.
    pub fn workspace_folders(&self) -> (r: Vec<WorkspaceFolder>)
        ensures
            forall|i: int| #![trigger r@[i]]
                0 <= i < r@.len() ==> folder_listed(self.workspace_folders@, r@[i]@),
            forall|k: Seq<char>| #[trigger] self.workspace_folders@.contains_key(k) ==> exists|
                i: int,
            | 0 <= i < r@.len() && #[trigger] r@[i]@ == self.workspace_folders@[k],
    {
        let snapshot = self.workspace_folders.snapshot();
        let n = snapshot.len();
        let mut r: Vec<WorkspaceFolder> = Vec::new();
        let mut i: usize = 0;
        while i < n
            invariant
                i <= n,
                n == snapshot@.len(),
                r@.len() == i,
                forall|j: int| 0 <= j < i ==> #[trigger] r@[j]@ == snapshot@[j].1@,
            decreases n - i,
        {
            r.push(snapshot[i].1.clone());
            i += 1;
        }
        proof {
            assert forall|i2: int| #![trigger r@[i2]]
                0 <= i2 < r@.len() implies folder_listed(self.workspace_folders@, r@[i2]@) by {
                let k = snapshot@[i2].0@;
                assert(self.workspace_folders@.contains_key(k));
                assert(r@[i2]@ == self.workspace_folders@[k]);
            }
            assert forall|k: Seq<char>|
                #[trigger] self.workspace_folders@.contains_key(k) implies exists|i2: int|
                0 <= i2 < r@.len() && r@[i2]@ == self.workspace_folders@[k] by {
                let j = choose|j: int|
                    0 <= j < snapshot@.len() && #[trigger] snapshot@[j].0@ == k;
                assert(r@[j]@ == self.workspace_folders@[k]);
            }
        }
        r
    }

    /// Register folders in order, each under its name; a later folder with
    /// the same name replaces an earlier one.
    pub fn add_workspace_folders(&mut self, folders: Vec<WorkspaceFolder>)
        ensures
            final(self).workspace_folders@ == add_folders(
                old(self).workspace_folders@,
                folders@.map_values(|f: WorkspaceFolder| f@),
            ),
            final(self).code_map@ == old(self).code_map@,
            final(self).editor_info == old(self).editor_info,
            final(self).cache@ == old(self).cache@,
            final(self).telemetry@ == old(self).telemetry@,
            final(self).is_initialized == old(self).is_initialized,
    {
        let ghost views = folders@.map_values(|f: WorkspaceFolder| f@);
        let ghost m0 = self.workspace_folders@;
        let n = folders.len();
        let mut i: usize = 0;
        while i < n
            invariant
                i <= n,
                n == folders@.len(),
                views == folders@.map_values(|f: WorkspaceFolder| f@),
                self.workspace_folders@ == add_folders(m0, views.take(i as int)),
                self.code_map@ == old(self).code_map@,
                self.editor_info == old(self).editor_info,
                self.cache@ == old(self).cache@,
                self.telemetry@ == old(self).telemetry@,
                self.is_initialized == old(self).is_initialized,
            decreases n - i,
        {
            let folder = folders[i].clone();
            let name = folder.name.clone();
            self.workspace_folders.insert(name, folder);
            proof {
                assert(views.take(i + 1).drop_last() =~= views.take(i as int));
                assert(views.take(i + 1).last() == views[i as int]);
            }
            i += 1;
        }
        proof {
            assert(views.take(n as int) =~= views);
        }
    }

    /// Unregister folders by name; names not registered are no-ops.
    pub fn remove_workspace_folders(&mut self, folders: Vec<WorkspaceFolder>)
        ensures
            final(self).workspace_folders@ == remove_folders(
                old(self).workspace_folders@,
                folders@.map_values(|f: WorkspaceFolder| f@),
            ),
            final(self).code_map@ == old(self).code_map@,
            final(self).editor_info == old(self).editor_info,
            final(self).cache@ == old(self).cache@,
            final(self).telemetry@ == old(self).telemetry@,
            final(self).is_initialized == old(self).is_initialized,
    {
        let ghost views = folders@.map_values(|f: WorkspaceFolder| f@);
        let ghost m0 = self.workspace_folders@;
        let n = folders.len();
        let mut i: usize = 0;
        while i < n
            invariant
                i <= n,
                n == folders@.len(),
                views == folders@.map_values(|f: WorkspaceFolder| f@),
                self.workspace_folders@ == remove_folders(m0, views.take(i as int)),
                self.code_map@ == old(self).code_map@,
                self.editor_info == old(self).editor_info,
                self.cache@ == old(self).cache@,
                self.telemetry@ == old(self).telemetry@,
                self.is_initialized == old(self).is_initialized,
            decreases n - i,
        {
            self.workspace_folders.remove(&folders[i].name);
            proof {
                assert(views.take(i + 1).drop_last() =~= views.take(i as int));
                assert(views.take(i + 1).last() == views[i as int]);
            }
            i += 1;
        }
        proof {
            assert(views.take(n as int) =~= views);
        }
    }

    /// Record the current text of an open document.
    pub fn insert_code_map(&mut self, uri: String, text: Vec<u8>)
        ensures
            final(self).code_map@ == old(self).code_map@.insert(uri@, text@),
            final(self).workspace_folders@ == old(self).workspace_folders@,
            final(self).editor_info == old(self).editor_info,
            final(self).cache@ == old(self).cache@,
            final(self).telemetry@ == old(self).telemetry@,
            final(self).is_initialized == old(self).is_initialized,
    {
        self.code_map.insert(uri, text);
    }

    /// Forget the text of a document, returning what was stored.
    pub fn remove_from_code_map(&mut self, uri: String) -> (r: Option<Vec<u8>>)
        ensures
            final(self).code_map@ == old(self).code_map@.remove(uri@),
            match r {
                Some(text) => old(self).code_map@.contains_key(uri@) && text@ == old(
                    self,
                ).code_map@[uri@],
                None => !old(self).code_map@.contains_key(uri@),
            },
            final(self).workspace_folders@ == old(self).workspace_folders@,
            final(self).editor_info == old(self).editor_info,
            final(self).cache@ == old(self).cache@,
            final(self).telemetry@ == old(self).telemetry@,
            final(self).is_initialized == old(self).is_initialized,
    {
        self.code_map.remove(&uri)
    }

    /// Forget the text of every open document.
    pub fn clear_code_state(&mut self)
        ensures
            final(self).code_map@ == Map::<Seq<char>, Seq<u8>>::empty(),
            final(self).workspace_folders@ == old(self).workspace_folders@,
            final(self).editor_info == old(self).editor_info,
            final(self).cache@ == old(self).cache@,
            final(self).telemetry@ == old(self).telemetry@,
            final(self).is_initialized == old(self).is_initialized,
    {
        self.code_map.clear();
    }

    /// Replace the process-wide editor metadata as a whole.
    pub fn set_editor_info(&mut self, params: CopilotEditorInfo) -> (r: Success)
        ensures
            final(self).editor_info == params,
            r.success,
            final(self).workspace_folders@ == old(self).workspace_folders@,
            final(self).code_map@ == old(self).code_map@,
            final(self).cache@ == old(self).cache@,
            final(self).telemetry@ == old(self).telemetry@,
            final(self).is_initialized == old(self).is_initialized,
    {
        self.editor_info = params;
        Success::new(true)
    }

    /// Resolve a request's document snapshot and cursor position into the
    /// fragments around the cursor.  Total: a position beyond the end of
    /// the text clamps to the end, an empty document yields empty
    /// fragments.
    pub fn get_doc_params(&self, params: &CopilotLspCompletionParams) -> (r: DocParams)
        ensures
            doc_params_post(r, params@),
    {
        let text = params.doc.source.as_str();
        let offset = position_to_offset(params.doc.position, text);
        DocParams {
            uri: params.doc.uri.clone(),
            pos: params.doc.position,
            language: params.doc.language_id.clone(),
            prefix: get_text_before(offset, text),
            suffix: get_text_after(offset, text),
            line_before: get_line_before(params.doc.position, text),
        }
    }

    /// Serve a completion request from the cache when a response for this
    /// document and line is stored; otherwise resolve and hand back what
    /// the external generator needs.  A hit reuses the stored response
    /// unchanged — the same suggestion identities, no new registration.
    pub fn get_completions_cycling(&self, params: &CopilotLspCompletionParams) -> (r:
        CompletionOutcome)
        ensures
            cycling_post(self.cache@, params@, r),
    {
        let doc_params = self.get_doc_params(params);
        match self.cache.get_cached_result(&doc_params.uri, doc_params.pos.line) {
            Some(cached) => CompletionOutcome::Cached(cached),
            None => CompletionOutcome::NeedsGeneration(doc_params),
        }
    }

    /// Complete a cache miss once the external generator has answered:
    /// build the response with fresh identities, register one correlation
    /// record per suggestion, and store the response for this document
    /// and line, overwriting any prior entry.
    pub fn finish_completions(
        &mut self,
        params: &CopilotLspCompletionParams,
        doc_params: &DocParams,
        completions: &Vec<String>,
    ) -> (r: CopilotCompletionResponse)
        ensures
            r@.completions.len() == completions@.len(),
            forall|i: int|
                0 <= i < completions@.len() ==> #[trigger] r@.completions[i]
                    == completion_item_view(
                    r@.completions[i].uuid,
                    completions@[i]@,
                    doc_params.line_before@,
                    doc_params.pos,
                ),
            r.position == doc_params.pos,
            r.uri@ == doc_params.uri@,
            final(self).cache@ == old(self).cache@.insert(
                (doc_params.uri@, doc_params.pos.line),
                r@,
            ),
            final(self).telemetry@ == old(self).telemetry@.union_prefer_right(
                records_of(r@.completions, params@),
            ),
            same_config(*old(self), *final(self)),
    {
        let response = CopilotCompletionResponse::from_str_vec(
            completions,
            &doc_params.line_before,
            doc_params.pos,
            &doc_params.uri,
        );
        let ghost t0 = self.telemetry@;
        let n = response.completions.len();
        let mut i: usize = 0;
        while i < n
            invariant
                i <= n,
                n == response@.completions.len(),
                self.telemetry@ == t0.union_prefer_right(
                    records_of(response@.completions.take(i as int), params@),
                ),
                self.workspace_folders@ == old(self).workspace_folders@,
                self.code_map@ == old(self).code_map@,
                self.editor_info == old(self).editor_info,
                self.cache@ == old(self).cache@,
                self.is_initialized == old(self).is_initialized,
            decreases n - i,
        {
            let item = response.completions[i].clone();
            let id = item.uuid;
            let record = CopilotCompletionTelemetry { completion: item, params: params.clone() };
            proof {
                assert(record@ == TelemetryView {
                    completion: response@.completions[i as int],
                    params: params@,
                });
            }
            self.telemetry.insert(id, record);
            proof {
                let items = response@.completions;
                assert(items.take(i + 1).drop_last() =~= items.take(i as int));
                assert(items.take(i + 1).last() == items[i as int]);
                assert(records_of(items.take(i + 1), params@) == records_of(
                    items.take(i as int),
                    params@,
                ).insert(
                    items[i as int].uuid,
                    TelemetryView { completion: items[i as int], params: params@ },
                ));
                assert(t0.union_prefer_right(records_of(items.take(i as int), params@)).insert(
                    items[i as int].uuid,
                    TelemetryView { completion: items[i as int], params: params@ },
                ) =~= t0.union_prefer_right(records_of(items.take(i + 1), params@)));
            }
            i += 1;
        }
        proof {
            assert(response@.completions.take(n as int) =~= response@.completions);
        }
        self.cache.set_cached_result(&doc_params.uri, doc_params.pos.line, &response);
        response
    }

    /// Consume the correlation record of an accepted suggestion, if it is
    /// still present.  An unknown or already consumed identity is a
    /// silent no-op, not an error.
    pub fn accept_completion(&mut self, params: &CopilotAcceptCompletionParams) -> (r: Option<
        CopilotCompletionTelemetry,
    >)
        ensures
            final(self).telemetry@ == consume(old(self).telemetry@, params.uuid).1,
            match r {
                Some(t) => consume(old(self).telemetry@, params.uuid).0 == Some(t@),
                None => consume(old(self).telemetry@, params.uuid).0 is None,
            },
            final(self).cache@ == old(self).cache@,
            same_config(*old(self), *final(self)),
    {
        let r = self.telemetry.remove(&params.uuid);
        proof {
            if !old(self).telemetry@.contains_key(params.uuid) {
                assert(old(self).telemetry@.remove(params.uuid) =~= old(self).telemetry@);
            }
        }
        r
    }

    /// Consume the correlation records of a batch of rejected
    /// suggestions, in order; identities not found are skipped, never an
    /// error.
    pub fn reject_completions(&mut self, params: &CopilotRejectCompletionParams) -> (r: Vec<
        CopilotCompletionTelemetry,
    >)
        ensures
            telemetry_views(r@) == consume_all(old(self).telemetry@, params.uuids@).0,
            final(self).telemetry@ == consume_all(old(self).telemetry@, params.uuids@).1,
            final(self).cache@ == old(self).cache@,
            same_config(*old(self), *final(self)),
    {
        let ghost t0 = self.telemetry@;
        let ghost ids = params.uuids@;
        let mut originals: Vec<CopilotCompletionTelemetry> = Vec::new();
        let n = params.uuids.len();
        let mut i: usize = 0;
        proof {
            assert(ids.skip(0) =~= ids);
            assert(telemetry_views(originals@) =~= Seq::<TelemetryView>::empty());
            assert(telemetry_views(originals@) + consume_all(self.telemetry@, ids).0
                =~= consume_all(self.telemetry@, ids).0);
        }
        while i < n
            invariant
                i <= n,
                n == ids.len(),
                ids == params.uuids@,
                consume_all(t0, ids).0 =~= telemetry_views(originals@) + consume_all(
                    self.telemetry@,
                    ids.skip(i as int),
                ).0,
                consume_all(t0, ids).1 == consume_all(self.telemetry@, ids.skip(i as int)).1,
                self.workspace_folders@ == old(self).workspace_folders@,
                self.code_map@ == old(self).code_map@,
                self.editor_info == old(self).editor_info,
                self.cache@ == old(self).cache@,
                self.is_initialized == old(self).is_initialized,
            decreases n - i,
        {
            let id = params.uuids[i];
            let ghost cur = self.telemetry@;
            let ghost s = ids.skip(i as int);
            let got = self.telemetry.remove(&id);
            proof {
                assert(s.len() == ids.len() - i);
                assert(s[0] == ids[i as int]);
                assert(s.drop_first() =~= ids.skip(i as int + 1));
                if !cur.contains_key(id) {
                    assert(cur.remove(id) =~= cur);
                }
            }
            match got {
                Some(t) => {
                    proof {
                        assert(telemetry_views(originals@.push(t)) =~= telemetry_views(
                            originals@,
                        ).push(t@));
                        assert(telemetry_views(originals@) + (seq![t@] + consume_all(
                            self.telemetry@,
                            ids.skip(i as int + 1),
                        ).0) =~= telemetry_views(originals@).push(t@) + consume_all(
                            self.telemetry@,
                            ids.skip(i as int + 1),
                        ).0);
                    }
                    originals.push(t);
                }
                None => {},
            }
            i += 1;
        }
        proof {
            assert(ids.skip(n as int) =~= Seq::<u128>::empty());
            assert(telemetry_views(originals@) + Seq::<TelemetryView>::empty() =~= telemetry_views(
                originals@,
            ));
        }
        originals
    }

    /// Purge everything a closed document owns: every cache entry stored
    /// under its identity and every correlation record whose originating
    /// request named it.  State for other documents is untouched.
    pub fn close_document(&mut self, uri: &String)
        ensures
            final(self).cache@ == old(self).cache@.remove_keys(
                Set::new(|k: (Seq<char>, u32)| k.0 == uri@),
            ),
            forall|k: (Seq<char>, u32)| k.0 == uri@ ==> !final(self).cache@.contains_key(k),
            final(self).telemetry@ == old(self).telemetry@.remove_keys(
                Set::new(
                    |id: u128|
                        old(self).telemetry@.contains_key(id) && old(
                            self,
                        ).telemetry@[id].params.uri == uri@,
                ),
            ),
            forall|id: u128| #[trigger]
                final(self).telemetry@.contains_key(id) ==> final(self).telemetry@[id].params.uri
                    != uri@,
            same_config(*old(self), *final(self)),
    {
        self.cache.clear_for_document(uri);
        let ghost m0 = self.telemetry@;
        let snapshot = self.telemetry.snapshot();
        let n = snapshot.len();
        let mut i: usize = 0;
        proof {
            assert forall|j: int|
                0 <= j < snapshot@.len() implies #[trigger] m0.contains_key(snapshot@[j].0@)
                    && snapshot@[j].1@ == m0[snapshot@[j].0@] by {
                assert(m0.contains_key(snapshot@[j].0@) && snapshot@[j].1@ == m0[snapshot@[j].0@]);
            }
        }
        while i < n
            invariant
                i <= n,
                n == snapshot@.len(),
                forall|id: u128| #[trigger]
                    self.telemetry@.contains_key(id) ==> m0.contains_key(id)
                        && self.telemetry@[id] == m0[id],
                forall|id: u128|
                    m0.contains_key(id) && m0[id].params.uri != uri@
                        ==> #[trigger] self.telemetry@.contains_key(id),
                forall|j: int|
                    0 <= j < i && snapshot@[j].1@.params.uri == uri@
                        ==> !self.telemetry@.contains_key(#[trigger] snapshot@[j].0@),
                forall|j: int|
                    0 <= j < snapshot@.len() ==> #[trigger] m0.contains_key(snapshot@[j].0@)
                        && snapshot@[j].1@ == m0[snapshot@[j].0@],
                forall|id: u128| m0.contains_key(id) ==> exists|j: int|
                    0 <= j < snapshot@.len() && #[trigger] snapshot@[j].0@ == id,
                self.workspace_folders@ == old(self).workspace_folders@,
                self.code_map@ == old(self).code_map@,
                self.editor_info == old(self).editor_info,
                self.cache@ == old(self).cache@.remove_keys(
                    Set::new(|k: (Seq<char>, u32)| k.0 == uri@),
                ),
                self.is_initialized == old(self).is_initialized,
            decreases n - i,
        {
            let entry = &snapshot[i];
            if entry.1.params.doc.uri == *uri {
                self.telemetry.remove(&entry.0);
            }
            i += 1;
        }
        proof {
            assert(self.telemetry@ =~= m0.remove_keys(
                Set::new(|id: u128| m0.contains_key(id) && m0[id].params.uri == uri@),
            ));
        }
    }
}

/// Law: for a fixed document and line, two completion requests against
/// the same cache state agree — both hit or both miss, and two hits
/// return the same response with the same suggestion identities.
pub proof fn lemma_cache_hit_stability(
    cache: Map<(Seq<char>, u32), ResponseView>,
    p: DocView,
    r1: CompletionOutcome,
    r2: CompletionOutcome,
)
    requires
        cycling_post(cache, p, r1),
        cycling_post(cache, p, r2),
    ensures
        r1 is Cached <==> r2 is Cached,
        match (r1, r2) {
            (CompletionOutcome::Cached(a), CompletionOutcome::Cached(b)) => a@ == b@,
            _ => true,
        },
{
}

/// Law: once a response is stored for a request's document and line, a
/// request for that document and line is a hit and returns that response
/// unchanged.
pub proof fn lemma_fresh_response_is_reused(
    cache: Map<(Seq<char>, u32), ResponseView>,
    p: DocView,
    resp: ResponseView,
    r: CompletionOutcome,
)
    requires
        cycling_post(cache.insert((p.uri, p.position.line), resp), p, r),
    ensures
        r is Cached,
        r matches CompletionOutcome::Cached(c) ==> c@ == resp,
{
}

/// Law: storing a response under one (document, line) key affects no
/// lookup under any other key — not the same document on another line,
/// not another document on the same line.
pub proof fn lemma_cache_key_independence(
    cache: Map<(Seq<char>, u32), ResponseView>,
    key_a: (Seq<char>, u32),
    key_b: (Seq<char>, u32),
    resp: ResponseView,
)
    requires
        key_a != key_b,
    ensures
        cache.insert(key_a, resp).contains_key(key_b) == cache.contains_key(key_b),
        cache.contains_key(key_b) ==> cache.insert(key_a, resp)[key_b] == cache[key_b],
{
}

/// Law: a registered identity is consumed exactly once.  Whichever of
/// accept and reject consumes it first observes the record; the other,
/// run on the resulting state, observes absence.
pub proof fn lemma_exactly_once_consumption(m: Map<u128, TelemetryView>, id: u128)
    requires
        m.contains_key(id),
    ensures
        consume(m, id).0 == Some(m[id]),
        consume(consume(m, id).1, id).0 is None,
        consume_all(m, seq![id]).0 =~= seq![m[id]],
        consume_all(consume(m, id).1, seq![id]).0 =~= Seq::<TelemetryView>::empty(),
        consume(consume_all(m, seq![id]).1, id).0 is None,
{
    let one = seq![id];
    assert(one.drop_first() =~= Seq::<u128>::empty());
    assert(consume_all(m.remove(id), one.drop_first()).0 =~= Seq::<TelemetryView>::empty());
    assert(consume_all(m, one).0 =~= seq![m[id]] + Seq::<TelemetryView>::empty());
    assert(seq![m[id]] + Seq::<TelemetryView>::empty() =~= seq![m[id]]);
}

/// Law: accept and reject tolerate identities that were never registered
/// or are already consumed — they observe absence, leave the store
/// unchanged, and raise no error.
pub proof fn lemma_unknown_identity_tolerance(
    m: Map<u128, TelemetryView>,
    id: u128,
    ids: Seq<u128>,
)
    requires
        !m.contains_key(id),
        forall|i: int| 0 <= i < ids.len() ==> !m.contains_key(#[trigger] ids[i]),
    ensures
        consume(m, id).0 is None,
        consume(m, id).1 == m,
        consume_all(m, ids).0 =~= Seq::<TelemetryView>::empty(),
        consume_all(m, ids).1 == m,
    decreases ids.len(),
{
    if ids.len() > 0 {
        assert(!m.contains_key(ids[0]));
        assert(forall|i: int|
            0 <= i < ids.drop_first().len() ==> !m.contains_key(#[trigger] ids.drop_first()[i]));
        lemma_unknown_identity_tolerance(m, id, ids.drop_first());
    }
}

} // verus!
