//! Data types of the completion engine and their mathematical views.

use vstd::prelude::*;

use crate::safemap::StoreValue;

verus! {

/// A zero-based (line, column) cursor position.
#[derive(Clone, Copy, PartialEq, Eq, Structural, Debug)]
pub struct CopilotPosition {
    pub line: u32,
    pub character: u32,
}

/// The span of editor text that a suggestion replaces when accepted.
#[derive(Clone, Copy, PartialEq, Eq, Structural, Debug)]
pub struct CopilotRange {
    pub start: CopilotPosition,
    pub end: CopilotPosition,
}

/// One candidate completion, carrying the identity used to correlate a
/// later accept or reject signal back to this suggestion.
#[derive(Debug)]
pub struct CopilotCompletionItem {
    /// Identity minted for this suggestion, never reused by the engine.
    pub uuid: u128,
    /// The full replacement text for `range`: the text of the current line
    /// up to the cursor followed by the suggested text.
    pub text: String,
    /// The suggested text alone, as produced by the generator.
    pub display_text: String,
    /// Where `text` is inserted.
    pub range: CopilotRange,
    /// The cursor position the suggestion was computed for.
    pub position: CopilotPosition,
}

/// Mathematical view of a suggestion.
pub struct ItemView {
    pub uuid: u128,
    pub text: Seq<char>,
    pub display_text: Seq<char>,
    pub range: CopilotRange,
    pub position: CopilotPosition,
}

impl View for CopilotCompletionItem {
    type V = ItemView;

    open spec fn view(&self) -> ItemView {
        ItemView {
            uuid: self.uuid,
            text: self.text@,
            display_text: self.display_text@,
            range: self.range,
            position: self.position,
        }
    }
}

/// Saturating subtraction of a length from a column number.
pub open spec fn sat_sub_u32(a: u32, b: nat) -> u32 {
    if b <= a {
        (a - b) as u32
    } else {
        0
    }
}

/// Saturating addition of a length to a column number.
pub open spec fn sat_add_u32(a: u32, b: nat) -> u32 {
    if a + b <= u32::MAX {
        (a + b) as u32
    } else {
        u32::MAX
    }
}

/// The suggestion built for raw generator output `text` at `position`,
/// where `line_before` is the text of the current line up to the cursor:
/// the insertion range starts where the typed line fragment starts and
/// spans the full replacement text.
pub open spec fn completion_item_view(
    id: u128,
    text: Seq<char>,
    line_before: Seq<char>,
    position: CopilotPosition,
) -> ItemView {
    let start_character = sat_sub_u32(position.character, line_before.len());
    ItemView {
        uuid: id,
        text: line_before + text,
        display_text: text,
        range: CopilotRange {
            start: CopilotPosition { line: position.line, character: start_character },
            end: CopilotPosition {
                line: position.line,
                character: sat_add_u32(start_character, (line_before + text).len()),
            },
        },
        position,
    }
}

/// Relies on uuid::Uuid::new_v4 to mint a suggestion identity; the result
/// is random, so nothing is assumed of the value.
#[verifier::external_body]
fn fresh_completion_id() -> u128 {
    uuid::Uuid::new_v4().as_u128()
}

fn sat_sub_u32_exec(a: u32, b: usize) -> (r: u32)
    ensures
        r == sat_sub_u32(a, b as nat),
{
    if b <= a as usize {
        a - b as u32
    } else {
        0
    }
}

fn sat_add_u32_exec(a: u32, b: usize) -> (r: u32)
    ensures
        r == sat_add_u32(a, b as nat),
{
    if b <= (u32::MAX - a) as usize {
        a + b as u32
    } else {
        u32::MAX
    }
}

impl CopilotCompletionItem {
    /// Build the suggestion for one raw generator output, minting a fresh
    /// identity for it.
    pub fn new(text: &String, line_before: &String, position: CopilotPosition) -> (r: Self)
        ensures
            r@ == completion_item_view(r.uuid, text@, line_before@, position),
    {
        let uuid = fresh_completion_id();
        let mut full = line_before.clone();
        full.append(text.as_str());
        let start_character = sat_sub_u32_exec(position.character, line_before.unicode_len());
        let end_character = sat_add_u32_exec(start_character, full.unicode_len());
        CopilotCompletionItem {
            uuid,
            text: full,
            display_text: text.clone(),
            range: CopilotRange {
                start: CopilotPosition { line: position.line, character: start_character },
                end: CopilotPosition { line: position.line, character: end_character },
            },
            position,
        }
    }
}

impl Clone for CopilotCompletionItem {
    fn clone(&self) -> (r: Self)
        ensures
            r == *self,
    {
        CopilotCompletionItem {
            uuid: self.uuid,
            text: self.text.clone(),
            display_text: self.display_text.clone(),
            range: self.range,
            position: self.position,
        }
    }
}

/// The ordered suggestions produced for one request, together with the
/// request context they were computed for.
#[derive(Debug)]
pub struct CopilotCompletionResponse {
    pub completions: Vec<CopilotCompletionItem>,
    pub position: CopilotPosition,
    pub uri: String,
}

/// Mathematical view of a completion response.
pub struct ResponseView {
    pub completions: Seq<ItemView>,
    pub position: CopilotPosition,
    pub uri: Seq<char>,
}

impl View for CopilotCompletionResponse {
    type V = ResponseView;

    open spec fn view(&self) -> ResponseView {
        ResponseView {
            completions: self.completions@.map_values(|c: CopilotCompletionItem| c@),
            position: self.position,
            uri: self.uri@,
        }
    }
}

impl Clone for CopilotCompletionResponse {
    fn clone(&self) -> (r: Self)
        ensures
            r@ == self@,
    {
        let mut completions: Vec<CopilotCompletionItem> = Vec::new();
        let n = self.completions.len();
        let mut i: usize = 0;
        while i < n
            invariant
                i <= n,
                n == self.completions@.len(),
                completions@ =~= self.completions@.take(i as int),
            decreases n - i,
        {
            completions.push(self.completions[i].clone());
            i += 1;
        }
        proof {
            assert(completions@ =~= self.completions@);
        }
        CopilotCompletionResponse { completions, position: self.position, uri: self.uri.clone() }
    }
}

impl StoreValue for CopilotCompletionResponse {
    fn value_clone(&self) -> (r: Self)
        ensures
            r@ == self@,
    {
        self.clone()
    }
}

impl CopilotCompletionResponse {
    /// Build the response for the raw suggestion texts returned by the
    /// generator: one suggestion per text, in order, each with a freshly
    /// minted identity.
    pub fn from_str_vec(
        completion_list: &Vec<String>,
        line_before: &String,
        position: CopilotPosition,
        uri: &String,
    ) -> (r: Self)
        ensures
            r@.completions.len() == completion_list@.len(),
            forall|i: int|
                0 <= i < completion_list@.len() ==> #[trigger] r@.completions[i]
                    == completion_item_view(
                    r@.completions[i].uuid,
                    completion_list@[i]@,
                    line_before@,
                    position,
                ),
            r.position == position,
            r.uri@ == uri@,
    {
        let mut completions: Vec<CopilotCompletionItem> = Vec::new();
        let n = completion_list.len();
        let mut i: usize = 0;
        while i < n
            invariant
                i <= n,
                n == completion_list@.len(),
                completions@.len() == i,
                forall|j: int|
                    0 <= j < i ==> #[trigger] completions@[j]@ == completion_item_view(
                        completions@[j]@.uuid,
                        completion_list@[j]@,
                        line_before@,
                        position,
                    ),
            decreases n - i,
        {
            completions.push(CopilotCompletionItem::new(&completion_list[i], line_before, position));
            i += 1;
        }
        let r = CopilotCompletionResponse { completions, position, uri: uri.clone() };
        proof {
            assert(forall|i: int|
                0 <= i < completion_list@.len() ==> #[trigger] r@.completions[i]
                    == completion_item_view(
                    r@.completions[i].uuid,
                    completion_list@[i]@,
                    line_before@,
                    position,
                ));
        }
        r
    }
}

/// The document snapshot and cursor position a completion request names.
#[derive(Debug)]
pub struct CopilotDocument {
    pub uri: String,
    pub source: String,
    pub language_id: String,
    pub position: CopilotPosition,
}

/// Mathematical view of a requested document snapshot.
pub struct DocView {
    pub uri: Seq<char>,
    pub source: Seq<char>,
    pub language_id: Seq<char>,
    pub position: CopilotPosition,
}

impl View for CopilotDocument {
    type V = DocView;

    open spec fn view(&self) -> DocView {
        DocView {
            uri: self.uri@,
            source: self.source@,
            language_id: self.language_id@,
            position: self.position,
        }
    }
}

impl Clone for CopilotDocument {
    fn clone(&self) -> (r: Self)
        ensures
            r == *self,
    {
        CopilotDocument {
            uri: self.uri.clone(),
            source: self.source.clone(),
            language_id: self.language_id.clone(),
            position: self.position,
        }
    }
}

/// Parameters of a completion request.
#[derive(Debug)]
pub struct CopilotLspCompletionParams {
    pub doc: CopilotDocument,
}

impl View for CopilotLspCompletionParams {
    type V = DocView;

    open spec fn view(&self) -> DocView {
        self.doc@
    }
}

impl Clone for CopilotLspCompletionParams {
    fn clone(&self) -> (r: Self)
        ensures
            r == *self,
    {
        CopilotLspCompletionParams { doc: self.doc.clone() }
    }
}

/// Parameters of an accept signal: the identity of the suggestion taken.
#[derive(Clone, Copy, PartialEq, Eq, Structural, Debug)]
pub struct CopilotAcceptCompletionParams {
    pub uuid: u128,
}

/// Parameters of a reject signal: the identities of the suggestions
/// dismissed.
#[derive(Debug)]
pub struct CopilotRejectCompletionParams {
    pub uuids: Vec<u128>,
}

/// The retained context that attributes an accept or reject signal to the
/// suggestion and the request that produced it.
#[derive(Debug)]
pub struct CopilotCompletionTelemetry {
    pub completion: CopilotCompletionItem,
    pub params: CopilotLspCompletionParams,
}

/// Mathematical view of a correlation record.
pub struct TelemetryView {
    pub completion: ItemView,
    pub params: DocView,
}

impl View for CopilotCompletionTelemetry {
    type V = TelemetryView;

    open spec fn view(&self) -> TelemetryView {
        TelemetryView { completion: self.completion@, params: self.params@ }
    }
}

impl Clone for CopilotCompletionTelemetry {
    fn clone(&self) -> (r: Self)
        ensures
            r == *self,
    {
        CopilotCompletionTelemetry {
            completion: self.completion.clone(),
            params: self.params.clone(),
        }
    }
}

impl StoreValue for CopilotCompletionTelemetry {
    fn value_clone(&self) -> (r: Self)
        ensures
            r@ == self@,
    {
        self.clone()
    }
}

/// Process-wide editor metadata, replaced as a whole by configuration
/// requests and read by none of the core logic.
#[derive(Debug)]
pub struct CopilotEditorInfo {
    pub editor_name: String,
    pub editor_version: String,
    pub plugin_name: String,
    pub plugin_version: String,
}

/// Mathematical view of the editor metadata.
pub struct EditorInfoView {
    pub editor_name: Seq<char>,
    pub editor_version: Seq<char>,
    pub plugin_name: Seq<char>,
    pub plugin_version: Seq<char>,
}

impl View for CopilotEditorInfo {
    type V = EditorInfoView;

    open spec fn view(&self) -> EditorInfoView {
        EditorInfoView {
            editor_name: self.editor_name@,
            editor_version: self.editor_version@,
            plugin_name: self.plugin_name@,
            plugin_version: self.plugin_version@,
        }
    }
}

impl Clone for CopilotEditorInfo {
    fn clone(&self) -> (r: Self)
        ensures
            r == *self,
    {
        CopilotEditorInfo {
            editor_name: self.editor_name.clone(),
            editor_version: self.editor_version.clone(),
            plugin_name: self.plugin_name.clone(),
            plugin_version: self.plugin_version.clone(),
        }
    }
}

/// One workspace folder reported by the editor, keyed by its name.
#[derive(Debug)]
pub struct WorkspaceFolder {
    pub uri: String,
    pub name: String,
}

/// Mathematical view of a workspace folder.
pub struct FolderView {
    pub uri: Seq<char>,
    pub name: Seq<char>,
}

impl View for WorkspaceFolder {
    type V = FolderView;

    open spec fn view(&self) -> FolderView {
        FolderView { uri: self.uri@, name: self.name@ }
    }
}

impl Clone for WorkspaceFolder {
    fn clone(&self) -> (r: Self)
        ensures
            r == *self,
    {
        WorkspaceFolder { uri: self.uri.clone(), name: self.name.clone() }
    }
}

impl StoreValue for WorkspaceFolder {
    fn value_clone(&self) -> (r: Self)
        ensures
            r@ == self@,
    {
        self.clone()
    }
}

/// The per-request document fragments handed to the cache and the
/// generator: everything before the cursor, everything after it, and the
/// current line up to the cursor.
#[derive(Debug)]
pub struct DocParams {
    pub uri: String,
    pub pos: CopilotPosition,
    pub language: String,
    pub prefix: String,
    pub suffix: String,
    pub line_before: String,
}

} // verus!
