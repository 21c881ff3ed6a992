//! Position resolution: translating a (line, column) cursor position into
//! an offset in the document text and slicing the fragments around it.
//!
//! Resolution is total: a position beyond the end of the text clamps to
//! the end, and an empty document yields empty fragments.

use vstd::prelude::*;

use crate::types::CopilotPosition;

verus! {

/// The index just past the next newline at or after `from`, or the end of
/// the text when no newline follows.
pub open spec fn next_line_start(text: Seq<char>, from: int) -> int
    decreases text.len() - from,
{
    if from < 0 || from >= text.len() {
        text.len() as int
    } else if text[from] == '\n' {
        from + 1
    } else {
        next_line_start(text, from + 1)
    }
}

/// The index at which the zero-based line `line` starts; the end of the
/// text when the document has fewer lines.
pub open spec fn line_start(text: Seq<char>, line: nat) -> int
    decreases line,
{
    if line == 0 {
        0
    } else {
        next_line_start(text, line_start(text, (line - 1) as nat))
    }
}

/// The offset of a (line, column) position: the column counted from the
/// start of its line, clamped to the end of the text.
pub open spec fn position_offset(text: Seq<char>, line: u32, character: u32) -> int {
    let ls = line_start(text, line as nat);
    if ls + character <= text.len() {
        ls + character
    } else {
        text.len() as int
    }
}

proof fn lemma_next_line_start_bounds(text: Seq<char>, from: int)
    requires
        0 <= from <= text.len(),
    ensures
        from <= next_line_start(text, from) <= text.len(),
    decreases text.len() - from,
{
    if from < text.len() && text[from] != '\n' {
        lemma_next_line_start_bounds(text, from + 1);
    }
}

proof fn lemma_line_start_bounds(text: Seq<char>, line: nat)
    ensures
        0 <= line_start(text, line) <= text.len(),
    decreases line,
{
    if line > 0 {
        lemma_line_start_bounds(text, (line - 1) as nat);
        lemma_next_line_start_bounds(text, line_start(text, (line - 1) as nat));
    }
}

proof fn lemma_line_start_saturates(text: Seq<char>, l: nat, m: nat)
    requires
        l <= m,
        line_start(text, l) == text.len(),
    ensures
        line_start(text, m) == text.len(),
    decreases m - l,
{
    if m > l {
        lemma_line_start_saturates(text, l, (m - 1) as nat);
    }
}

fn next_line_start_exec(text: &str, from: usize, len: usize) -> (r: usize)
    requires
        from <= len,
        len == text@.len(),
    ensures
        r == next_line_start(text@, from as int),
        from <= r <= len,
{
    let mut i = from;
    while i < len
        invariant
            from <= i <= len,
            len == text@.len(),
            next_line_start(text@, i as int) == next_line_start(text@, from as int),
        decreases len - i,
    {
        if text.get_char(i) == '\n' {
            proof {
                lemma_next_line_start_bounds(text@, from as int);
            }
            return i + 1;
        }
        i += 1;
    }
    proof {
        lemma_next_line_start_bounds(text@, from as int);
    }
    len
}

fn line_start_exec(text: &str, line: u32, len: usize) -> (r: usize)
    requires
        len == text@.len(),
    ensures
        r == line_start(text@, line as nat),
        r <= len,
{
    let mut l: u32 = 0;
    let mut s: usize = 0;
    proof {
        lemma_line_start_bounds(text@, 0);
    }
    while l < line
        invariant
            l <= line,
            s <= len,
            len == text@.len(),
            s == line_start(text@, l as nat),
        decreases line - l,
    {
        if s >= len {
            proof {
                lemma_line_start_saturates(text@, l as nat, line as nat);
            }
            return s;
        }
        s = next_line_start_exec(text, s, len);
        l += 1;
    }
    s
}

/// Translate a cursor position to an offset in the text, clamping a
/// position beyond the end of the text to the end.
pub fn position_to_offset(position: CopilotPosition, text: &str) -> (r: usize)
    ensures
        r == position_offset(text@, position.line, position.character),
{
    let len = text.unicode_len();
    let ls = line_start_exec(text, position.line, len);
    let c = position.character as usize;
    if c <= len - ls {
        ls + c
    } else {
        len
    }
}

/// All text before the given offset.
pub fn get_text_before(offset: usize, text: &str) -> (r: String)
    requires
        offset <= text@.len(),
    ensures
        r@ == text@.subrange(0, offset as int),
{
    String::from_str(text.substring_char(0, offset))
}

/// All text at and after the given offset.
pub fn get_text_after(offset: usize, text: &str) -> (r: String)
    requires
        offset <= text@.len(),
    ensures
        r@ == text@.subrange(offset as int, text@.len() as int),
{
    String::from_str(text.substring_char(offset, text.unicode_len()))
}

/// The text of the position's line from its start up to the cursor.
pub fn get_line_before(position: CopilotPosition, text: &str) -> (r: String)
    ensures
        r@ == text@.subrange(
            line_start(text@, position.line as nat),
            position_offset(text@, position.line, position.character),
        ),
{
    let len = text.unicode_len();
    let ls = line_start_exec(text, position.line, len);
    let offset = position_to_offset(position, text);
    proof {
        lemma_line_start_bounds(text@, position.line as nat);
    }
    String::from_str(text.substring_char(ls, offset))
}

} // verus!
