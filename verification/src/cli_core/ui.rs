//! Plain (uncoloured) text output of the first-generation CLI.
use vstd::prelude::*;
use vstd::utf8::encode_utf8;
use crate::text::{pad_right, push_padded, push_repeat, repeat_char};

verus! {

/// The lines of a plain section header: a blank line, the title and a
/// dashed rule as wide as the title's UTF-8 byte length.
pub open spec fn section_text(title: Seq<char>) -> Seq<Seq<char>> {
    seq![Seq::empty(), title, repeat_char('-', encode_utf8(title).len())]
}

/// A plain section header.
pub fn section(title: &str) -> (lines: Vec<String>)
    ensures
        lines.deep_view() == section_text(title@),
{
    let mut rule = String::new();
    push_repeat(&mut rule, '-', title.as_bytes().len());
    let lines = vec![String::new(), String::from_str(title), rule];
    assert(lines.deep_view() =~= section_text(title@));
    lines
}

/// A plain key–value line: the key and a colon in an 8-character field,
/// a space, then the value.
pub open spec fn kv_text(key: Seq<char>, value: Seq<char>) -> Seq<char> {
    pad_right(key + seq![':'], 8) + seq![' '] + value
}

/// A plain key–value line.
pub fn kv(key: &str, value: &str) -> (line: String)
    ensures
        line@ == kv_text(key@, value@),
{
    let mut label = String::from_str(key);
    label.push(':');
    let mut line = String::new();
    push_padded(&mut line, label.as_str(), 8);
    line.push(' ');
    line.append(value);
    assert(line@ =~= kv_text(key@, value@));
    line
}

} // verus!
