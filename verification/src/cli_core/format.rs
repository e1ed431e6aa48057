//! Memory formatting of the first-generation CLI.
use vstd::prelude::*;
use crate::text::{f64_value, f64_value_of, fixed, push_fixed};

verus! {

/// The text for a memory figure: the figure (converted to a double, as
/// `kb as f64` does) divided by 1024², with one decimal and `MB` below
/// 1024 of those units, otherwise divided by 1024³ with two decimals and
/// `GB`; rounding is half to even.
pub open spec fn memory_kb_text(kb: nat) -> Seq<char> {
    let v = f64_value(kb);
    if v < 0x4000_0000 {
        fixed(v, 0x10_0000, 1) + seq![' ', 'M', 'B']
    } else {
        fixed(v, 0x4000_0000, 2) + seq![' ', 'G', 'B']
    }
}

pub fn format_memory_kb(kb: u64) -> (s: String)
    ensures
        s@ == memory_kb_text(kb as nat),
{
    let v = f64_value_of(kb);
    let mut s = String::new();
    if v < 0x4000_0000 {
        push_fixed(&mut s, v, 0x10_0000, 1);
        s.push(' ');
        s.push('M');
        s.push('B');
    } else {
        push_fixed(&mut s, v, 0x4000_0000, 2);
        s.push(' ');
        s.push('G');
        s.push('B');
    }
    assert(s@ =~= memory_kb_text(kb as nat));
    s
}

} // verus!
