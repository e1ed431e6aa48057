//! Decisions of the `pulse` command line: reading the daemon's PID file,
//! telling a PID from a process name, and the text the daemon writes to
//! its PID file.
use vstd::prelude::*;
use crate::text::{decimal, decimal_string, digit};

verus! {

// ── Characters and trimming ──────────────────────────────────────────

/// Unicode `White_Space`, the characters that `char::is_whitespace` accepts.
pub open spec fn is_whitespace(c: char) -> bool {
    ||| '\u{9}' <= c && c <= '\u{d}'
    ||| c == ' '
    ||| c == '\u{85}'
    ||| c == '\u{a0}'
    ||| c == '\u{1680}'
    ||| '\u{2000}' <= c && c <= '\u{200a}'
    ||| c == '\u{2028}'
    ||| c == '\u{2029}'
    ||| c == '\u{202f}'
    ||| c == '\u{205f}'
    ||| c == '\u{3000}'
}

fn whitespace(c: char) -> (r: bool)
    ensures
        r == is_whitespace(c),
{
    ('\u{9}' <= c && c <= '\u{d}') || c == ' ' || c == '\u{85}' || c == '\u{a0}' || c == '\u{1680}'
        || ('\u{2000}' <= c && c <= '\u{200a}') || c == '\u{2028}' || c == '\u{2029}' || c
        == '\u{202f}' || c == '\u{205f}' || c == '\u{3000}'
}

/// `s` without its leading white space.
pub open spec fn trim_start(s: Seq<char>) -> Seq<char>
    decreases s.len(),
{
    if s.len() > 0 && is_whitespace(s[0]) {
        trim_start(s.drop_first())
    } else {
        s
    }
}

/// `s` without its trailing white space.
pub open spec fn trim_end(s: Seq<char>) -> Seq<char>
    decreases s.len(),
{
    if s.len() > 0 && is_whitespace(s.last()) {
        trim_end(s.drop_last())
    } else {
        s
    }
}

/// `s` without leading and trailing white space (what `str::trim` gives).
pub open spec fn trim(s: Seq<char>) -> Seq<char> {
    trim_end(trim_start(s))
}

/// The bounds of `trim(s@)` within `s`.
fn trim_bounds(s: &str) -> (r: (usize, usize))
    ensures
        r.0 <= r.1 <= s@.len(),
        s@.subrange(r.0 as int, r.1 as int) == trim(s@),
{
    let n = s.unicode_len();
    let mut i: usize = 0;
    assert(s@.subrange(0, n as int) =~= s@);
    while i < n && whitespace(s.get_char(i))
        invariant
            n == s@.len(),
            i <= n,
            trim_start(s@) == trim_start(s@.subrange(i as int, n as int)),
        decreases n - i,
    {
        assert(s@.subrange(i as int, n as int).drop_first() =~= s@.subrange(i + 1, n as int));
        i = i + 1;
    }
    assert(trim_start(s@) == s@.subrange(i as int, n as int));
    let mut j: usize = n;
    while j > i && whitespace(s.get_char(j - 1))
        invariant
            n == s@.len(),
            i <= j <= n,
            trim(s@) == trim_end(s@.subrange(i as int, j as int)),
        decreases j,
    {
        assert(s@.subrange(i as int, j as int).drop_last() =~= s@.subrange(i as int, j - 1));
        j = j - 1;
    }
    (i, j)
}

// ── Decimal numbers ──────────────────────────────────────────────────

/// Whether `c` is an ASCII digit.
pub open spec fn is_digit(c: char) -> bool {
    '0' <= c && c <= '9'
}

/// Whether `s` consists of ASCII digits only.
pub open spec fn all_digits(s: Seq<char>) -> bool {
    forall|i: int| 0 <= i < s.len() ==> is_digit(#[trigger] s[i])
}

/// The value of a string of ASCII digits, read in base ten.
pub open spec fn digits_value(s: Seq<char>) -> nat
    decreases s.len(),
{
    if s.len() == 0 {
        0
    } else {
        digits_value(s.drop_last()) * 10 + (s.last() as int - '0' as int) as nat
    }
}

/// A prefix of a string of digits is worth no more than the whole.
proof fn prefix_value_bound(s: Seq<char>, k: int)
    requires
        0 <= k <= s.len(),
        all_digits(s),
    ensures
        digits_value(s.subrange(0, k)) <= digits_value(s),
    decreases s.len(),
{
    if k < s.len() {
        assert(all_digits(s.drop_last()));
        prefix_value_bound(s.drop_last(), k);
        assert(s.drop_last().subrange(0, k) =~= s.subrange(0, k));
    } else {
        assert(s.subrange(0, k) =~= s);
    }
}

/// The value of the digits `s@[from..to]` when that range is a non-empty
/// run of digits worth at most `limit`.
fn digits_within(s: &str, from: usize, to: usize, limit: u64) -> (r: Option<u64>)
    requires
        from <= to <= s@.len(),
        limit <= u32::MAX as u64 + 1,
    ensures
        match r {
            Some(v) => {
                let t = s@.subrange(from as int, to as int);
                &&& from < to
                &&& all_digits(t)
                &&& digits_value(t) <= limit
                &&& v == digits_value(t)
            },
            None => {
                let t = s@.subrange(from as int, to as int);
                !(from < to && all_digits(t) && digits_value(t) <= limit)
            },
        },
{
    if from == to {
        return None;
    }
    let ghost t = s@.subrange(from as int, to as int);
    let mut acc: u64 = 0;
    let mut i: usize = from;
    while i < to
        invariant
            from <= i <= to <= s@.len(),
            t == s@.subrange(from as int, to as int),
            acc <= limit,
            limit <= u32::MAX as u64 + 1,
            all_digits(s@.subrange(from as int, i as int)),
            acc == digits_value(s@.subrange(from as int, i as int)),
        decreases to - i,
    {
        let c = s.get_char(i);
        if !('0' <= c && c <= '9') {
            proof {
                assert(t[i - from] == c);
            }
            return None;
        }
        let d = (c as u32 - '0' as u32) as u64;
        let next = acc * 10 + d;
        proof {
            assert(s@.subrange(from as int, i + 1).drop_last() =~= s@.subrange(from as int, i as int));
            assert(all_digits(s@.subrange(from as int, i + 1)));
        }
        if next > limit {
            proof {
                if all_digits(t) {
                    prefix_value_bound(t, i + 1 - from);
                    assert(t.subrange(0, i + 1 - from) =~= s@.subrange(from as int, i + 1));
                }
            }
            return None;
        }
        acc = next;
        i = i + 1;
    }
    assert(s@.subrange(from as int, to as int) =~= t);
    Some(acc)
}

/// What `u32::from_str` gives: an optional `+` and at least one digit,
/// worth at most `u32::MAX`.
pub open spec fn parse_u32(s: Seq<char>) -> Option<u32> {
    let body = if s.len() > 0 && s[0] == '+' {
        s.drop_first()
    } else {
        s
    };
    if body.len() > 0 && all_digits(body) && digits_value(body) <= u32::MAX {
        Some(digits_value(body) as u32)
    } else {
        None
    }
}

/// What `i32::from_str` gives: an optional sign and at least one digit,
/// within the range of `i32`.
pub open spec fn parse_i32(s: Seq<char>) -> Option<i32> {
    if s.len() > 0 && s[0] == '-' {
        let body = s.drop_first();
        if body.len() > 0 && all_digits(body) && digits_value(body) <= 0x8000_0000 {
            Some((0 - digits_value(body)) as i32)
        } else {
            None
        }
    } else {
        let body = if s.len() > 0 && s[0] == '+' {
            s.drop_first()
        } else {
            s
        };
        if body.len() > 0 && all_digits(body) && digits_value(body) <= i32::MAX {
            Some(digits_value(body) as i32)
        } else {
            None
        }
    }
}

/// The PID stored in the daemon's PID file: the content, trimmed, read as
/// a `u32`; `None` when it is not one.
pub fn parse_pid_file(content: &str) -> (pid: Option<u32>)
    ensures
        pid == parse_u32(trim(content@)),
{
    let (from, to) = trim_bounds(content);
    let ghost t = content@.subrange(from as int, to as int);
    let start = if from < to && content.get_char(from) == '+' {
        from + 1
    } else {
        from
    };
    proof {
        if from < to && t[0] == '+' {
            assert(t.drop_first() =~= content@.subrange(start as int, to as int));
        } else {
            assert(t =~= content@.subrange(start as int, to as int));
        }
    }
    match digits_within(content, start, to, u32::MAX as u64) {
        Some(v) => Some(v as u32),
        None => None,
    }
}

/// What a process argument names: a PID when it reads as an `i32`.
pub fn process_target(target: &str) -> (pid: Option<i32>)
    ensures
        pid == parse_i32(target@),
{
    let n = target.unicode_len();
    if n > 0 && target.get_char(0) == '-' {
        proof {
            assert(target@.drop_first() =~= target@.subrange(1, n as int));
        }
        match digits_within(target, 1, n, 0x8000_0000) {
            Some(v) => Some((0i64 - v as i64) as i32),
            None => None,
        }
    } else {
        let start: usize = if n > 0 && target.get_char(0) == '+' {
            1
        } else {
            0
        };
        proof {
            if start == 1 {
                assert(target@.drop_first() =~= target@.subrange(1, n as int));
            } else {
                assert(target@ =~= target@.subrange(0, n as int));
            }
        }
        match digits_within(target, start, n, i32::MAX as u64) {
            Some(v) => Some(v as i32),
            None => None,
        }
    }
}

// ── The PID file ─────────────────────────────────────────────────────

/// The content the daemon writes to its PID file: the PID in decimal.
pub fn pid_file_content(pid: u32) -> (content: String)
    ensures
        content@ == decimal(pid as nat),
{
    decimal_string(pid as u64)
}

/// A digit character stands for its own value.
proof fn digit_stands_for(d: nat)
    requires
        d < 10,
    ensures
        is_digit(digit(d)),
        digit(d) as int - '0' as int == d,
{
}

/// The decimal rendering of a number is a run of digits worth that number.
pub proof fn decimal_reads_back(n: nat)
    ensures
        decimal(n).len() > 0,
        all_digits(decimal(n)),
        digits_value(decimal(n)) == n,
    decreases n,
{
    digit_stands_for(n % 10);
    if n < 10 {
        let d = decimal(n);
        assert(d.drop_last() =~= Seq::<char>::empty());
        assert(n % 10 == n);
        assert(digits_value(d.drop_last()) == 0);
        assert(d.last() == digit(n));
    } else {
        decimal_reads_back(n / 10);
        let d = decimal(n);
        assert(d.drop_last() =~= decimal(n / 10));
        assert(d.last() == digit(n % 10));
        assert(digits_value(d) == digits_value(decimal(n / 10)) * 10 + (n % 10));
        assert((n / 10) * 10 + n % 10 == n);
        assert forall|i: int| 0 <= i < d.len() implies is_digit(#[trigger] d[i]) by {
            if i < d.len() - 1 {
                assert(d[i] == decimal(n / 10)[i]);
            }
        }
    }
}

/// What the daemon writes to its PID file reads back as the same PID.
pub proof fn pid_file_round_trip(pid: u32)
    ensures
        parse_u32(trim(decimal(pid as nat))) == Some(pid),
{
    decimal_reads_back(pid as nat);
    let d = decimal(pid as nat);
    assert(!is_whitespace(d[0]));
    assert(trim_start(d) == d);
    assert(!is_whitespace(d.last()));
    assert(trim_end(d) == d);
    assert(d[0] != '+');
}

} // verus!
