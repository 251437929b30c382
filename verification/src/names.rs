//! Display names for tree entries.
//!
//! A process folder is named `"{pid}_{name}"` with every dot of the
//! executable name replaced by an underscore, so the name stays a single
//! path component without a spurious extension. The decimal rendering of
//! the process id and the dot replacement are both verified character by
//! character; name comparison for lookups is exact, character for
//! character, with no lossy conversion.

use vstd::prelude::*;

verus! {

/// Relies on `String::push`: appends exactly the given character.
#[verifier::external_body]
pub(crate) fn push_char(s: &mut String, c: char)
    ensures
        final(s)@ == old(s)@.push(c),
{
    s.push(c)
}

/// The decimal digit character for a value below ten.
pub open spec fn spec_digit_char(d: nat) -> char
    recommends
        d < 10,
{
    (48 + d) as char
}

/// The decimal rendering of a number, most significant digit first, with
/// no leading zero except for the number zero itself.
pub open spec fn spec_decimal(n: nat) -> Seq<char>
    decreases n,
{
    if n < 10 {
        seq![spec_digit_char(n)]
    } else {
        spec_decimal(n / 10).push(spec_digit_char(n % 10))
    }
}

fn digit_char(d: u32) -> (c: char)
    requires
        d < 10,
    ensures
        c == spec_digit_char(d as nat),
{
    match d {
        0 => '0',
        1 => '1',
        2 => '2',
        3 => '3',
        4 => '4',
        5 => '5',
        6 => '6',
        7 => '7',
        8 => '8',
        _ => '9',
    }
}

/// Renders a 32-bit number in decimal.
pub fn decimal_string(n: u32) -> (s: String)
    ensures
        s@ == spec_decimal(n as nat),
    decreases n,
{
    if n < 10 {
        let mut s = String::new();
        push_char(&mut s, digit_char(n));
        s
    } else {
        proof {
            assert(n / 10 < n && n / 10 >= 1) by (nonlinear_arith)
                requires
                    n >= 10,
            ;
        }
        let mut s = decimal_string(n / 10);
        push_char(&mut s, digit_char(n % 10));
        s
    }
}

/// The name with every `'.'` replaced by `'_'`, all else kept.
pub open spec fn spec_undot(s: Seq<char>) -> Seq<char> {
    s.map_values(|c: char| if c == '.' { '_' } else { c })
}

/// Replaces every dot of a name by an underscore.
pub fn replace_dots(name: &str) -> (out: String)
    ensures
        out@ == spec_undot(name@),
{
    let n = name.unicode_len();
    let mut out = String::new();
    let mut i: usize = 0;
    while i < n
        invariant
            i <= n,
            n == name@.len(),
            out@ == spec_undot(name@.take(i as int)),
        decreases n - i,
    {
        let c = name.get_char(i);
        let mapped: char = if c == '.' {
            '_'
        } else {
            c
        };
        push_char(&mut out, mapped);
        proof {
            assert(out@ =~= spec_undot(name@.take(i + 1 as int)));
        }
        i += 1;
    }
    proof {
        assert(name@.take(n as int) =~= name@);
    }
    out
}

/// The display name of a process folder: decimal id, an underscore, then
/// the executable name with dots replaced by underscores.
pub open spec fn spec_folder_name(pid: u32, name: Seq<char>) -> Seq<char> {
    spec_decimal(pid as nat) + seq!['_'] + spec_undot(name)
}

/// Builds the display name of a process folder.
pub fn folder_name(pid: u32, name: &str) -> (out: String)
    ensures
        out@ == spec_folder_name(pid, name@),
{
    let mut out = decimal_string(pid);
    push_char(&mut out, '_');
    let tail = replace_dots(name);
    out.append(tail.as_str());
    proof {
        assert(out@ =~= spec_folder_name(pid, name@));
    }
    out
}

/// Exact, character-for-character equality of two names.
pub fn str_eq(a: &str, b: &str) -> (equal: bool)
    ensures
        equal == (a@ == b@),
{
    let a_len = a.unicode_len();
    let b_len = b.unicode_len();
    if a_len != b_len {
        return false;
    }
    let mut i: usize = 0;
    while i < a_len
        invariant
            i <= a_len,
            a_len == a@.len(),
            a_len == b@.len(),
            forall|j: int| 0 <= j < i ==> a@[j] == b@[j],
        decreases a_len - i,
    {
        if a.get_char(i) != b.get_char(i) {
            return false;
        }
        i += 1;
    }
    proof {
        assert(a@ =~= b@);
    }
    true
}

} // verus!
