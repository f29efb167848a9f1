//! Small verified helpers for building and reading strings.

use vstd::prelude::*;
use vstd::string::StrSliceExecFns;
use vstd::string::StringExecFns;

verus! {

/// Code points that are valid Unicode scalar values.
pub open spec fn valid_scalar(v: u32) -> bool {
    v < 0xD800 || (0xE000 <= v && v <= 0x10FFFF)
}

/// Relies on std's `char::from_u32` returning `Some` exactly on valid scalar
/// values; the precondition keeps the `unwrap` from panicking.
#[verifier::external_body]
pub(crate) fn char_from_u32(v: u32) -> (r: char)
    requires
        valid_scalar(v),
    ensures
        r == (v as char),
{
    char::from_u32(v).unwrap()
}

/// The decimal text of `n`: its digits, most significant first.
pub open spec fn dec_str(n: nat) -> Seq<char>
    decreases n,
{
    if n < 10 {
        seq![(((48 + n) as u32) as char)]
    } else {
        dec_str(n / 10).push((((48 + n % 10) as u32) as char))
    }
}

/// The decimal text of `n`.
pub fn u64_to_string(n: u64) -> (r: String)
    ensures
        r@ == dec_str(n as nat),
    decreases n,
{
    if n < 10 {
        let c = char_from_u32(48 + (n as u32));
        let mut r = String::new();
        push_char(&mut r, c);
        r
    } else {
        let mut r = u64_to_string(n / 10);
        let c = char_from_u32(48 + ((n % 10) as u32));
        push_char(&mut r, c);
        r
    }
}

/// Relies on std's `String::push`: appends exactly the one character.
#[verifier::external_body]
pub(crate) fn push_char(s: &mut String, c: char)
    ensures
        final(s)@ == old(s)@.push(c),
{
    s.push(c);
}

/// The characters of `s`, as a vector.
pub fn str_to_chars(s: &str) -> (r: Vec<char>)
    ensures
        r@ == s@,
{
    let n = s.unicode_len();
    let mut r: Vec<char> = Vec::new();
    let mut i: usize = 0;
    while i < n
        invariant
            i <= n,
            n == s@.len(),
            r@ == s@.take(i as int),
        decreases n - i,
    {
        r.push(s.get_char(i));
        proof {
            assert(r@ =~= s@.take(i + 1));
        }
        i = i + 1;
    }
    proof {
        assert(s@.take(n as int) =~= s@);
    }
    r
}

/// `s` with a tab written at the start of every nonempty line, the way an
/// indenting writer lays text out: a tab goes before each character that
/// stands at the start of a line, and never before a bare newline.
pub open spec fn indent_tab(s: Seq<char>) -> Seq<char>
    decreases s.len(),
{
    if s.len() == 0 {
        Seq::empty()
    } else {
        let prefix = indent_tab(s.drop_last());
        let last = s.last();
        let at_line_start = s.len() == 1 || s[s.len() - 2] == '\n';
        if at_line_start && last != '\n' {
            prefix.push('\t').push(last)
        } else {
            prefix.push(last)
        }
    }
}

/// Append `t` to `out`, indenting each of `t`'s line starts with a tab.
pub fn append_indented(out: &mut String, t: &str)
    ensures
        final(out)@ == old(out)@ + indent_tab(t@),
{
    let cs = str_to_chars(t);
    let mut i: usize = 0;
    while i < cs.len()
        invariant
            i <= cs.len(),
            cs@ == t@,
            out@ == old(out)@ + indent_tab(t@.take(i as int)),
        decreases cs.len() - i,
    {
        proof {
            assert(t@.take(i + 1).drop_last() =~= t@.take(i as int));
            assert(t@.take(i + 1).last() == t@[i as int]);
        }
        let c = cs[i];
        if (i == 0 || cs[i - 1] == '\n') && c != '\n' {
            push_char(out, '\t');
        }
        push_char(out, c);
        i = i + 1;
    }
    proof {
        assert(t@.take(t@.len() as int) =~= t@);
    }
}

/// The text of `cs` between positions `i` and `j`, as a `String`.
pub fn chars_substring(cs: &Vec<char>, i: usize, j: usize) -> (r: String)
    requires
        i <= j <= cs@.len(),
    ensures
        r@ == cs@.subrange(i as int, j as int),
{
    let mut r = String::new();
    let mut k: usize = i;
    while k < j
        invariant
            i <= k <= j <= cs@.len(),
            r@ == cs@.subrange(i as int, k as int),
        decreases j - k,
    {
        push_char(&mut r, cs[k]);
        proof {
            assert(r@ =~= cs@.subrange(i as int, k + 1));
        }
        k = k + 1;
    }
    r
}

/// The segments of `parts` joined with the separator character `sep`.
pub open spec fn join_with(parts: Seq<Seq<char>>, sep: char) -> Seq<char>
    decreases parts.len(),
{
    if parts.len() == 0 {
        Seq::empty()
    } else if parts.len() == 1 {
        parts[0]
    } else {
        join_with(parts.drop_last(), sep) + seq![sep] + parts.last()
    }
}

/// Append the strings of `parts` to `out`, separated by `sep`.
pub fn append_joined(out: &mut String, parts: &Vec<String>, sep: char)
    ensures
        final(out)@ == old(out)@ + join_with(parts.deep_view(), sep),
{
    let mut i: usize = 0;
    while i < parts.len()
        invariant
            i <= parts.len(),
            out@ == old(out)@ + join_with(parts.deep_view().take(i as int), sep),
        decreases parts.len() - i,
    {
        if i > 0 {
            push_char(out, sep);
        }
        out.append(parts[i].as_str());
        proof {
            let pv = parts.deep_view();
            assert(pv.take(i + 1).drop_last() =~= pv.take(i as int));
            assert(pv.take(i + 1).last() == pv[i as int]);
            if i == 0 {
                assert(out@ =~= old(out)@ + join_with(pv.take(i + 1), sep));
            } else {
                assert(out@ =~= old(out)@ + join_with(pv.take(i + 1), sep));
            }
        }
        i = i + 1;
    }
    proof {
        assert(parts.deep_view().take(parts.deep_view().len() as int) =~= parts.deep_view());
        assert(parts.deep_view().len() == parts@.len());
    }
}

} // verus!
