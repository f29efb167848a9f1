//! The source-file parser.
//!
//! A file is a sequence of lines. A line that holds only whitespace is an
//! empty statement; any other line must be an import statement:
//!
//! ```text
//! import "<target>"
//! import <item>, <item>, ... from "<target>"
//! item  ::=  ident ('.' ident)*  ('as' ident)?
//! ```
//!
//! The target is a double-quoted string with the escapes `\n` `\r` `\t` `\0`
//! `\"` `\\` `\xHH` and `\u{H...}`. Anything else is a parse error naming the
//! first offending line.

use vstd::prelude::*;
use vstd::string::StringExecFns;

use crate::ast::global_statement::GlobalStatement;
use crate::ast::global_statement::GlobalStatementView;
use crate::ast::import_statement::ImportItem;
use crate::ast::import_statement::ImportItemView;
use crate::ast::import_statement::ImportStatement;
use crate::ast::import_statement::ImportStatementView;
use crate::ast::root_node::RootNode;
use crate::paths::path_view;
use crate::strutil::char_from_u32;
use crate::strutil::chars_substring;
use crate::strutil::push_char;
use crate::strutil::str_to_chars;
use crate::strutil::valid_scalar;

verus! {

/// A parse error: the first line that is not a valid statement.
#[derive(Debug)]
pub struct ParseError {
    pub line: usize,
    pub message: String,
}

/// Whitespace characters inside a line.
pub open spec fn is_ws_char(c: char) -> bool {
    c == ' ' || c == '\t' || c == '\r'
}

/// Characters an identifier may hold: ASCII letters, digits, underscore.
pub open spec fn is_ident_char(c: char) -> bool {
    (97 <= c as u32 && c as u32 <= 122) || (65 <= c as u32 && c as u32 <= 90) || (48 <= c as u32
        && c as u32 <= 57) || c == '_'
}

/// Hexadecimal digit characters.
pub open spec fn is_hex_char(c: char) -> bool {
    (48 <= c as u32 && c as u32 <= 57) || (97 <= c as u32 && c as u32 <= 102) || (65 <= c as u32
        && c as u32 <= 70)
}

/// The value of a hexadecimal digit character.
pub open spec fn hex_val(c: char) -> u32 {
    if 48 <= c as u32 && c as u32 <= 57 {
        (c as u32 - 48) as u32
    } else if 97 <= c as u32 && c as u32 <= 102 {
        (c as u32 - 87) as u32
    } else if 65 <= c as u32 && c as u32 <= 70 {
        (c as u32 - 55) as u32
    } else {
        0
    }
}


/// The state of the escape-decoding machine.
#[derive(Clone, Copy)]
pub enum EscSt {
    /// Plain text.
    Normal,
    /// A backslash was read.
    Bs,
    /// `\x` was read; a first hex digit is expected.
    X0,
    /// `\x` and one hex digit (the payload) were read.
    X1(u32),
    /// `\u` was read; `{` is expected.
    U0,
    /// Inside `\u{...}`: the value so far and whether a digit was read.
    U(u32, bool),
    /// The input can no longer be a valid escaped string.
    Dead,
}

/// One step of escape decoding: the next state and the characters emitted.
pub open spec fn esc_step(st: EscSt, c: char) -> (EscSt, Seq<char>) {
    match st {
        EscSt::Dead => (EscSt::Dead, Seq::empty()),
        EscSt::Normal => if c == '\\' {
            (EscSt::Bs, Seq::empty())
        } else {
            (EscSt::Normal, seq![c])
        },
        EscSt::Bs => if c == 'n' {
            (EscSt::Normal, seq!['\n'])
        } else if c == 'r' {
            (EscSt::Normal, seq!['\r'])
        } else if c == 't' {
            (EscSt::Normal, seq!['\t'])
        } else if c == '0' {
            (EscSt::Normal, seq!['\0'])
        } else if c == '"' {
            (EscSt::Normal, seq!['"'])
        } else if c == '\\' {
            (EscSt::Normal, seq!['\\'])
        } else if c == 'x' {
            (EscSt::X0, Seq::empty())
        } else if c == 'u' {
            (EscSt::U0, Seq::empty())
        } else {
            (EscSt::Dead, Seq::empty())
        },
        EscSt::X0 => if is_hex_char(c) {
            (EscSt::X1(hex_val(c)), Seq::empty())
        } else {
            (EscSt::Dead, Seq::empty())
        },
        EscSt::X1(h) => if is_hex_char(c) {
            (EscSt::Normal, seq![(((h * 16 + hex_val(c)) as u32) as char)])
        } else {
            (EscSt::Dead, Seq::empty())
        },
        EscSt::U0 => if c == '{' {
            (EscSt::U(0, false), Seq::empty())
        } else {
            (EscSt::Dead, Seq::empty())
        },
        EscSt::U(acc, hd) => if c == '}' {
            if hd && valid_scalar(acc) {
                (EscSt::Normal, seq![(acc as char)])
            } else {
                (EscSt::Dead, Seq::empty())
            }
        } else if is_hex_char(c) {
            if acc * 16 + hex_val(c) > 0x10FFFF {
                (EscSt::Dead, Seq::empty())
            } else {
                (EscSt::U(((acc * 16 + hex_val(c)) as u32), true), Seq::empty())
            }
        } else {
            (EscSt::Dead, Seq::empty())
        },
    }
}

/// Bounds that the escape machine's states keep: hex payloads stay small.
pub open spec fn esc_st_wf(st: EscSt) -> bool {
    match st {
        EscSt::X1(h) => h <= 15,
        EscSt::U(acc, _) => acc <= 0x10FFFF,
        _ => true,
    }
}

/// Run the escape machine over `s` from position `i` in state `st`.
pub open spec fn unesc_run(s: Seq<char>, i: int, st: EscSt) -> (EscSt, Seq<char>)
    decreases s.len() - i,
{
    if i < 0 || i >= s.len() {
        (st, Seq::empty())
    } else {
        let (st2, e) = esc_step(st, s[i]);
        let (st3, rest) = unesc_run(s, i + 1, st2);
        (st3, e + rest)
    }
}

/// The decoded text of an escaped string body, or `None` when it is not a
/// valid escaped string (a bad or unfinished escape).
pub open spec fn unescape(s: Seq<char>) -> Option<Seq<char>> {
    let (st, out) = unesc_run(s, 0, EscSt::Normal);
    if st is Normal {
        Some(out)
    } else {
        None
    }
}

/// Decode the escapes of `cs`.
fn exec_unescape(cs: &Vec<char>) -> (r: Option<String>)
    ensures
        match r {
            Some(t) => unescape(cs@) == Some(t@),
            None => unescape(cs@) is None,
        },
{
    let mut out = String::new();
    let mut st = EscSt::Normal;
    let mut i: usize = 0;
    while i < cs.len()
        invariant
            i <= cs.len(),
            esc_st_wf(st),
            unesc_run(cs@, 0, EscSt::Normal).0 == unesc_run(cs@, i as int, st).0,
            unesc_run(cs@, 0, EscSt::Normal).1 == out@ + unesc_run(cs@, i as int, st).1,
        decreases cs.len() - i,
    {
        let c = cs[i];
        let ghost st0 = st;
        match st {
            EscSt::Dead => {},
            EscSt::Normal => {
                if c == '\\' {
                    st = EscSt::Bs;
                } else {
                    push_char(&mut out, c);
                }
            },
            EscSt::Bs => {
                if c == 'n' {
                    st = EscSt::Normal;
                    push_char(&mut out, '\n');
                } else if c == 'r' {
                    st = EscSt::Normal;
                    push_char(&mut out, '\r');
                } else if c == 't' {
                    st = EscSt::Normal;
                    push_char(&mut out, '\t');
                } else if c == '0' {
                    st = EscSt::Normal;
                    push_char(&mut out, '\0');
                } else if c == '"' {
                    st = EscSt::Normal;
                    push_char(&mut out, '"');
                } else if c == '\\' {
                    st = EscSt::Normal;
                    push_char(&mut out, '\\');
                } else if c == 'x' {
                    st = EscSt::X0;
                } else if c == 'u' {
                    st = EscSt::U0;
                } else {
                    st = EscSt::Dead;
                }
            },
            EscSt::X0 => {
                if exec_is_hex(c) {
                    st = EscSt::X1(exec_hex_val(c));
                } else {
                    st = EscSt::Dead;
                }
            },
            EscSt::X1(h) => {
                if exec_is_hex(c) {
                    let v: u32 = h * 16 + exec_hex_val(c);
                    proof {
                        assert(valid_scalar(v));
                    }
                    st = EscSt::Normal;
                    push_char(&mut out, char_from_u32(v));
                } else {
                    st = EscSt::Dead;
                }
            },
            EscSt::U0 => {
                if c == '{' {
                    st = EscSt::U(0, false);
                } else {
                    st = EscSt::Dead;
                }
            },
            EscSt::U(acc, hd) => {
                if c == '}' {
                    if hd && exec_valid_scalar(acc) {
                        st = EscSt::Normal;
                        push_char(&mut out, char_from_u32(acc));
                    } else {
                        st = EscSt::Dead;
                    }
                } else if exec_is_hex(c) {
                    let v: u32 = acc * 16 + exec_hex_val(c);
                    if v > 0x10FFFF {
                        st = EscSt::Dead;
                    } else {
                        st = EscSt::U(v, true);
                    }
                } else {
                    st = EscSt::Dead;
                }
            },
        }
        proof {
            assert(esc_step(st0, cs@[i as int]).0 == st);
        }
        i = i + 1;
    }
    match st {
        EscSt::Normal => Some(out),
        _ => None,
    }
}

/// Whether a `u32` value is below each hex-range bound (executable form).
fn exec_is_hex(c: char) -> (r: bool)
    ensures
        r == is_hex_char(c),
{
    let u = c as u32;
    (48 <= u && u <= 57) || (97 <= u && u <= 102) || (65 <= u && u <= 70)
}

/// The value of a hex digit (executable form).
fn exec_hex_val(c: char) -> (r: u32)
    ensures
        r == hex_val(c),
        r <= 15,
{
    let u = c as u32;
    if 48 <= u && u <= 57 {
        u - 48
    } else if 97 <= u && u <= 102 {
        u - 87
    } else if 65 <= u && u <= 70 {
        u - 55
    } else {
        0
    }
}

/// Whether `v` is a valid Unicode scalar value (executable form).
fn exec_valid_scalar(v: u32) -> (r: bool)
    ensures
        r == valid_scalar(v),
{
    v < 0xD800 || (0xE000 <= v && v <= 0x10FFFF)
}

/// The decoded text of a double-quoted string literal, quotes included, or
/// `None` when the text is not a complete, validly escaped literal.
pub open spec fn spec_parse_string_literal(lit: Seq<char>) -> Option<Seq<char>> {
    if lit.len() >= 2 && lit[0] == '"' && lit.last() == '"' {
        unescape(lit.subrange(1, lit.len() - 1))
    } else {
        None
    }
}

/// Decode a double-quoted string literal (quotes included): the escapes
/// `\n` `\r` `\t` `\0` `\"` `\\` `\xHH` and `\u{H...}` become the characters
/// they name.
pub fn parse_string_literal(literal: &str) -> (r: Option<String>)
    ensures
        match r {
            Some(t) => spec_parse_string_literal(literal@) == Some(t@),
            None => spec_parse_string_literal(literal@) is None,
        },
{
    let cs = str_to_chars(literal);
    if cs.len() < 2 {
        return None;
    }
    if cs[0] != '"' || cs[cs.len() - 1] != '"' {
        return None;
    }
    let mut inner: Vec<char> = Vec::new();
    let mut i: usize = 1;
    while i < cs.len() - 1
        invariant
            1 <= i <= cs.len() - 1,
            cs.len() >= 2,
            inner@ == cs@.subrange(1, i as int),
        decreases cs.len() - i,
    {
        inner.push(cs[i]);
        proof {
            assert(inner@ =~= cs@.subrange(1, i + 1));
        }
        i = i + 1;
    }
    proof {
        assert(inner@ =~= cs@.subrange(1, cs@.len() - 1));
    }
    exec_unescape(&inner)
}

/// The first position at or after `i` that does not hold whitespace.
pub open spec fn skip_ws_from(s: Seq<char>, i: int) -> int
    decreases s.len() - i,
{
    if 0 <= i < s.len() && is_ws_char(s[i]) {
        skip_ws_from(s, i + 1)
    } else {
        i
    }
}

/// The first position at or after `i` that does not hold an identifier
/// character: the end of the identifier starting at `i`.
pub open spec fn ident_end_from(s: Seq<char>, i: int) -> int
    decreases s.len() - i,
{
    if 0 <= i < s.len() && is_ident_char(s[i]) {
        ident_end_from(s, i + 1)
    } else {
        i
    }
}

fn exec_skip_ws(line: &Vec<char>, i: usize) -> (r: usize)
    requires
        i <= line@.len(),
    ensures
        r == skip_ws_from(line@, i as int),
        i <= r <= line@.len(),
{
    let mut j = i;
    while j < line.len() && (line[j] == ' ' || line[j] == '\t' || line[j] == '\r')
        invariant
            i <= j <= line@.len(),
            skip_ws_from(line@, i as int) == skip_ws_from(line@, j as int),
        decreases line@.len() - j,
    {
        j = j + 1;
    }
    j
}

fn exec_is_ident_char(c: char) -> (r: bool)
    ensures
        r == is_ident_char(c),
{
    let u = c as u32;
    (97 <= u && u <= 122) || (65 <= u && u <= 90) || (48 <= u && u <= 57) || c == '_'
}

fn exec_ident_end(line: &Vec<char>, i: usize) -> (r: usize)
    requires
        i <= line@.len(),
    ensures
        r == ident_end_from(line@, i as int),
        i <= r <= line@.len(),
{
    let mut j = i;
    while j < line.len() && exec_is_ident_char(line[j])
        invariant
            i <= j <= line@.len(),
            ident_end_from(line@, i as int) == ident_end_from(line@, j as int),
        decreases line@.len() - j,
    {
        j = j + 1;
    }
    j
}

/// The dotted components of one import item starting at `i`: each a nonempty
/// identifier, separated by dots; also the position just after them.
pub open spec fn spec_parse_components(s: Seq<char>, i: int, fuel: nat) -> Option<
    (Seq<Seq<char>>, int),
>
    decreases fuel,
{
    let j = ident_end_from(s, i);
    if j == i {
        None
    } else {
        let comp = s.subrange(i, j);
        if j < s.len() && s[j] == '.' {
            if fuel == 0 {
                None
            } else {
                match spec_parse_components(s, j + 1, (fuel - 1) as nat) {
                    Some((rest, k)) => Some((seq![comp] + rest, k)),
                    None => None,
                }
            }
        } else {
            Some((seq![comp], j))
        }
    }
}

fn exec_parse_components(line: &Vec<char>, i: usize, fuel: usize) -> (r: Option<
    (Vec<String>, usize),
>)
    requires
        i <= line@.len(),
    ensures
        match r {
            Some(p) => spec_parse_components(line@, i as int, fuel as nat) == Some(
                (p.0.deep_view(), p.1 as int),
            ) && i <= p.1 <= line@.len(),
            None => spec_parse_components(line@, i as int, fuel as nat) is None,
        },
    decreases fuel,
{
    let j = exec_ident_end(line, i);
    if j == i {
        return None;
    }
    let comp = chars_substring(line, i, j);
    if j < line.len() && line[j] == '.' {
        if fuel == 0 {
            return None;
        }
        match exec_parse_components(line, j + 1, fuel - 1) {
            Some((rest, k)) => {
                let ghost rv = rest.deep_view();
                let mut v = rest;
                v.insert(0, comp);
                proof {
                    assert(v.deep_view().len() == rv.len() + 1);
                    assert(v.deep_view()[0] == line@.subrange(i as int, j as int));
                    assert(forall|m: int| 0 <= m < rv.len() ==> v.deep_view()[m + 1] == rv[m]);
                    assert(v.deep_view() =~= seq![line@.subrange(i as int, j as int)] + rv);
                }
                Some((v, k))
            },
            None => None,
        }
    } else {
        let mut v: Vec<String> = Vec::new();
        v.push(comp);
        proof {
            assert(v.deep_view() =~= seq![line@.subrange(i as int, j as int)]);
        }
        Some((v, j))
    }
}

/// One import item starting at `i`: dotted components, optionally followed by
/// whitespace, `as` and an alias identifier; also the position just after it.
pub open spec fn spec_parse_item(s: Seq<char>, i: int, fuel: nat) -> Option<
    (ImportItemView, int),
> {
    match spec_parse_components(s, i, fuel) {
        None => None,
        Some((comps, j)) => {
            let k = skip_ws_from(s, j);
            if k > j && k + 2 <= s.len() && s[k] == 'a' && s[k + 1] == 's' && k + 2 < s.len()
                && is_ws_char(s[k + 2]) {
                let m = skip_ws_from(s, k + 2);
                let e = ident_end_from(s, m);
                if e == m {
                    None
                } else {
                    Some(
                        (
                            ImportItemView { components: comps, alias: Some(s.subrange(m, e)) },
                            e,
                        ),
                    )
                }
            } else {
                Some((ImportItemView { components: comps, alias: None }, j))
            }
        },
    }
}

fn exec_parse_item(line: &Vec<char>, i: usize, fuel: usize) -> (r: Option<(ImportItem, usize)>)
    requires
        i <= line@.len(),
    ensures
        match r {
            Some(p) => spec_parse_item(line@, i as int, fuel as nat) == Some(
                (p.0@, p.1 as int),
            ) && i <= p.1 <= line@.len(),
            None => spec_parse_item(line@, i as int, fuel as nat) is None,
        },
{
    match exec_parse_components(line, i, fuel) {
        None => None,
        Some((comps, j)) => {
            let k = exec_skip_ws(line, j);
            if k > j && line.len() - k >= 2 && line[k] == 'a' && line[k + 1] == 's' && line.len()
                - k > 2 && (line[k + 2] == ' ' || line[k + 2] == '\t' || line[k + 2]
                == '\r') {
                let m = exec_skip_ws(line, k + 2);
                let e = exec_ident_end(line, m);
                if e == m {
                    None
                } else {
                    let alias = chars_substring(line, m, e);
                    Some((ImportItem { components: comps, alias: Some(alias) }, e))
                }
            } else {
                Some((ImportItem { components: comps, alias: None }, j))
            }
        },
    }
}

/// The comma-separated import items starting at `i`, and the position just
/// after the last one.
pub open spec fn spec_parse_items(s: Seq<char>, i: int, fuel: nat) -> Option<
    (Seq<ImportItemView>, int),
>
    decreases fuel,
{
    match spec_parse_item(s, i, fuel) {
        None => None,
        Some((item, j)) => {
            let k = skip_ws_from(s, j);
            if k < s.len() && s[k] == ',' {
                if fuel == 0 {
                    None
                } else {
                    let m = skip_ws_from(s, k + 1);
                    match spec_parse_items(s, m, (fuel - 1) as nat) {
                        Some((rest, e)) => Some((seq![item] + rest, e)),
                        None => None,
                    }
                }
            } else {
                Some((seq![item], j))
            }
        },
    }
}

fn exec_parse_items(line: &Vec<char>, i: usize, fuel: usize) -> (r: Option<
    (Vec<ImportItem>, usize),
>)
    requires
        i <= line@.len(),
    ensures
        match r {
            Some(p) => spec_parse_items(line@, i as int, fuel as nat) == Some(
                (p.0.deep_view(), p.1 as int),
            ) && i <= p.1 <= line@.len(),
            None => spec_parse_items(line@, i as int, fuel as nat) is None,
        },
    decreases fuel,
{
    match exec_parse_item(line, i, fuel) {
        None => None,
        Some((item, j)) => {
            let ghost iv = item@;
            let k = exec_skip_ws(line, j);
            if k < line.len() && line[k] == ',' {
                if fuel == 0 {
                    return None;
                }
                let m = exec_skip_ws(line, k + 1);
                match exec_parse_items(line, m, fuel - 1) {
                    Some((rest, e)) => {
                        let ghost rv = rest.deep_view();
                        let mut v = rest;
                        v.insert(0, item);
                        proof {
                            assert(v.deep_view().len() == rv.len() + 1);
                            assert(v.deep_view()[0] == iv);
                            assert(forall|q: int| 0 <= q < rv.len() ==> v.deep_view()[q + 1] == rv[q]);
                            assert(v.deep_view() =~= seq![iv] + rv);
                        }
                        Some((v, e))
                    },
                    None => None,
                }
            } else {
                let mut v: Vec<ImportItem> = Vec::new();
                v.push(item);
                proof {
                    assert(v.deep_view() =~= seq![iv]);
                }
                Some((v, j))
            }
        },
    }
}

/// The index of the quote closing a string literal whose body starts at `i`
/// (a backslash escapes the following character), if the literal is closed.
pub open spec fn str_lit_end(s: Seq<char>, i: int) -> Option<int>
    decreases s.len() - i,
{
    if i < 0 || i >= s.len() {
        None
    } else if s[i] == '"' {
        Some(i)
    } else if s[i] == '\\' {
        if i + 2 <= s.len() {
            str_lit_end(s, i + 2)
        } else {
            None
        }
    } else {
        str_lit_end(s, i + 1)
    }
}

fn exec_str_lit_end(line: &Vec<char>, i: usize) -> (r: Option<usize>)
    requires
        i <= line@.len(),
    ensures
        match r {
            Some(e) => str_lit_end(line@, i as int) == Some(e as int) && i <= e < line@.len(),
            None => str_lit_end(line@, i as int) is None,
        },
{
    let mut j = i;
    loop
        invariant
            i <= j <= line@.len(),
            str_lit_end(line@, i as int) == str_lit_end(line@, j as int),
        decreases line@.len() - j,
    {
        if j >= line.len() {
            return None;
        }
        if line[j] == '"' {
            return Some(j);
        }
        if line[j] == '\\' {
            if line.len() - j >= 2 {
                j = j + 2;
            } else {
                return None;
            }
        } else {
            j = j + 1;
        }
    }
}

/// What one line parses to.
pub ghost enum LineOut {
    /// Only whitespace.
    Blank,
    /// A valid import statement.
    Import(ImportStatementView),
    /// Anything else.
    Bad,
}

/// The fuel that bounds item recursion on a line: at least one unit per
/// separator the line could hold.
pub open spec fn line_fuel(line: Seq<char>) -> nat {
    line.len()
}

/// The tail of an import statement from its opening quote at `q`: the target
/// literal, then only whitespace to the end of the line.
pub open spec fn spec_finish_import(line: Seq<char>, q: int, items: Seq<ImportItemView>) -> LineOut {
    match str_lit_end(line, q + 1) {
        None => LineOut::Bad,
        Some(e) => match unescape(line.subrange(q + 1, e)) {
            None => LineOut::Bad,
            Some(target) => if skip_ws_from(line, e + 1) >= line.len() {
                LineOut::Import(
                    ImportStatementView { target: target, resolved_target: None, items: items },
                )
            } else {
                LineOut::Bad
            },
        },
    }
}

/// What `line` parses to: a blank line, an import statement, or an error.
pub open spec fn spec_parse_line(line: Seq<char>) -> LineOut {
    let i = skip_ws_from(line, 0);
    if i >= line.len() {
        LineOut::Blank
    } else if i + 6 <= line.len() && line[i] == 'i' && line[i + 1] == 'm' && line[i + 2] == 'p'
        && line[i + 3] == 'o' && line[i + 4] == 'r' && line[i + 5] == 't' && (i + 6 == line.len()
        || is_ws_char(line[i + 6]) || line[i + 6] == '"') {
        let j = skip_ws_from(line, i + 6);
        if j < line.len() && line[j] == '"' {
            spec_finish_import(line, j, Seq::empty())
        } else if j > i + 6 {
            match spec_parse_items(line, j, line_fuel(line)) {
                None => LineOut::Bad,
                Some((items, j2)) => {
                    let k = skip_ws_from(line, j2);
                    if k > j2 && k + 4 <= line.len() && line[k] == 'f' && line[k + 1] == 'r'
                        && line[k + 2] == 'o' && line[k + 3] == 'm' {
                        let m = skip_ws_from(line, k + 4);
                        if m > k + 4 && m < line.len() && line[m] == '"' {
                            spec_finish_import(line, m, items)
                        } else {
                            LineOut::Bad
                        }
                    } else {
                        LineOut::Bad
                    }
                },
            }
        } else {
            LineOut::Bad
        }
    } else {
        LineOut::Bad
    }
}

enum LineRes {
    Blank,
    Import(ImportStatement),
    Bad,
}

fn exec_finish_import(line: &Vec<char>, q: usize, items: Vec<ImportItem>) -> (r: Option<
    ImportStatement,
>)
    requires
        q < line@.len(),
    ensures
        match r {
            Some(st) => spec_finish_import(line@, q as int, items.deep_view()) == LineOut::Import(
                st@,
            ),
            None => spec_finish_import(line@, q as int, items.deep_view()) is Bad,
        },
{
    let ghost iv = items.deep_view();
    let n = line.len();
    match exec_str_lit_end(line, q + 1) {
        None => None,
        Some(e) => {
            let mut inner: Vec<char> = Vec::new();
            let mut t: usize = q + 1;
            while t < e
                invariant
                    q + 1 <= t <= e < line@.len(),
                    inner@ == line@.subrange(q + 1, t as int),
                decreases e - t,
            {
                inner.push(line[t]);
                proof {
                    assert(inner@ =~= line@.subrange(q + 1, t + 1));
                }
                t = t + 1;
            }
            match exec_unescape(&inner) {
                None => None,
                Some(target) => {
                    let w = exec_skip_ws(line, e + 1);
                    if w >= line.len() {
                        Some(
                            ImportStatement { target, resolved_target: None, items },
                        )
                    } else {
                        None
                    }
                },
            }
        },
    }
}

fn exec_parse_line(line: &Vec<char>) -> (r: LineRes)
    ensures
        match r {
            LineRes::Blank => spec_parse_line(line@) is Blank,
            LineRes::Import(st) => spec_parse_line(line@) == LineOut::Import(st@),
            LineRes::Bad => spec_parse_line(line@) is Bad,
        },
{
    let i = exec_skip_ws(line, 0);
    if i >= line.len() {
        return LineRes::Blank;
    }
    if !(line.len() - i >= 6 && line[i] == 'i' && line[i + 1] == 'm' && line[i + 2] == 'p' && line[i
        + 3] == 'o' && line[i + 4] == 'r' && line[i + 5] == 't' && (i + 6 == line.len() || (line[i
        + 6] == ' ' || line[i + 6] == '\t' || line[i + 6] == '\r') || line[i + 6] == '"')) {
        return LineRes::Bad;
    }
    let j = exec_skip_ws(line, i + 6);
    if j < line.len() && line[j] == '"' {
        let items: Vec<ImportItem> = Vec::new();
        proof {
            assert(items.deep_view() =~= Seq::<ImportItemView>::empty());
        }
        return match exec_finish_import(line, j, items) {
            Some(st) => LineRes::Import(st),
            None => LineRes::Bad,
        };
    }
    if !(j > i + 6) {
        return LineRes::Bad;
    }
    match exec_parse_items(line, j, line.len()) {
        None => LineRes::Bad,
        Some((items, j2)) => {
            let k = exec_skip_ws(line, j2);
            if k > j2 && line.len() - k >= 4 && line[k] == 'f' && line[k + 1] == 'r' && line[k + 2]
                == 'o' && line[k + 3] == 'm' {
                let m = exec_skip_ws(line, k + 4);
                if m > k + 4 && m < line.len() && line[m] == '"' {
                    match exec_finish_import(line, m, items) {
                        Some(st) => LineRes::Import(st),
                        None => LineRes::Bad,
                    }
                } else {
                    LineRes::Bad
                }
            } else {
                LineRes::Bad
            }
        },
    }
}

/// The lines of `s`: the pieces between newline characters; a trailing
/// newline yields a final empty line.
pub open spec fn spec_lines(s: Seq<char>) -> Seq<Seq<char>>
    decreases s.len(),
{
    if s.len() == 0 {
        seq![Seq::<char>::empty()]
    } else {
        let prev = spec_lines(s.drop_last());
        if s.last() == '\n' {
            prev.push(Seq::empty())
        } else {
            prev.update(prev.len() - 1, prev.last().push(s.last()))
        }
    }
}

/// `spec_lines` always yields at least one line.
pub proof fn lemma_spec_lines_nonempty(s: Seq<char>)
    ensures
        spec_lines(s).len() >= 1,
    decreases s.len(),
{
    if s.len() > 0 {
        lemma_spec_lines_nonempty(s.drop_last());
    }
}

/// The views of a vector of char vectors.
pub open spec fn lines_views(v: Seq<Vec<char>>) -> Seq<Seq<char>> {
    Seq::new(v.len(), |i: int| v[i]@)
}

fn split_lines(contents: &str) -> (r: Vec<Vec<char>>)
    ensures
        lines_views(r@) == spec_lines(contents@),
{
    let cs = str_to_chars(contents);
    let mut finished: Vec<Vec<char>> = Vec::new();
    let mut cur: Vec<char> = Vec::new();
    let mut i: usize = 0;
    while i < cs.len()
        invariant
            i <= cs.len(),
            cs@ == contents@,
            spec_lines(cs@.take(i as int)) == lines_views(finished@).push(cur@),
        decreases cs.len() - i,
    {
        proof {
            assert(cs@.take(i + 1).drop_last() =~= cs@.take(i as int));
            assert(cs@.take(i + 1).last() == cs@[i as int]);
        }
        let c = cs[i];
        if c == '\n' {
            let ghost fv = lines_views(finished@);
            let ghost cv = cur@;
            finished.push(cur);
            cur = Vec::new();
            proof {
                assert(lines_views(finished@).len() == fv.len() + 1);
                assert(forall|m: int| 0 <= m < fv.len() ==> lines_views(finished@)[m] == fv[m]);
                assert(lines_views(finished@)[fv.len() as int] == cv);
                assert(lines_views(finished@) =~= fv.push(cv));
                assert(lines_views(finished@).push(cur@) =~= spec_lines(cs@.take(i + 1)));
            }
        } else {
            cur.push(c);
            proof {
                let prev = lines_views(finished@).push(cur@);
                assert(lines_views(finished@).push(cur@) =~= spec_lines(cs@.take(i as int)).update(
                    spec_lines(cs@.take(i as int)).len() - 1,
                    spec_lines(cs@.take(i as int)).last().push(cs@[i as int]),
                ));
            }
        }
        i = i + 1;
    }
    proof {
        assert(cs@.take(cs@.len() as int) =~= cs@);
    }
    let ghost fv = lines_views(finished@);
    let ghost cv = cur@;
    finished.push(cur);
    proof {
        assert(lines_views(finished@).len() == fv.len() + 1);
        assert(forall|m: int| 0 <= m < fv.len() ==> lines_views(finished@)[m] == fv[m]);
        assert(lines_views(finished@)[fv.len() as int] == cv);
        assert(lines_views(finished@) =~= fv.push(cv));
    }
    finished
}

/// What the statements of a run of lines parse to, or the number of the
/// first bad line (`lineno` numbers the first of `lines`).
pub open spec fn spec_collect(lines: Seq<Seq<char>>, lineno: nat) -> Result<
    Seq<GlobalStatementView>,
    nat,
>
    decreases lines.len(),
{
    if lines.len() == 0 {
        Ok(Seq::empty())
    } else {
        match spec_parse_line(lines.first()) {
            LineOut::Bad => Err(lineno),
            LineOut::Blank => spec_collect(lines.drop_first(), lineno + 1),
            LineOut::Import(st) => match spec_collect(lines.drop_first(), lineno + 1) {
                Ok(rest) => Ok(seq![GlobalStatementView::Import(st)] + rest),
                Err(e) => Err(e),
            },
        }
    }
}

/// What `contents` parses to: the file's top-level statements, or the number
/// of the first line that is not a valid statement.
pub open spec fn spec_parse(contents: Seq<char>) -> Result<Seq<GlobalStatementView>, nat> {
    spec_collect(spec_lines(contents), 1)
}

/// Parse a source file: a sequence of lines, each blank or an import
/// statement. On success the tree carries `path` as its source path; on
/// failure the error names the first offending line.
pub fn parse(contents: &str, path: &Vec<String>) -> (r: Result<RootNode, ParseError>)
    ensures
        (r is Ok) == (spec_parse(contents@) is Ok),
        r is Ok ==> (r->Ok_0)@.source_path == path_view(path) && (r->Ok_0)@.statements
            == spec_parse(contents@)->Ok_0,
        r is Err ==> (r->Err_0).line as nat == spec_parse(contents@)->Err_0 && (
        r->Err_0).message@ == "invalid statement"@,
{
    let lines = split_lines(contents);
    let ghost lv = lines_views(lines@);
    let mut stmts: Vec<GlobalStatement> = Vec::new();
    let mut idx: usize = 0;
    proof {
        assert(lv.skip(0) =~= lv);
    }
    while idx < lines.len()
        invariant
            idx <= lines.len(),
            lv == lines_views(lines@),
            spec_parse(contents@) == spec_collect(lv, 1),
            lv.len() == lines@.len(),
            match spec_collect(lv.skip(idx as int), (idx + 1) as nat) {
                Ok(rest) => spec_collect(lv, 1) == Ok::<Seq<GlobalStatementView>, nat>(
                    stmts.deep_view() + rest,
                ),
                Err(e) => spec_collect(lv, 1) == Err::<Seq<GlobalStatementView>, nat>(e),
            },
        decreases lines@.len() - idx,
    {
        proof {
            assert(lv.skip(idx as int).first() == lv[idx as int]);
            assert(lv.skip(idx as int).drop_first() =~= lv.skip(idx + 1));
            assert(lv[idx as int] == lines@[idx as int]@);
        }
        match exec_parse_line(&lines[idx]) {
            LineRes::Blank => {},
            LineRes::Import(st) => {
                let ghost sv = stmts.deep_view();
                let ghost stv = st@;
                stmts.push(GlobalStatement::Import(st));
                proof {
                    assert(stmts.deep_view().len() == sv.len() + 1);
                    assert(forall|m: int| 0 <= m < sv.len() ==> stmts.deep_view()[m] == sv[m]);
                    assert(stmts.deep_view()[sv.len() as int] == GlobalStatementView::Import(stv));
                    assert(stmts.deep_view() =~= sv.push(GlobalStatementView::Import(stv)));
                    if spec_collect(lv.skip(idx + 1), (idx + 2) as nat) is Ok {
                        let rest = spec_collect(lv.skip(idx + 1), (idx + 2) as nat)->Ok_0;
                        assert(sv + (seq![GlobalStatementView::Import(stv)] + rest) =~= stmts.deep_view()
                            + rest);
                    }
                }
            },
            LineRes::Bad => {
                let message: String = "invalid statement".to_owned();
                return Err(ParseError { line: idx + 1, message });
            },
        }
        idx = idx + 1;
    }
    proof {
        assert(lv.skip(lv.len() as int) =~= Seq::<Seq<char>>::empty());
        assert(stmts.deep_view() + Seq::<GlobalStatementView>::empty() =~= stmts.deep_view());
    }
    let source_path = crate::paths::clone_path(path);
    let root = RootNode { source_path, statements: stmts };
    Ok(root)
}

} // verus!
