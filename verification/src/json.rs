//! The textual encoding this schema stores and exchanges: a JSON document
//! tree, a printer that emits the compact canonical text, and a parser that
//! reads it back. Both directions are specified by spec functions over the
//! tree's mathematical view; the executable code is proved to match them.

use vstd::prelude::*;
use crate::trusted::{str_chars, chars_to_string};

verus! {

broadcast use vstd::seq::group_seq_axioms;

/// A JSON document: exactly the shapes the record encoding uses.
/// Numbers are integers; the schema has no fractional fields.
pub enum Json {
    Str(String),
    Num(i128),
    Arr(Vec<Json>),
    Obj(Vec<JMember>),
}

/// One member of a JSON object: a key and its value.
pub struct JMember {
    pub key: String,
    pub val: Json,
}

/// Mathematical view of a `Json` document.
pub enum JVal {
    Str(Seq<char>),
    Num(int),
    Arr(Seq<JVal>),
    Obj(Seq<JMemberV>),
}

/// Mathematical view of a `JMember`.
pub struct JMemberV {
    pub key: Seq<char>,
    pub val: JVal,
}

/// The view of a document, written as a free function so that the
/// recursion through arrays and objects stays simple.
pub open spec fn jview(j: Json) -> JVal
    decreases j,
{
    match j {
        Json::Str(s) => JVal::Str(s@),
        Json::Num(n) => JVal::Num(n as int),
        Json::Arr(v) => JVal::Arr(
            Seq::new(
                v@.len(),
                |i: int|
                    if 0 <= i < v@.len() {
                        jview(v@[i])
                    } else {
                        arbitrary()
                    },
            ),
        ),
        Json::Obj(v) => JVal::Obj(
            Seq::new(
                v@.len(),
                |i: int|
                    if 0 <= i < v@.len() {
                        JMemberV { key: v@[i].key@, val: jview(v@[i].val) }
                    } else {
                        arbitrary()
                    },
            ),
        ),
    }
}

pub open spec fn jseq_view(v: Seq<Json>) -> Seq<JVal> {
    Seq::new(
        v.len(),
        |i: int|
            if 0 <= i < v.len() {
                jview(v[i])
            } else {
                arbitrary()
            },
    )
}

pub open spec fn jpairs_view(v: Seq<JMember>) -> Seq<JMemberV> {
    Seq::new(
        v.len(),
        |i: int|
            if 0 <= i < v.len() {
                JMemberV { key: v[i].key@, val: jview(v[i].val) }
            } else {
                arbitrary()
            },
    )
}

impl View for Json {
    type V = JVal;

    open spec fn view(&self) -> JVal {
        jview(*self)
    }
}

impl DeepView for Json {
    type V = JVal;

    open spec fn deep_view(&self) -> JVal {
        jview(*self)
    }
}

// ---------------------------------------------------------------------------
// Printing: the canonical compact text
// ---------------------------------------------------------------------------

pub open spec fn digit_char(d: int) -> char {
    ((48 + d) as u8) as char
}

pub open spec fn hex_char(d: int) -> char {
    if d < 10 {
        digit_char(d)
    } else {
        ((87 + d) as u8) as char
    }
}

/// The decimal digits of a non-negative integer, most significant first.
pub open spec fn dec_u(n: int) -> Seq<char>
    decreases n,
{
    if n < 10 {
        seq![digit_char(n)]
    } else {
        dec_u(n / 10) + seq![digit_char(n % 10)]
    }
}

/// The decimal rendering of an integer.
pub open spec fn dec_int(n: int) -> Seq<char> {
    if n < 0 {
        seq!['-'] + dec_u(-n)
    } else {
        dec_u(n)
    }
}

/// How one character appears inside a printed string: quote and backslash
/// get a backslash escape, control characters a `\u00XY` escape, everything
/// else stands as itself.
pub open spec fn esc_char(c: char) -> Seq<char> {
    if c == '"' {
        seq!['\\', '"']
    } else if c == '\\' {
        seq!['\\', '\\']
    } else if (c as u32) < 32 {
        seq!['\\', 'u', '0', '0', hex_char(c as u32 as int / 16), hex_char(c as u32 as int % 16)]
    } else {
        seq![c]
    }
}

/// The escaped form of the first `k` characters of `s`.
pub open spec fn escape_prefix(s: Seq<char>, k: int) -> Seq<char>
    decreases k,
{
    if k <= 0 {
        Seq::empty()
    } else {
        escape_prefix(s, k - 1) + esc_char(s[k - 1])
    }
}

pub open spec fn escape(s: Seq<char>) -> Seq<char> {
    escape_prefix(s, s.len() as int)
}

/// A printed string literal: quoted and escaped.
pub open spec fn print_str(s: Seq<char>) -> Seq<char> {
    seq!['"'] + escape(s) + seq!['"']
}

/// The printed text of a document.
pub open spec fn print_jval(v: JVal) -> Seq<char>
    decreases v, 0int,
{
    match v {
        JVal::Str(s) => print_str(s),
        JVal::Num(n) => dec_int(n),
        JVal::Arr(elems) => seq!['['] + print_items(elems, elems.len() as int) + seq![']'],
        JVal::Obj(pairs) => seq!['{'] + print_members(pairs, pairs.len() as int) + seq!['}'],
    }
}

/// The printed text of the first `k` array elements, comma-separated.
pub open spec fn print_items(elems: Seq<JVal>, k: int) -> Seq<char>
    decreases elems, k,
{
    if k <= 0 || k > elems.len() {
        Seq::empty()
    } else if k == 1 {
        print_jval(elems[0])
    } else {
        print_items(elems, k - 1) + seq![','] + print_jval(elems[k - 1])
    }
}

/// The printed text of the first `k` object members, comma-separated.
pub open spec fn print_members(pairs: Seq<JMemberV>, k: int) -> Seq<char>
    decreases pairs, k,
{
    if k <= 0 || k > pairs.len() {
        Seq::empty()
    } else if k == 1 {
        print_str(pairs[0].key) + seq![':'] + print_jval(pairs[0].val)
    } else {
        print_members(pairs, k - 1) + seq![','] + print_str(pairs[k - 1].key) + seq![':']
            + print_jval(pairs[k - 1].val)
    }
}

// ---------------------------------------------------------------------------
// Executable printer
// ---------------------------------------------------------------------------

pub(crate) fn write_u128(out: &mut Vec<char>, n: u128)
    ensures
        final(out)@ == old(out)@ + dec_u(n as int),
    decreases n,
{
    if n >= 10 {
        write_u128(out, n / 10);
    }
    let d: u8 = (n % 10) as u8;
    out.push((48 + d) as char);
    proof {
        assert(final(out)@ =~= old(out)@ + dec_u(n as int));
    }
}

fn write_num(out: &mut Vec<char>, n: i128)
    ensures
        final(out)@ == old(out)@ + dec_int(n as int),
{
    if n < 0 {
        out.push('-');
        let m: u128 = ((-1 - n) as u128) + 1;
        assert(m as int == -(n as int));
        write_u128(out, m);
        assert(final(out)@ =~= old(out)@ + dec_int(n as int));
    } else {
        write_u128(out, n as u128);
    }
}

fn write_escaped(out: &mut Vec<char>, s: &Vec<char>)
    ensures
        final(out)@ == old(out)@ + escape(s@),
{
    let n: usize = s.len();
    let mut k: usize = 0;
    while k < n
        invariant
            n == s.len(),
            0 <= k <= n,
            out@ == old(out)@ + escape_prefix(s@, k as int),
        decreases n - k,
    {
        let c: char = s[k];
        let u: u32 = c as u32;
        if c == '"' {
            out.push('\\');
            out.push('"');
        } else if c == '\\' {
            out.push('\\');
            out.push('\\');
        } else if u < 32 {
            out.push('\\');
            out.push('u');
            out.push('0');
            out.push('0');
            let hi: u8 = (u / 16) as u8;
            let lo: u8 = (u % 16) as u8;
            out.push(if hi < 10 { (48 + hi) as char } else { (87 + hi) as char });
            out.push(if lo < 10 { (48 + lo) as char } else { (87 + lo) as char });
        } else {
            out.push(c);
        }
        proof {
            assert(out@ =~= old(out)@ + escape_prefix(s@, k as int + 1));
        }
        k = k + 1;
    }
    assert(final(out)@ == old(out)@ + escape(s@));
}

fn write_str_lit(out: &mut Vec<char>, s: &String)
    ensures
        final(out)@ == old(out)@ + print_str(s@),
{
    out.push('"');
    let cs: Vec<char> = str_chars(s.as_str());
    write_escaped(out, &cs);
    out.push('"');
    assert(final(out)@ =~= old(out)@ + print_str(s@));
}

fn write_jval(out: &mut Vec<char>, v: &Json)
    ensures
        final(out)@ == old(out)@ + print_jval(v@),
    decreases v, 0int,
{
    match v {
        Json::Str(s) => {
            write_str_lit(out, s);
        },
        Json::Num(n) => {
            write_num(out, *n);
        },
        Json::Arr(items) => {
            out.push('[');
            let n: usize = items.len();
            let ghost elems: Seq<JVal> = jseq_view(items@);
            proof {
                assert(elems =~= v@->Arr_0);
            }
            let mut i: usize = 0;
            while i < n
                invariant
                    *v == Json::Arr(*items),
                    n == items.len(),
                    0 <= i <= n,
                    elems == jseq_view(items@),
                    out@ == old(out)@ + seq!['['] + print_items(elems, i as int),
                decreases n - i,
            {
                if i > 0 {
                    out.push(',');
                }
                proof {
                    assert(*items == v->Arr_0);
                    assert(decreases_to!(*v => v->Arr_0));
                    assert(decreases_to!(*items => items@[i as int]));
                }
                write_jval(out, &items[i]);
                proof {
                    assert(items@[i as int]@ == elems[i as int]);
                    assert(out@ =~= old(out)@ + seq!['['] + print_items(elems, i as int + 1));
                }
                i = i + 1;
            }
            out.push(']');
            proof {
                assert(elems =~= v@->Arr_0);
                assert(final(out)@ =~= old(out)@ + print_jval(v@));
            }
        },
        Json::Obj(members) => {
            out.push('{');
            let n: usize = members.len();
            let ghost pairs: Seq<JMemberV> = jpairs_view(members@);
            proof {
                assert(pairs =~= v@->Obj_0);
            }
            let mut i: usize = 0;
            while i < n
                invariant
                    *v == Json::Obj(*members),
                    n == members.len(),
                    0 <= i <= n,
                    pairs == jpairs_view(members@),
                    out@ == old(out)@ + seq!['{'] + print_members(pairs, i as int),
                decreases n - i,
            {
                if i > 0 {
                    out.push(',');
                }
                write_str_lit(out, &members[i].key);
                out.push(':');
                proof {
                    assert(*members == v->Obj_0);
                    assert(decreases_to!(*v => v->Obj_0));
                    assert(decreases_to!(*members => members@[i as int]));
                    assert(decreases_to!(members@[i as int] => members@[i as int].val));
                }
                write_jval(out, &members[i].val);
                proof {
                    assert(members@[i as int].key@ == pairs[i as int].key);
                    assert(members@[i as int].val@ == pairs[i as int].val);
                    assert(out@ =~= old(out)@ + seq!['{'] + print_members(pairs, i as int + 1));
                }
                i = i + 1;
            }
            out.push('}');
            proof {
                assert(pairs =~= v@->Obj_0);
                assert(final(out)@ =~= old(out)@ + print_jval(v@));
            }
        },
    }
}

/// Print a document as its canonical compact text.
pub fn print_json(v: &Json) -> (r: String)
    ensures
        r@ == print_jval(v@),
{
    let mut out: Vec<char> = Vec::new();
    write_jval(&mut out, v);
    chars_to_string(&out)
}

} // verus!
