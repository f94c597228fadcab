//! Parsing the textual encoding back into a document tree. The grammar is
//! fixed by total spec functions over the character sequence; the executable
//! parser is proved to return exactly what they say, so which texts decode,
//! and to what, is pinned down completely.

use vstd::prelude::*;
use crate::schema::{is_digit, is_hex_digit};
use crate::json::{Json, JVal, JMember, JMemberV, jseq_view, jpairs_view, jview};
use crate::trusted::{str_chars, chars_to_string};

verus! {

broadcast use vstd::seq::group_seq_axioms;

pub open spec fn hexval(c: char) -> int {
    if is_digit(c) {
        c as u32 - 48
    } else if 97 <= c as u32 <= 102 {
        c as u32 - 87
    } else {
        c as u32 - 55
    }
}

pub open spec fn str_cons(c: char, r: Option<(Seq<char>, int)>) -> Option<(Seq<char>, int)> {
    match r {
        Some((t, j)) => Some((seq![c] + t, j)),
        None => None,
    }
}

/// Parse the body of a string literal, starting just after the opening
/// quote; the result is the decoded text and the position after the closing
/// quote. The escapes accepted are exactly those the printer emits, plus
/// the remaining single-character JSON escapes.
pub open spec fn sp_string(s: Seq<char>, i: int) -> Option<(Seq<char>, int)>
    decreases s.len() - i,
{
    if i < 0 || i >= s.len() {
        None
    } else if s[i] == '"' {
        Some((Seq::empty(), i + 1))
    } else if s[i] == '\\' {
        if i + 1 >= s.len() {
            None
        } else {
            let e = s[i + 1];
            if e == '"' || e == '\\' || e == '/' {
                str_cons(e, sp_string(s, i + 2))
            } else if e == 'n' {
                str_cons('\n', sp_string(s, i + 2))
            } else if e == 't' {
                str_cons('\t', sp_string(s, i + 2))
            } else if e == 'r' {
                str_cons('\r', sp_string(s, i + 2))
            } else if e == 'b' {
                str_cons('\u{8}', sp_string(s, i + 2))
            } else if e == 'f' {
                str_cons('\u{c}', sp_string(s, i + 2))
            } else if e == 'u' {
                if i + 6 > s.len() {
                    None
                } else if s[i + 2] == '0' && s[i + 3] == '0' && is_hex_digit(s[i + 4])
                    && is_hex_digit(s[i + 5]) {
                    str_cons(
                        ((hexval(s[i + 4]) * 16 + hexval(s[i + 5])) as u8) as char,
                        sp_string(s, i + 6),
                    )
                } else {
                    None
                }
            } else {
                None
            }
        }
    } else {
        str_cons(s[i], sp_string(s, i + 1))
    }
}

/// Consume a run of digits, folding them onto `acc`; fails on a value
/// above the unsigned 64-bit maximum.
pub open spec fn sp_digits(s: Seq<char>, i: int, acc: int) -> Option<(int, int)>
    decreases s.len() - i,
{
    if 0 <= i < s.len() && is_digit(s[i]) {
        let a2 = acc * 10 + (s[i] as u32 - 48);
        if a2 > 0xffff_ffff_ffff_ffff {
            None
        } else {
            sp_digits(s, i + 1, a2)
        }
    } else {
        Some((acc, i))
    }
}

/// Parse an integer: an optional minus sign and at least one digit.
pub open spec fn sp_number(s: Seq<char>, i: int) -> Option<(JVal, int)> {
    if i < 0 || i >= s.len() {
        None
    } else {
        let neg = s[i] == '-';
        let k = if neg {
            i + 1
        } else {
            i
        };
        if k >= s.len() || !is_digit(s[k]) {
            None
        } else {
            match sp_digits(s, k, 0) {
                Some((m, j)) => Some(
                    (
                        JVal::Num(
                            if neg {
                                -m
                            } else {
                                m
                            },
                        ),
                        j,
                    ),
                ),
                None => None,
            }
        }
    }
}

/// Parse one value. `fuel` bounds the nesting depth; every text a printer
/// emits parses with the fuel `sp_json` supplies.
pub open spec fn sp_value(s: Seq<char>, i: int, fuel: nat) -> Option<(JVal, int)>
    decreases fuel, s.len() - i, 0int,
{
    if i < 0 || i >= s.len() {
        None
    } else {
        let c = s[i];
        if c == '"' {
            match sp_string(s, i + 1) {
                Some((t, j)) => Some((JVal::Str(t), j)),
                None => None,
            }
        } else if c == '[' {
            if fuel == 0 {
                None
            } else if i + 1 < s.len() && s[i + 1] == ']' {
                Some((JVal::Arr(Seq::empty()), i + 2))
            } else {
                match sp_items(s, i + 1, (fuel - 1) as nat) {
                    Some((elems, j)) => Some((JVal::Arr(elems), j)),
                    None => None,
                }
            }
        } else if c == '{' {
            if fuel == 0 {
                None
            } else if i + 1 < s.len() && s[i + 1] == '}' {
                Some((JVal::Obj(Seq::empty()), i + 2))
            } else {
                match sp_members(s, i + 1, (fuel - 1) as nat) {
                    Some((pairs, j)) => Some((JVal::Obj(pairs), j)),
                    None => None,
                }
            }
        } else {
            sp_number(s, i)
        }
    }
}

/// Parse one or more comma-separated array elements and the closing
/// bracket.
pub open spec fn sp_items(s: Seq<char>, i: int, fuel: nat) -> Option<(Seq<JVal>, int)>
    decreases fuel, s.len() - i, 1int,
{
    match sp_value(s, i, fuel) {
        None => None,
        Some((v, j)) => {
            if j <= i || j >= s.len() {
                None
            } else if s[j] == ',' {
                match sp_items(s, j + 1, fuel) {
                    Some((rest, j2)) => Some((seq![v] + rest, j2)),
                    None => None,
                }
            } else if s[j] == ']' {
                Some((seq![v], j + 1))
            } else {
                None
            }
        },
    }
}

/// Parse one or more comma-separated object members and the closing brace.
pub open spec fn sp_members(s: Seq<char>, i: int, fuel: nat) -> Option<(Seq<JMemberV>, int)>
    decreases fuel, s.len() - i, 1int,
{
    if i < 0 || i >= s.len() || s[i] != '"' {
        None
    } else {
        match sp_string(s, i + 1) {
            None => None,
            Some((k, j1)) => {
                if j1 <= i || j1 >= s.len() || s[j1] != ':' {
                    None
                } else {
                    match sp_value(s, j1 + 1, fuel) {
                        None => None,
                        Some((v, j2)) => {
                            if j2 <= j1 || j2 >= s.len() {
                                None
                            } else if s[j2] == ',' {
                                match sp_members(s, j2 + 1, fuel) {
                                    Some((rest, j3)) => Some(
                                        (seq![JMemberV { key: k, val: v }] + rest, j3),
                                    ),
                                    None => None,
                                }
                            } else if s[j2] == '}' {
                                Some((seq![JMemberV { key: k, val: v }], j2 + 1))
                            } else {
                                None
                            }
                        },
                    }
                }
            },
        }
    }
}

/// Parse a whole text: one value covering every character.
pub open spec fn sp_json(s: Seq<char>) -> Option<JVal> {
    match sp_value(s, 0, s.len() as nat) {
        Some((v, j)) => if j == s.len() {
            Some(v)
        } else {
            None
        },
        None => None,
    }
}

// ---------------------------------------------------------------------------
// Executable parser
// ---------------------------------------------------------------------------

fn check_hex(c: char) -> (r: bool)
    ensures
        r == is_hex_digit(c),
{
    let u: u32 = c as u32;
    (48 <= u && u <= 57) || (97 <= u && u <= 102) || (65 <= u && u <= 70)
}

fn hex_value(c: char) -> (r: u32)
    requires
        is_hex_digit(c),
    ensures
        r == hexval(c),
        r < 16,
{
    let u: u32 = c as u32;
    if 48 <= u && u <= 57 {
        u - 48
    } else if 97 <= u && u <= 102 {
        u - 87
    } else {
        u - 55
    }
}

fn p_string(s: &Vec<char>, i: usize) -> (r: Option<(Vec<char>, usize)>)
    requires
        i <= s@.len(),
    ensures
        match r {
            Some((t, j)) => sp_string(s@, i as int) == Some((t@, j as int)) && i < j <= s@.len(),
            None => sp_string(s@, i as int) is None,
        },
{
    let mut acc: Vec<char> = Vec::new();
    let mut cur: usize = i;
    loop
        invariant
            i <= cur <= s@.len(),
            sp_string(s@, i as int) == (match sp_string(s@, cur as int) {
                Some((t, j)) => Some((acc@ + t, j)),
                None => None::<(Seq<char>, int)>,
            }),
        decreases s@.len() - cur,
    {
        if cur >= s.len() {
            return None;
        }
        let c: char = s[cur];
        if c == '"' {
            proof {
                assert(acc@ + Seq::<char>::empty() =~= acc@);
            }
            return Some((acc, cur + 1));
        }
        let ghost oldacc: Seq<char> = acc@;
        let ghost oldcur: int = cur as int;
        if c == '\\' {
            if cur + 1 >= s.len() {
                return None;
            }
            let e: char = s[cur + 1];
            if e == '"' || e == '\\' || e == '/' {
                acc.push(e);
                cur = cur + 2;
            } else if e == 'n' {
                acc.push('\n');
                cur = cur + 2;
            } else if e == 't' {
                acc.push('\t');
                cur = cur + 2;
            } else if e == 'r' {
                acc.push('\r');
                cur = cur + 2;
            } else if e == 'b' {
                acc.push('\u{8}');
                cur = cur + 2;
            } else if e == 'f' {
                acc.push('\u{c}');
                cur = cur + 2;
            } else if e == 'u' {
                if s.len() - cur < 6 {
                    return None;
                }
                let c2: char = s[cur + 2];
                let c3: char = s[cur + 3];
                let c4: char = s[cur + 4];
                let c5: char = s[cur + 5];
                if c2 == '0' && c3 == '0' && check_hex(c4) && check_hex(c5) {
                    let hv: u32 = hex_value(c4);
                    let lv: u32 = hex_value(c5);
                    let b: u8 = (hv * 16 + lv) as u8;
                    acc.push(b as char);
                    cur = cur + 6;
                } else {
                    return None;
                }
            } else {
                return None;
            }
        } else {
            acc.push(c);
            cur = cur + 1;
        }
        proof {
            let r2 = sp_string(s@, cur as int);
            let ghost ch: char = acc@[acc@.len() - 1];
            assert(sp_string(s@, oldcur) == str_cons(ch, r2));
            if r2 is Some {
                let (t, j) = r2->Some_0;
                assert(acc@ + t =~= oldacc + (seq![ch] + t));
            }
        }
    }
}

fn p_number(s: &Vec<char>, i: usize) -> (r: Option<(Json, usize)>)
    requires
        i <= s@.len(),
    ensures
        match r {
            Some((v, j)) => sp_number(s@, i as int) == Some((v@, j as int)) && i < j <= s@.len(),
            None => sp_number(s@, i as int) is None,
        },
{
    if i >= s.len() {
        return None;
    }
    let neg: bool = s[i] == '-';
    let k0: usize = if neg {
        i + 1
    } else {
        i
    };
    if k0 >= s.len() {
        return None;
    }
    let c0: char = s[k0];
    let u0: u32 = c0 as u32;
    if !(48 <= u0 && u0 <= 57) {
        return None;
    }
    let mut acc: u64 = 0;
    let mut cur: usize = k0;
    while cur < s.len() && crate::schema::check_digit(s[cur])
        invariant
            i < s@.len(),
            neg == (s@[i as int] == '-'),
            k0 == if neg {
                i + 1
            } else {
                i as int
            },
            k0 < s@.len(),
            is_digit(s@[k0 as int]),
            k0 <= cur <= s@.len(),
            sp_digits(s@, k0 as int, 0) == sp_digits(s@, cur as int, acc as int),
        decreases s@.len() - cur,
    {
        let c: char = s[cur];
        let u: u32 = c as u32;
        let d: u64 = (u - 48) as u64;
        let a2: u128 = acc as u128 * 10 + d as u128;
        if a2 > 0xffff_ffff_ffff_ffffu128 {
            return None;
        }
        acc = a2 as u64;
        cur = cur + 1;
    }
    assert(sp_digits(s@, cur as int, acc as int) == Some((acc as int, cur as int)));
    let v: i128 = if neg {
        -(acc as i128)
    } else {
        acc as i128
    };
    Some((Json::Num(v), cur))
}

fn p_value(s: &Vec<char>, i: usize, fuel: usize) -> (r: Option<(Json, usize)>)
    requires
        i <= s@.len(),
    ensures
        match r {
            Some((v, j)) => sp_value(s@, i as int, fuel as nat) == Some((jview(v), j as int)) && i
                < j <= s@.len(),
            None => sp_value(s@, i as int, fuel as nat) is None,
        },
    decreases fuel, s@.len() - i, 0int,
{
    if i >= s.len() {
        return None;
    }
    let c: char = s[i];
    if c == '"' {
        match p_string(s, i + 1) {
            Some((t, j)) => {
                let st: String = chars_to_string(&t);
                Some((Json::Str(st), j))
            },
            None => None,
        }
    } else if c == '[' {
        if fuel == 0 {
            return None;
        }
        if i + 1 < s.len() && s[i + 1] == ']' {
            let empty_items: Vec<Json> = Vec::new();
            proof {
                assert(jview(Json::Arr(empty_items))->Arr_0 =~= Seq::<JVal>::empty());
            }
            return Some((Json::Arr(empty_items), i + 2));
        }
        match p_items(s, i + 1, fuel - 1) {
            Some((elems, j)) => {
                proof {
                    assert(jview(Json::Arr(elems))->Arr_0 =~= jseq_view(elems@));
                }
                Some((Json::Arr(elems), j))
            },
            None => None,
        }
    } else if c == '{' {
        if fuel == 0 {
            return None;
        }
        if i + 1 < s.len() && s[i + 1] == '}' {
            let empty_members: Vec<JMember> = Vec::new();
            proof {
                assert(jview(Json::Obj(empty_members))->Obj_0 =~= Seq::<JMemberV>::empty());
            }
            return Some((Json::Obj(empty_members), i + 2));
        }
        match p_members(s, i + 1, fuel - 1) {
            Some((pairs, j)) => {
                proof {
                    assert(jview(Json::Obj(pairs))->Obj_0 =~= jpairs_view(pairs@));
                }
                Some((Json::Obj(pairs), j))
            },
            None => None,
        }
    } else {
        p_number(s, i)
    }
}

fn p_items(s: &Vec<char>, i: usize, fuel: usize) -> (r: Option<(Vec<Json>, usize)>)
    requires
        i <= s@.len(),
    ensures
        match r {
            Some((elems, j)) => sp_items(s@, i as int, fuel as nat) == Some(
                (jseq_view(elems@), j as int),
            ) && i < j <= s@.len(),
            None => sp_items(s@, i as int, fuel as nat) is None,
        },
    decreases fuel, s@.len() - i, 1int,
{
    match p_value(s, i, fuel) {
        None => None,
        Some((v, j)) => {
            if j >= s.len() {
                return None;
            }
            let cj: char = s[j];
            if cj == ',' {
                match p_items(s, j + 1, fuel) {
                    Some((rest, j2)) => {
                        let mut elems: Vec<Json> = rest;
                        let ghost oldelems: Seq<Json> = elems@;
                        elems.insert(0, v);
                        proof {
                            assert(jseq_view(elems@) =~= seq![jview(v)] + jseq_view(oldelems));
                        }
                        Some((elems, j2))
                    },
                    None => None,
                }
            } else if cj == ']' {
                let mut elems: Vec<Json> = Vec::new();
                elems.push(v);
                proof {
                    assert(jseq_view(elems@) =~= seq![jview(v)]);
                }
                Some((elems, j + 1))
            } else {
                None
            }
        },
    }
}

fn p_members(s: &Vec<char>, i: usize, fuel: usize) -> (r: Option<(Vec<JMember>, usize)>)
    requires
        i <= s@.len(),
    ensures
        match r {
            Some((pairs, j)) => sp_members(s@, i as int, fuel as nat) == Some(
                (jpairs_view(pairs@), j as int),
            ) && i < j <= s@.len(),
            None => sp_members(s@, i as int, fuel as nat) is None,
        },
    decreases fuel, s@.len() - i, 1int,
{
    if i >= s.len() {
        return None;
    }
    if s[i] != '"' {
        return None;
    }
    match p_string(s, i + 1) {
        None => None,
        Some((k, j1)) => {
            if j1 >= s.len() {
                return None;
            }
            if s[j1] != ':' {
                return None;
            }
            match p_value(s, j1 + 1, fuel) {
                None => None,
                Some((v, j2)) => {
                    if j2 >= s.len() {
                        return None;
                    }
                    let key: String = chars_to_string(&k);
                    let cj: char = s[j2];
                    if cj == ',' {
                        match p_members(s, j2 + 1, fuel) {
                            Some((rest, j3)) => {
                                let mut pairs: Vec<JMember> = rest;
                                let ghost oldpairs: Seq<JMember> = pairs@;
                                let ghost kview: Seq<char> = key@;
                                let ghost vview: JVal = jview(v);
                                pairs.insert(0, JMember { key, val: v });
                                proof {
                                    assert(jpairs_view(pairs@) =~= seq![
                                        JMemberV { key: kview, val: vview },
                                    ] + jpairs_view(oldpairs));
                                }
                                Some((pairs, j3))
                            },
                            None => None,
                        }
                    } else if cj == '}' {
                        let mut pairs: Vec<JMember> = Vec::new();
                        let ghost kview: Seq<char> = key@;
                        let ghost vview: JVal = jview(v);
                        pairs.push(JMember { key, val: v });
                        proof {
                            assert(jpairs_view(pairs@) =~= seq![
                                JMemberV { key: kview, val: vview },
                            ]);
                        }
                        Some((pairs, j2 + 1))
                    } else {
                        None
                    }
                },
            }
        },
    }
}

/// Parse a whole text into a document; succeeds exactly on the texts the
/// grammar `sp_json` accepts, and returns exactly the document it names.
pub fn parse_json(s: &str) -> (r: Option<Json>)
    ensures
        match r {
            Some(v) => sp_json(s@) == Some(jview(v)),
            None => sp_json(s@) is None,
        },
{
    let cs: Vec<char> = str_chars(s);
    match p_value(&cs, 0, cs.len()) {
        Some((v, j)) => {
            if j == cs.len() {
                Some(v)
            } else {
                None
            }
        },
        None => None,
    }
}

} // verus!
