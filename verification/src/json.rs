//! A small JSON codec over bytes, sufficient for the gateway's inbound
//! control messages: objects whose values are strings, arrays of strings,
//! `null`, `true`, `false`, or integer/decimal number lexemes.
//!
//! The accepted grammar, stated exactly by the spec functions below:
//! a single object `{ ... }` with optional surrounding whitespace; member
//! keys and string values are JSON strings with the escapes
//! `\" \\ \/ \b \f \n \r \t` and `\uXXXX` for code points up to `0x7F`;
//! arrays hold strings only; numbers are an optional minus, digits, and an
//! optional fraction (no exponent). Anything else fails the parse. Strings
//! are handled as raw bytes: bytes of 0x80 and above pass through a string
//! unchanged, so any UTF-8 text round-trips byte for byte.

use vstd::prelude::*;
use vstd::slice::slice_subrange;
use vstd::slice::slice_to_vec;

verus! {

/// Mathematical form of a JSON value of the accepted subset.
#[verifier::ext_equal]
pub enum JsonValS {
    Null,
    Bool(bool),
    /// A number, kept as its raw lexeme.
    Num(Seq<u8>),
    /// A string, as its decoded content bytes.
    Str(Seq<u8>),
    /// An array of strings, each as decoded content bytes.
    StrArr(Seq<Seq<u8>>),
}

/// Executable form of a JSON value of the accepted subset.
pub enum JsonVal {
    Null,
    Bool(bool),
    Num(Vec<u8>),
    Str(Vec<u8>),
    StrArr(Vec<Vec<u8>>),
}

impl View for JsonVal {
    type V = JsonValS;

    open spec fn view(&self) -> JsonValS {
        match self {
            JsonVal::Null => JsonValS::Null,
            JsonVal::Bool(b) => JsonValS::Bool(*b),
            JsonVal::Num(n) => JsonValS::Num(n@),
            JsonVal::Str(s) => JsonValS::Str(s@),
            JsonVal::StrArr(a) => JsonValS::StrArr(a@.map_values(|e: Vec<u8>| e@)),
        }
    }
}

/// The members of a parsed object, in source order.
pub type JsonPairsS = Seq<(Seq<u8>, JsonValS)>;

/// Executable object members, in source order.
pub type JsonPairs = Vec<(Vec<u8>, JsonVal)>;

/// View of executable object members.
pub open spec fn pairs_view(p: JsonPairs) -> JsonPairsS {
    p@.map_values(|pr: (Vec<u8>, JsonVal)| (pr.0@, pr.1@))
}

pub open spec fn is_ws(b: u8) -> bool {
    b == 32 || b == 9 || b == 10 || b == 13
}

/// Drops leading whitespace.
pub open spec fn skip_ws(s: Seq<u8>) -> Seq<u8>
    decreases s.len(),
{
    if s.len() > 0 && is_ws(s[0]) {
        skip_ws(s.skip(1))
    } else {
        s
    }
}

pub open spec fn is_digit(b: u8) -> bool {
    48 <= b <= 57
}

pub open spec fn is_hex_digit(b: u8) -> bool {
    (48 <= b <= 57) || (97 <= b <= 102) || (65 <= b <= 70)
}

/// Numeric value of one hexadecimal digit.
pub open spec fn hex_val(b: u8) -> int {
    if 48 <= b <= 57 {
        b - 48
    } else if 97 <= b <= 102 {
        b - 87
    } else {
        b - 55
    }
}

/// Whether `b` closes one of the two-byte escapes.
pub open spec fn is_simple_escape(b: u8) -> bool {
    b == 34 || b == 92 || b == 47 || b == 98 || b == 102 || b == 110 || b == 114 || b == 116
}

/// The byte denoted by the two-byte escape ending in `b`.
pub open spec fn simple_unescape(b: u8) -> u8 {
    if b == 34 {
        34
    } else if b == 92 {
        92
    } else if b == 47 {
        47
    } else if b == 98 {
        8
    } else if b == 102 {
        12
    } else if b == 110 {
        10
    } else if b == 114 {
        13
    } else {
        9
    }
}

/// Value of the four hex digits of a `\uXXXX` escape, `s` starting at the
/// backslash.
pub open spec fn hex4_val(s: Seq<u8>) -> int {
    hex_val(s[2]) * 4096 + hex_val(s[3]) * 256 + hex_val(s[4]) * 16 + hex_val(s[5])
}

/// Whether `s`, starting at the backslash, begins with a `\uXXXX` escape
/// denoting a code point the codec accepts (at most 0x7F).
pub open spec fn is_u_escape(s: Seq<u8>) -> bool {
    s.len() >= 6 && s[1] == 117 && is_hex_digit(s[2]) && is_hex_digit(s[3]) && is_hex_digit(s[4])
        && is_hex_digit(s[5]) && hex4_val(s) <= 127
}

/// Parses a string body (after the opening quote) up to and including the
/// closing quote; yields the decoded content and the remainder.
pub open spec fn parse_str_body(s: Seq<u8>) -> Option<(Seq<u8>, Seq<u8>)>
    decreases s.len(),
{
    if s.len() == 0 {
        None
    } else if s[0] == 34 {
        Some((Seq::empty(), s.skip(1)))
    } else if s[0] == 92 {
        if s.len() >= 2 && is_simple_escape(s[1]) {
            match parse_str_body(s.skip(2)) {
                Some((t, r)) => Some((seq![simple_unescape(s[1])].add(t), r)),
                None => None,
            }
        } else if is_u_escape(s) {
            match parse_str_body(s.skip(6)) {
                Some((t, r)) => Some((seq![hex4_val(s) as u8].add(t), r)),
                None => None,
            }
        } else {
            None
        }
    } else if s[0] < 32 {
        None
    } else {
        match parse_str_body(s.skip(1)) {
            Some((t, r)) => Some((seq![s[0]].add(t), r)),
            None => None,
        }
    }
}

/// Number of leading decimal digits.
pub open spec fn count_digits(s: Seq<u8>) -> int
    decreases s.len(),
{
    if s.len() > 0 && is_digit(s[0]) {
        1 + count_digits(s.skip(1))
    } else {
        0
    }
}

/// Parses a number lexeme: optional minus, digits, optional `.` digits.
/// Yields the raw lexeme and the remainder.
pub open spec fn parse_number(s: Seq<u8>) -> Option<(Seq<u8>, Seq<u8>)> {
    let neg: int = if s.len() > 0 && s[0] == 45 {
        1
    } else {
        0
    };
    let d1 = count_digits(s.skip(neg));
    if d1 == 0 {
        None
    } else {
        let p = neg + d1;
        let frac: int = if p < s.len() && s[p] == 46 && count_digits(s.skip(p + 1)) > 0 {
            1 + count_digits(s.skip(p + 1))
        } else {
            0
        };
        let q = p + frac;
        Some((s.take(q), s.skip(q)))
    }
}

/// Skipping whitespace never lengthens the input.
pub proof fn lemma_skip_ws_len(s: Seq<u8>)
    ensures
        skip_ws(s).len() <= s.len(),
    decreases s.len(),
{
    if s.len() > 0 && is_ws(s[0]) {
        lemma_skip_ws_len(s.skip(1));
    }
}

/// A parsed string consumed at least its closing quote.
pub proof fn lemma_parse_str_body_len(s: Seq<u8>)
    ensures
        parse_str_body(s) matches Some(tr) ==> tr.1.len() < s.len(),
    decreases s.len(),
{
    if s.len() == 0 {
    } else if s[0] == 34 {
    } else if s[0] == 92 {
        if s.len() >= 2 && is_simple_escape(s[1]) {
            lemma_parse_str_body_len(s.skip(2));
        } else if is_u_escape(s) {
            lemma_parse_str_body_len(s.skip(6));
        }
    } else if s[0] < 32 {
    } else {
        lemma_parse_str_body_len(s.skip(1));
    }
}

/// The count of leading digits is within the input's length.
pub proof fn lemma_count_digits_le(s: Seq<u8>)
    ensures
        0 <= count_digits(s) <= s.len(),
    decreases s.len(),
{
    if s.len() > 0 && is_digit(s[0]) {
        lemma_count_digits_le(s.skip(1));
    }
}

/// A parsed number consumed at least one byte.
pub proof fn lemma_parse_number_len(s: Seq<u8>)
    ensures
        parse_number(s) matches Some(tr) ==> tr.1.len() < s.len(),
{
    let neg: int = if s.len() > 0 && s[0] == 45 {
        1
    } else {
        0
    };
    lemma_count_digits_le(s.skip(neg));
    let d1 = count_digits(s.skip(neg));
    if d1 != 0 {
        let p = neg + d1;
        if p < s.len() && s[p] == 46 && count_digits(s.skip(p + 1)) > 0 {
            lemma_count_digits_le(s.skip(p + 1));
        }
    }
}

/// Parses the items of a non-empty array of strings, the input starting at
/// the first item; consumes the closing bracket.
pub open spec fn parse_arr_items(s: Seq<u8>) -> Option<(Seq<Seq<u8>>, Seq<u8>)>
    decreases s.len(),
    via parse_arr_items_decreases
{
    if s.len() > 0 && s[0] == 34 {
        match parse_str_body(s.skip(1)) {
            Some((t, r)) => {
                let r1 = skip_ws(r);
                if r1.len() > 0 && r1[0] == 44 {
                    match parse_arr_items(skip_ws(r1.skip(1))) {
                        Some((ts, r2)) => Some((seq![t].add(ts), r2)),
                        None => None,
                    }
                } else if r1.len() > 0 && r1[0] == 93 {
                    Some((seq![t], r1.skip(1)))
                } else {
                    None
                }
            },
            None => None,
        }
    } else {
        None
    }
}

#[via_fn]
proof fn parse_arr_items_decreases(s: Seq<u8>) {
    if s.len() > 0 && s[0] == 34 {
        lemma_parse_str_body_len(s.skip(1));
        if let Some((t, r)) = parse_str_body(s.skip(1)) {
            lemma_skip_ws_len(r);
            let r1 = skip_ws(r);
            if r1.len() > 0 && r1[0] == 44 {
                lemma_skip_ws_len(r1.skip(1));
            }
        }
    }
}

/// Parses one value of the accepted subset; yields it and the remainder.
pub open spec fn parse_value(s: Seq<u8>) -> Option<(JsonValS, Seq<u8>)> {
    if s.len() == 0 {
        None
    } else if s[0] == 34 {
        match parse_str_body(s.skip(1)) {
            Some((t, r)) => Some((JsonValS::Str(t), r)),
            None => None,
        }
    } else if s[0] == 91 {
        let r = skip_ws(s.skip(1));
        if r.len() > 0 && r[0] == 93 {
            Some((JsonValS::StrArr(Seq::empty()), r.skip(1)))
        } else {
            match parse_arr_items(r) {
                Some((ts, r2)) => Some((JsonValS::StrArr(ts), r2)),
                None => None,
            }
        }
    } else if s[0] == 110 {
        if s.len() >= 4 && s[1] == 117 && s[2] == 108 && s[3] == 108 {
            Some((JsonValS::Null, s.skip(4)))
        } else {
            None
        }
    } else if s[0] == 116 {
        if s.len() >= 4 && s[1] == 114 && s[2] == 117 && s[3] == 101 {
            Some((JsonValS::Bool(true), s.skip(4)))
        } else {
            None
        }
    } else if s[0] == 102 {
        if s.len() >= 5 && s[1] == 97 && s[2] == 108 && s[3] == 115 && s[4] == 101 {
            Some((JsonValS::Bool(false), s.skip(5)))
        } else {
            None
        }
    } else if s[0] == 45 || is_digit(s[0]) {
        match parse_number(s) {
            Some((n, r)) => Some((JsonValS::Num(n), r)),
            None => None,
        }
    } else {
        None
    }
}

/// An array's items consumed at least the closing bracket.
pub proof fn lemma_parse_arr_items_len(s: Seq<u8>)
    ensures
        parse_arr_items(s) matches Some(tr) ==> tr.1.len() < s.len(),
    decreases s.len(),
{
    if s.len() > 0 && s[0] == 34 {
        lemma_parse_str_body_len(s.skip(1));
        if let Some((t, r)) = parse_str_body(s.skip(1)) {
            lemma_skip_ws_len(r);
            let r1 = skip_ws(r);
            if r1.len() > 0 && r1[0] == 44 {
                lemma_skip_ws_len(r1.skip(1));
                lemma_parse_arr_items_len(skip_ws(r1.skip(1)));
            }
        }
    }
}

/// A parsed value consumed at least one byte.
pub proof fn lemma_parse_value_len(s: Seq<u8>)
    ensures
        parse_value(s) matches Some(tr) ==> tr.1.len() < s.len(),
{
    if s.len() == 0 {
    } else if s[0] == 34 {
        lemma_parse_str_body_len(s.skip(1));
    } else if s[0] == 91 {
        lemma_skip_ws_len(s.skip(1));
        lemma_parse_arr_items_len(skip_ws(s.skip(1)));
    } else if s[0] == 45 || is_digit(s[0]) {
        lemma_parse_number_len(s);
    }
}

/// Parses the members of a non-empty object, the input starting at the
/// first key; consumes the closing brace.
pub open spec fn parse_members(s: Seq<u8>) -> Option<(JsonPairsS, Seq<u8>)>
    decreases s.len(),
    via parse_members_decreases
{
    if s.len() > 0 && s[0] == 34 {
        match parse_str_body(s.skip(1)) {
            Some((k, r)) => {
                let r1 = skip_ws(r);
                if r1.len() > 0 && r1[0] == 58 {
                    match parse_value(skip_ws(r1.skip(1))) {
                        Some((v, r2)) => {
                            let r3 = skip_ws(r2);
                            if r3.len() > 0 && r3[0] == 44 {
                                match parse_members(skip_ws(r3.skip(1))) {
                                    Some((ms, r4)) => Some((seq![(k, v)].add(ms), r4)),
                                    None => None,
                                }
                            } else if r3.len() > 0 && r3[0] == 125 {
                                Some((seq![(k, v)], r3.skip(1)))
                            } else {
                                None
                            }
                        },
                        None => None,
                    }
                } else {
                    None
                }
            },
            None => None,
        }
    } else {
        None
    }
}

#[via_fn]
proof fn parse_members_decreases(s: Seq<u8>) {
    if s.len() > 0 && s[0] == 34 {
        lemma_parse_str_body_len(s.skip(1));
        if let Some((k, r)) = parse_str_body(s.skip(1)) {
            lemma_skip_ws_len(r);
            let r1 = skip_ws(r);
            if r1.len() > 0 && r1[0] == 58 {
                lemma_skip_ws_len(r1.skip(1));
                lemma_parse_value_len(skip_ws(r1.skip(1)));
                if let Some((v, r2)) = parse_value(skip_ws(r1.skip(1))) {
                    lemma_skip_ws_len(r2);
                    let r3 = skip_ws(r2);
                    if r3.len() > 0 && r3[0] == 44 {
                        lemma_skip_ws_len(r3.skip(1));
                    }
                }
            }
        }
    }
}

/// Parses a whole input as one object: optional surrounding whitespace,
/// then `{ members }`, then nothing.
pub open spec fn parse_json_obj(s: Seq<u8>) -> Option<JsonPairsS> {
    let t = skip_ws(s);
    if t.len() > 0 && t[0] == 123 {
        let u = skip_ws(t.skip(1));
        if u.len() > 0 && u[0] == 125 {
            if skip_ws(u.skip(1)).len() == 0 {
                Some(Seq::empty())
            } else {
                None
            }
        } else {
            match parse_members(u) {
                Some((ms, r)) => if skip_ws(r).len() == 0 {
                    Some(ms)
                } else {
                    None
                },
                None => None,
            }
        }
    } else {
        None
    }
}

/// View of a sequence of byte vectors as its contents.
pub open spec fn vecs_view(a: Seq<Vec<u8>>) -> Seq<Seq<u8>> {
    a.map_values(|e: Vec<u8>| e@)
}

/// Drops leading whitespace of a byte slice.
pub fn skip_ws_exec<'a>(s: &'a [u8]) -> (r: &'a [u8])
    ensures
        r@ == skip_ws(s@),
{
    let mut i: usize = 0;
    proof {
        assert(s@.skip(0) =~= s@);
    }
    while i < s.len() && (s[i] == 32 || s[i] == 9 || s[i] == 10 || s[i] == 13)
        invariant
            0 <= i <= s@.len(),
            skip_ws(s@) == skip_ws(s@.skip(i as int)),
        decreases s@.len() - i,
    {
        proof {
            assert(s@.skip(i as int).skip(1) =~= s@.skip(i as int + 1));
        }
        i = i + 1;
    }
    let r = slice_subrange(s, i, s.len());
    proof {
        assert(r@ =~= s@.skip(i as int));
    }
    r
}

/// Decodes one hexadecimal digit, if `b` is one.
fn hex_val_exec(b: u8) -> (r: Option<u8>)
    ensures
        match r {
            Some(v) => is_hex_digit(b) && v as int == hex_val(b),
            None => !is_hex_digit(b),
        },
{
    if 48 <= b && b <= 57 {
        Some(b - 48)
    } else if 97 <= b && b <= 102 {
        Some(b - 87)
    } else if 65 <= b && b <= 70 {
        Some(b - 55)
    } else {
        None
    }
}

/// Parses a string body after the opening quote; yields the decoded
/// content and the input past the closing quote.
pub fn parse_str_body_exec<'a>(s: &'a [u8]) -> (r: Option<(Vec<u8>, &'a [u8])>)
    ensures
        match r {
            Some(tr) => parse_str_body(s@) == Some((tr.0@, tr.1@)),
            None => parse_str_body(s@) is None,
        },
    decreases s@.len(),
{
    if s.len() == 0 {
        None
    } else if s[0] == 34 {
        let rem = slice_subrange(s, 1, s.len());
        proof {
            assert(rem@ =~= s@.skip(1));
        }
        Some((Vec::new(), rem))
    } else if s[0] == 92 {
        if s.len() >= 2 && (s[1] == 34 || s[1] == 92 || s[1] == 47 || s[1] == 98 || s[1] == 102
            || s[1] == 110 || s[1] == 114 || s[1] == 116) {
            let e = s[1];
            let u: u8 = if e == 34 {
                34
            } else if e == 92 {
                92
            } else if e == 47 {
                47
            } else if e == 98 {
                8
            } else if e == 102 {
                12
            } else if e == 110 {
                10
            } else if e == 114 {
                13
            } else {
                9
            };
            let sub = slice_subrange(s, 2, s.len());
            proof {
                assert(sub@ =~= s@.skip(2));
            }
            match parse_str_body_exec(sub) {
                Some((t, rem)) => {
                    let mut t2 = t;
                    let mut v: Vec<u8> = Vec::new();
                    v.push(u);
                    let ghost tview = t2@;
                    v.append(&mut t2);
                    proof {
                        assert(v@ =~= seq![simple_unescape(s@[1])].add(tview));
                    }
                    Some((v, rem))
                },
                None => None,
            }
        } else if s.len() >= 6 && s[1] == 117 {
            let h2 = hex_val_exec(s[2]);
            let h3 = hex_val_exec(s[3]);
            let h4 = hex_val_exec(s[4]);
            let h5 = hex_val_exec(s[5]);
            match (h2, h3, h4, h5) {
                (Some(a), Some(b), Some(c), Some(d)) => {
                    let val: u32 = a as u32 * 4096 + b as u32 * 256 + c as u32 * 16 + d as u32;
                    proof {
                        assert(val as int == hex4_val(s@));
                    }
                    if val <= 127 {
                        let sub = slice_subrange(s, 6, s.len());
                        proof {
                            assert(sub@ =~= s@.skip(6));
                            assert(is_u_escape(s@));
                        }
                        match parse_str_body_exec(sub) {
                            Some((t, rem)) => {
                                let mut t2 = t;
                                let mut v: Vec<u8> = Vec::new();
                                v.push(val as u8);
                                let ghost tview = t2@;
                                v.append(&mut t2);
                                proof {
                                    assert(v@ =~= seq![hex4_val(s@) as u8].add(tview));
                                }
                                Some((v, rem))
                            },
                            None => None,
                        }
                    } else {
                        None
                    }
                },
                _ => None,
            }
        } else {
            None
        }
    } else if s[0] < 32 {
        None
    } else {
        let b = s[0];
        let sub = slice_subrange(s, 1, s.len());
        proof {
            assert(sub@ =~= s@.skip(1));
        }
        match parse_str_body_exec(sub) {
            Some((t, rem)) => {
                let mut t2 = t;
                let mut v: Vec<u8> = Vec::new();
                v.push(b);
                let ghost tview = t2@;
                v.append(&mut t2);
                proof {
                    assert(v@ =~= seq![s@[0]].add(tview));
                }
                Some((v, rem))
            },
            None => None,
        }
    }
}

/// Counts the leading decimal digits of a byte slice.
pub fn count_digits_exec(s: &[u8]) -> (n: usize)
    ensures
        n == count_digits(s@),
        n <= s@.len(),
{
    let mut i: usize = 0;
    proof {
        assert(s@.skip(0) =~= s@);
        lemma_count_digits_le(s@);
    }
    while i < s.len() && 48 <= s[i] && s[i] <= 57
        invariant
            0 <= i <= s@.len(),
            count_digits(s@) == i + count_digits(s@.skip(i as int)),
        decreases s@.len() - i,
    {
        proof {
            assert(s@.skip(i as int).skip(1) =~= s@.skip(i as int + 1));
        }
        i = i + 1;
    }
    proof {
        lemma_count_digits_le(s@.skip(i as int));
    }
    i
}

/// Parses a number lexeme; yields the raw lexeme and the remainder.
pub fn parse_number_exec<'a>(s: &'a [u8]) -> (r: Option<(Vec<u8>, &'a [u8])>)
    ensures
        match r {
            Some(tr) => parse_number(s@) == Some((tr.0@, tr.1@)),
            None => parse_number(s@) is None,
        },
{
    let neg: usize = if s.len() > 0 && s[0] == 45 {
        1
    } else {
        0
    };
    let after_neg = slice_subrange(s, neg, s.len());
    proof {
        assert(after_neg@ =~= s@.skip(neg as int));
    }
    let d1 = count_digits_exec(after_neg);
    if d1 == 0 {
        None
    } else {
        let p = neg + d1;
        let frac: usize = if p < s.len() && s[p] == 46 {
            let after_dot = slice_subrange(s, p + 1, s.len());
            proof {
                assert(after_dot@ =~= s@.skip(p as int + 1));
            }
            let d2 = count_digits_exec(after_dot);
            if d2 > 0 {
                1 + d2
            } else {
                0
            }
        } else {
            0
        };
        let q = p + frac;
        let lex = slice_to_vec(slice_subrange(s, 0, q));
        let rem = slice_subrange(s, q, s.len());
        proof {
            assert(lex@ =~= s@.take(q as int));
            assert(rem@ =~= s@.skip(q as int));
        }
        Some((lex, rem))
    }
}

/// Lowercase hexadecimal digit for a value below 16.
pub open spec fn hex_digit(n: int) -> u8 {
    if n < 10 {
        (48 + n) as u8
    } else {
        (87 + n) as u8
    }
}

/// How one byte of string content is written: itself, a two-byte escape,
/// or `\u00XX` for the remaining control bytes.
pub open spec fn escape_byte(b: u8) -> Seq<u8> {
    if b == 34 {
        seq![92u8, 34u8]
    } else if b == 92 {
        seq![92u8, 92u8]
    } else if b == 8 {
        seq![92u8, 98u8]
    } else if b == 12 {
        seq![92u8, 102u8]
    } else if b == 10 {
        seq![92u8, 110u8]
    } else if b == 13 {
        seq![92u8, 114u8]
    } else if b == 9 {
        seq![92u8, 116u8]
    } else if b < 32 {
        seq![92u8, 117u8, 48u8, 48u8, hex_digit(b as int / 16), hex_digit(b as int % 16)]
    } else {
        seq![b]
    }
}

/// String content, escaped.
pub open spec fn escape_bytes(s: Seq<u8>) -> Seq<u8>
    decreases s.len(),
{
    if s.len() == 0 {
        Seq::empty()
    } else {
        escape_byte(s[0]).add(escape_bytes(s.skip(1)))
    }
}

/// A string value: quote, escaped content, quote.
pub open spec fn ser_str(s: Seq<u8>) -> Seq<u8> {
    seq![34u8].add(escape_bytes(s)).add(seq![34u8])
}

/// The comma-separated items of an array of strings.
pub open spec fn ser_arr_items(a: Seq<Seq<u8>>) -> Seq<u8>
    decreases a.len(),
{
    if a.len() == 0 {
        Seq::empty()
    } else if a.len() == 1 {
        ser_str(a[0])
    } else {
        ser_str(a[0]).add(seq![44u8]).add(ser_arr_items(a.skip(1)))
    }
}

/// One value, written canonically (no whitespace).
pub open spec fn ser_val(v: JsonValS) -> Seq<u8> {
    match v {
        JsonValS::Null => seq![110u8, 117u8, 108u8, 108u8],
        JsonValS::Bool(b) => if b {
            seq![116u8, 114u8, 117u8, 101u8]
        } else {
            seq![102u8, 97u8, 108u8, 115u8, 101u8]
        },
        JsonValS::Num(n) => n,
        JsonValS::Str(t) => ser_str(t),
        JsonValS::StrArr(a) => seq![91u8].add(ser_arr_items(a)).add(seq![93u8]),
    }
}

/// One member: key, colon, value.
pub open spec fn ser_member(m: (Seq<u8>, JsonValS)) -> Seq<u8> {
    ser_str(m.0).add(seq![58u8]).add(ser_val(m.1))
}

/// The comma-separated members of an object.
pub open spec fn ser_members(ms: JsonPairsS) -> Seq<u8>
    decreases ms.len(),
{
    if ms.len() == 0 {
        Seq::empty()
    } else if ms.len() == 1 {
        ser_member(ms[0])
    } else {
        ser_member(ms[0]).add(seq![44u8]).add(ser_members(ms.skip(1)))
    }
}

/// A whole object, written canonically.
pub open spec fn ser_obj(ms: JsonPairsS) -> Seq<u8> {
    seq![123u8].add(ser_members(ms)).add(seq![125u8])
}

/// Whether a value is written without a trailing-boundary ambiguity: number
/// lexemes are open-ended, every other kind ends at a byte of its own.
pub open spec fn delimited(v: JsonValS) -> bool {
    !(v is Num)
}

/// All of an object's values are delimited.
pub open spec fn all_delimited(ms: JsonPairsS) -> bool {
    forall|i: int| 0 <= i < ms.len() ==> delimited(#[trigger] ms[i].1)
}

/// Hex digits round-trip through their numeric value.
proof fn lemma_hex_digit_val(n: int)
    requires
        0 <= n < 16,
    ensures
        is_hex_digit(hex_digit(n)),
        hex_val(hex_digit(n)) == n,
{
}

/// An escaped string body, closed by a quote, parses back to its content,
/// whatever follows the quote.
pub proof fn lemma_escape_parses(t: Seq<u8>, tail: Seq<u8>)
    ensures
        parse_str_body(escape_bytes(t).add(seq![34u8]).add(tail)) == Some((t, tail)),
    decreases t.len(),
{
    let s = escape_bytes(t).add(seq![34u8]).add(tail);
    if t.len() == 0 {
        assert(s[0] == 34);
        assert(s.skip(1) =~= tail);
        assert(t =~= Seq::<u8>::empty());
    } else {
        let b = t[0];
        let eb = escape_byte(b);
        let rest = escape_bytes(t.skip(1)).add(seq![34u8]).add(tail);
        assert(s =~= eb.add(rest));
        lemma_escape_parses(t.skip(1), tail);
        if b == 34 || b == 92 || b == 8 || b == 12 || b == 10 || b == 13 || b == 9 {
            assert(eb.len() == 2 && eb[0] == 92 && is_simple_escape(eb[1]) && simple_unescape(
                eb[1],
            ) == b);
            assert(s[0] == 92 && s[1] == eb[1]);
            assert(s.skip(2) =~= rest);
            assert(seq![b].add(t.skip(1)) =~= t);
        } else if b < 32 {
            let h1 = hex_digit(b as int / 16);
            let h2 = hex_digit(b as int % 16);
            assert(0 <= b as int / 16 < 16 && 0 <= b as int % 16 < 16);
            lemma_hex_digit_val(b as int / 16);
            lemma_hex_digit_val(b as int % 16);
            assert(s[0] == 92 && s[1] == 117 && s[2] == 48 && s[3] == 48 && s[4] == h1 && s[5]
                == h2);
            assert(!is_simple_escape(s[1]));
            assert(hex4_val(s) == hex_val(h1) * 16 + hex_val(h2));
            assert(b as int / 16 * 16 + b as int % 16 == b as int) by {
                vstd::arithmetic::div_mod::lemma_fundamental_div_mod(b as int, 16);
            }
            assert(hex4_val(s) == b);
            assert(is_u_escape(s));
            assert(s.skip(6) =~= rest);
            assert(seq![hex4_val(s) as u8].add(t.skip(1)) =~= t);
        } else {
            assert(eb =~= seq![b]);
            assert(s[0] == b && b != 34 && b != 92 && b >= 32);
            assert(s.skip(1) =~= rest);
            assert(seq![b].add(t.skip(1)) =~= t);
        }
    }
}

/// Whitespace-skipping leaves an input alone that does not start with
/// whitespace.
proof fn lemma_skip_ws_noop(s: Seq<u8>)
    requires
        s.len() == 0 || !is_ws(s[0]),
    ensures
        skip_ws(s) == s,
{
}

/// The items of a written non-empty array of strings parse back to the
/// items, whatever follows the closing bracket.
pub proof fn lemma_ser_arr_items_parses(a: Seq<Seq<u8>>, tail: Seq<u8>)
    requires
        a.len() >= 1,
    ensures
        parse_arr_items(ser_arr_items(a).add(seq![93u8]).add(tail)) == Some((a, tail)),
    decreases a.len(),
{
    let s = ser_arr_items(a).add(seq![93u8]).add(tail);
    if a.len() == 1 {
        let x = seq![93u8].add(tail);
        assert(s =~= seq![34u8].add(escape_bytes(a[0]).add(seq![34u8]).add(x)));
        assert(s[0] == 34);
        assert(s.skip(1) =~= escape_bytes(a[0]).add(seq![34u8]).add(x));
        lemma_escape_parses(a[0], x);
        lemma_skip_ws_noop(x);
        assert(x.skip(1) =~= tail);
        assert(seq![a[0]] =~= a);
    } else {
        let x = seq![44u8].add(ser_arr_items(a.skip(1))).add(seq![93u8]).add(tail);
        assert(s =~= seq![34u8].add(escape_bytes(a[0]).add(seq![34u8]).add(x)));
        assert(s[0] == 34);
        assert(s.skip(1) =~= escape_bytes(a[0]).add(seq![34u8]).add(x));
        lemma_escape_parses(a[0], x);
        lemma_skip_ws_noop(x);
        assert(x[0] == 44);
        let y = ser_arr_items(a.skip(1)).add(seq![93u8]).add(tail);
        assert(x.skip(1) =~= y);
        assert(y[0] == 34);
        lemma_skip_ws_noop(y);
        lemma_ser_arr_items_parses(a.skip(1), tail);
        assert(seq![a[0]].add(a.skip(1)) =~= a);
    }
}

/// A written delimited value parses back to itself, whatever follows it.
pub proof fn lemma_ser_val_parses(v: JsonValS, tail: Seq<u8>)
    requires
        delimited(v),
    ensures
        parse_value(ser_val(v).add(tail)) == Some((v, tail)),
{
    let s = ser_val(v).add(tail);
    match v {
        JsonValS::Null => {
            assert(s[0] == 110 && s[1] == 117 && s[2] == 108 && s[3] == 108);
            assert(s.skip(4) =~= tail);
        },
        JsonValS::Bool(b) => {
            if b {
                assert(s[0] == 116 && s[1] == 114 && s[2] == 117 && s[3] == 101);
                assert(s.skip(4) =~= tail);
            } else {
                assert(s[0] == 102 && s[1] == 97 && s[2] == 108 && s[3] == 115 && s[4] == 101);
                assert(s.skip(5) =~= tail);
            }
        },
        JsonValS::Num(n) => {
            assert(false);
        },
        JsonValS::Str(t) => {
            assert(s[0] == 34);
            assert(s.skip(1) =~= escape_bytes(t).add(seq![34u8]).add(tail));
            lemma_escape_parses(t, tail);
        },
        JsonValS::StrArr(a) => {
            assert(s[0] == 91);
            let y = ser_arr_items(a).add(seq![93u8]).add(tail);
            assert(s.skip(1) =~= y);
            if a.len() == 0 {
                assert(y =~= seq![93u8].add(tail));
                lemma_skip_ws_noop(y);
                assert(y[0] == 93);
                assert(y.skip(1) =~= tail);
            } else {
                assert(y[0] == 34);
                lemma_skip_ws_noop(y);
                lemma_ser_arr_items_parses(a, tail);
            }
        },
    }
}

/// A written non-empty member list begins with the opening quote of its
/// first key.
proof fn lemma_ser_members_first_byte(ms: JsonPairsS)
    requires
        ms.len() >= 1,
    ensures
        ser_members(ms).len() > 0,
        ser_members(ms)[0] == 34,
{
}

/// The members of a written non-empty object parse back to the members,
/// whatever follows the closing brace.
#[verifier::rlimit(60)]
pub proof fn lemma_ser_members_parses(ms: JsonPairsS, tail: Seq<u8>)
    requires
        ms.len() >= 1,
        all_delimited(ms),
    ensures
        parse_members(ser_members(ms).add(seq![125u8]).add(tail)) == Some((ms, tail)),
    decreases ms.len(),
{
    let s = ser_members(ms).add(seq![125u8]).add(tail);
    let k = ms[0].0;
    let v = ms[0].1;
    let x: Seq<u8> = if ms.len() == 1 {
        seq![58u8].add(ser_val(v)).add(seq![125u8]).add(tail)
    } else {
        seq![58u8].add(ser_val(v)).add(seq![44u8]).add(ser_members(ms.skip(1))).add(
            seq![125u8],
        ).add(tail)
    };
    assert(s =~= seq![34u8].add(escape_bytes(k).add(seq![34u8]).add(x)));
    assert(s[0] == 34);
    assert(s.skip(1) =~= escape_bytes(k).add(seq![34u8]).add(x));
    lemma_escape_parses(k, x);
    lemma_skip_ws_noop(x);
    assert(x[0] == 58);
    if ms.len() == 1 {
        let y = ser_val(v).add(seq![125u8].add(tail));
        assert(x.skip(1) =~= y);
        lemma_ser_val_first_byte(v);
        lemma_skip_ws_noop(y);
        lemma_ser_val_parses(v, seq![125u8].add(tail));
        let z = seq![125u8].add(tail);
        lemma_skip_ws_noop(z);
        assert(z[0] == 125);
        assert(z.skip(1) =~= tail);
        assert(seq![(k, v)] =~= ms);
    } else {
        let w = seq![44u8].add(ser_members(ms.skip(1))).add(seq![125u8]).add(tail);
        let y = ser_val(v).add(w);
        assert(x.skip(1) =~= y);
        lemma_ser_val_first_byte(v);
        lemma_skip_ws_noop(y);
        lemma_ser_val_parses(v, w);
        lemma_skip_ws_noop(w);
        assert(w[0] == 44);
        let u = ser_members(ms.skip(1)).add(seq![125u8]).add(tail);
        assert(w.skip(1) =~= u);
        lemma_ser_members_first_byte(ms.skip(1));
        assert(u[0] == 34);
        lemma_skip_ws_noop(u);
        assert(all_delimited(ms.skip(1))) by {
            assert(forall|i: int|
                0 <= i < ms.skip(1).len() ==> #[trigger] ms.skip(1)[i].1 == ms[i + 1].1);
        }
        lemma_ser_members_parses(ms.skip(1), tail);
        assert(seq![(k, v)].add(ms.skip(1)) =~= ms);
    }
}

/// A written value begins with a byte that is not whitespace; for a
/// delimited value it is the kind's own opening byte.
proof fn lemma_ser_val_first_byte(v: JsonValS)
    requires
        delimited(v),
    ensures
        ser_val(v).len() > 0,
        !is_ws(ser_val(v)[0]),
{
    match v {
        JsonValS::Null => {},
        JsonValS::Bool(b) => {},
        JsonValS::Num(n) => {
            assert(false);
        },
        JsonValS::Str(t) => {
            assert(ser_val(v)[0] == 34);
        },
        JsonValS::StrArr(a) => {
            assert(ser_val(v)[0] == 91);
        },
    }
}

/// A canonically written object parses back to its members: the codec
/// round-trips on every object whose values are delimited.
pub proof fn lemma_ser_obj_parses(ms: JsonPairsS)
    requires
        all_delimited(ms),
    ensures
        parse_json_obj(ser_obj(ms)) == Some(ms),
{
    let s = ser_obj(ms);
    lemma_skip_ws_noop(s);
    assert(s[0] == 123);
    let u = ser_members(ms).add(seq![125u8]);
    assert(s.skip(1) =~= u);
    if ms.len() == 0 {
        assert(u =~= seq![125u8]);
        lemma_skip_ws_noop(u);
        assert(u[0] == 125);
        assert(u.skip(1) =~= Seq::<u8>::empty());
    } else {
        lemma_ser_members_first_byte(ms);
        assert(u[0] == 34);
        lemma_skip_ws_noop(u);
        assert(u =~= ser_members(ms).add(seq![125u8]).add(Seq::<u8>::empty()));
        lemma_ser_members_parses(ms, Seq::<u8>::empty());
    }
}

/// Parses the items of a non-empty array of strings; the input starts at
/// the first item.
pub fn parse_arr_items_exec<'a>(s: &'a [u8]) -> (r: Option<(Vec<Vec<u8>>, &'a [u8])>)
    ensures
        match r {
            Some(tr) => parse_arr_items(s@) == Some((vecs_view(tr.0@), tr.1@)),
            None => parse_arr_items(s@) is None,
        },
    decreases s@.len(),
{
    if s.len() > 0 && s[0] == 34 {
        let sub = slice_subrange(s, 1, s.len());
        proof {
            assert(sub@ =~= s@.skip(1));
        }
        match parse_str_body_exec(sub) {
            Some((t, rem)) => {
                let r1 = skip_ws_exec(rem);
                if r1.len() > 0 && r1[0] == 44 {
                    let r1sub = slice_subrange(r1, 1, r1.len());
                    proof {
                        assert(r1sub@ =~= r1@.skip(1));
                    }
                    let next = skip_ws_exec(r1sub);
                    proof {
                        lemma_parse_str_body_len(s@.skip(1));
                        lemma_skip_ws_len(rem@);
                        lemma_skip_ws_len(r1@.skip(1));
                    }
                    match parse_arr_items_exec(next) {
                        Some((ts, r2)) => {
                            let mut ts2 = ts;
                            let ghost tsview = ts2@;
                            ts2.insert(0, t);
                            proof {
                                assert(vecs_view(ts2@) =~= seq![t@].add(vecs_view(tsview)));
                            }
                            Some((ts2, r2))
                        },
                        None => None,
                    }
                } else if r1.len() > 0 && r1[0] == 93 {
                    let r2 = slice_subrange(r1, 1, r1.len());
                    proof {
                        assert(r2@ =~= r1@.skip(1));
                    }
                    let mut one: Vec<Vec<u8>> = Vec::new();
                    one.push(t);
                    proof {
                        assert(vecs_view(one@) =~= seq![one@[0]@]);
                    }
                    Some((one, r2))
                } else {
                    None
                }
            },
            None => None,
        }
    } else {
        None
    }
}

/// Parses one value of the accepted subset; yields it and the remainder.
pub fn parse_value_exec<'a>(s: &'a [u8]) -> (r: Option<(JsonVal, &'a [u8])>)
    ensures
        match r {
            Some(tr) => parse_value(s@) == Some((tr.0@, tr.1@)),
            None => parse_value(s@) is None,
        },
    decreases s@.len(),
{
    if s.len() == 0 {
        None
    } else if s[0] == 34 {
        let sub = slice_subrange(s, 1, s.len());
        proof {
            assert(sub@ =~= s@.skip(1));
        }
        match parse_str_body_exec(sub) {
            Some((t, rem)) => Some((JsonVal::Str(t), rem)),
            None => None,
        }
    } else if s[0] == 91 {
        let sub = slice_subrange(s, 1, s.len());
        proof {
            assert(sub@ =~= s@.skip(1));
        }
        let r1 = skip_ws_exec(sub);
        if r1.len() > 0 && r1[0] == 93 {
            let rem = slice_subrange(r1, 1, r1.len());
            proof {
                assert(rem@ =~= r1@.skip(1));
                assert(vecs_view(Seq::<Vec<u8>>::empty()) =~= Seq::<Seq<u8>>::empty());
            }
            Some((JsonVal::StrArr(Vec::new()), rem))
        } else {
            match parse_arr_items_exec(r1) {
                Some((ts, rem)) => Some((JsonVal::StrArr(ts), rem)),
                None => None,
            }
        }
    } else if s[0] == 110 {
        if s.len() >= 4 && s[1] == 117 && s[2] == 108 && s[3] == 108 {
            let rem = slice_subrange(s, 4, s.len());
            proof {
                assert(rem@ =~= s@.skip(4));
            }
            Some((JsonVal::Null, rem))
        } else {
            None
        }
    } else if s[0] == 116 {
        if s.len() >= 4 && s[1] == 114 && s[2] == 117 && s[3] == 101 {
            let rem = slice_subrange(s, 4, s.len());
            proof {
                assert(rem@ =~= s@.skip(4));
            }
            Some((JsonVal::Bool(true), rem))
        } else {
            None
        }
    } else if s[0] == 102 {
        if s.len() >= 5 && s[1] == 97 && s[2] == 108 && s[3] == 115 && s[4] == 101 {
            let rem = slice_subrange(s, 5, s.len());
            proof {
                assert(rem@ =~= s@.skip(5));
            }
            Some((JsonVal::Bool(false), rem))
        } else {
            None
        }
    } else if s[0] == 45 || (48 <= s[0] && s[0] <= 57) {
        match parse_number_exec(s) {
            Some((n, rem)) => Some((JsonVal::Num(n), rem)),
            None => None,
        }
    } else {
        None
    }
}

/// Parses the members of a non-empty object; the input starts at the first
/// key.
pub fn parse_members_exec<'a>(s: &'a [u8]) -> (r: Option<(JsonPairs, &'a [u8])>)
    ensures
        match r {
            Some(tr) => parse_members(s@) == Some((pairs_view(tr.0), tr.1@)),
            None => parse_members(s@) is None,
        },
    decreases s@.len(),
{
    if s.len() > 0 && s[0] == 34 {
        let sub = slice_subrange(s, 1, s.len());
        proof {
            assert(sub@ =~= s@.skip(1));
        }
        match parse_str_body_exec(sub) {
            Some((k, rem)) => {
                let r1 = skip_ws_exec(rem);
                if r1.len() > 0 && r1[0] == 58 {
                    let r1sub = slice_subrange(r1, 1, r1.len());
                    proof {
                        assert(r1sub@ =~= r1@.skip(1));
                    }
                    let vstart = skip_ws_exec(r1sub);
                    match parse_value_exec(vstart) {
                        Some((v, r2)) => {
                            let r3 = skip_ws_exec(r2);
                            if r3.len() > 0 && r3[0] == 44 {
                                let r3sub = slice_subrange(r3, 1, r3.len());
                                proof {
                                    assert(r3sub@ =~= r3@.skip(1));
                                }
                                let next = skip_ws_exec(r3sub);
                                proof {
                                    lemma_parse_str_body_len(s@.skip(1));
                                    lemma_skip_ws_len(rem@);
                                    lemma_skip_ws_len(r1@.skip(1));
                                    lemma_parse_value_len(vstart@);
                                    lemma_skip_ws_len(r2@);
                                    lemma_skip_ws_len(r3@.skip(1));
                                }
                                match parse_members_exec(next) {
                                    Some((ms, r4)) => {
                                        let mut ms2 = ms;
                                        let ghost msview = pairs_view(ms2);
                                        ms2.insert(0, (k, v));
                                        proof {
                                            assert(pairs_view(ms2) =~= seq![
                                                (ms2@[0].0@, ms2@[0].1@),
                                            ].add(msview));
                                        }
                                        Some((ms2, r4))
                                    },
                                    None => None,
                                }
                            } else if r3.len() > 0 && r3[0] == 125 {
                                let r4 = slice_subrange(r3, 1, r3.len());
                                proof {
                                    assert(r4@ =~= r3@.skip(1));
                                }
                                let mut one: JsonPairs = Vec::new();
                                one.push((k, v));
                                proof {
                                    assert(pairs_view(one) =~= seq![(one@[0].0@, one@[0].1@)]);
                                }
                                Some((one, r4))
                            } else {
                                None
                            }
                        },
                        None => None,
                    }
                } else {
                    None
                }
            },
            None => None,
        }
    } else {
        None
    }
}

/// Parses a whole input as one object of the accepted subset; yields its
/// members in source order.
pub fn parse_json_obj_exec(s: &[u8]) -> (r: Option<JsonPairs>)
    ensures
        match r {
            Some(ms) => parse_json_obj(s@) == Some(pairs_view(ms)),
            None => parse_json_obj(s@) is None,
        },
{
    let t = skip_ws_exec(s);
    if t.len() > 0 && t[0] == 123 {
        let tsub = slice_subrange(t, 1, t.len());
        proof {
            assert(tsub@ =~= t@.skip(1));
        }
        let u = skip_ws_exec(tsub);
        if u.len() > 0 && u[0] == 125 {
            let usub = slice_subrange(u, 1, u.len());
            proof {
                assert(usub@ =~= u@.skip(1));
            }
            let rest = skip_ws_exec(usub);
            if rest.len() == 0 {
                let none: JsonPairs = Vec::new();
                proof {
                    assert(pairs_view(none) =~= Seq::<(Seq<u8>, JsonValS)>::empty());
                }
                Some(none)
            } else {
                None
            }
        } else {
            match parse_members_exec(u) {
                Some((ms, rem)) => {
                    let rest = skip_ws_exec(rem);
                    if rest.len() == 0 {
                        Some(ms)
                    } else {
                        None
                    }
                },
                None => None,
            }
        }
    } else {
        None
    }
}

/// Escaping distributes over concatenation.
pub proof fn lemma_escape_bytes_concat(a: Seq<u8>, b: Seq<u8>)
    ensures
        escape_bytes(a.add(b)) == escape_bytes(a).add(escape_bytes(b)),
    decreases a.len(),
{
    if a.len() == 0 {
        assert(a.add(b) =~= b);
        assert(escape_bytes(a).add(escape_bytes(b)) =~= escape_bytes(b));
    } else {
        lemma_escape_bytes_concat(a.skip(1), b);
        assert(a.add(b).skip(1) =~= a.skip(1).add(b));
        assert(a.add(b)[0] == a[0]);
        assert(escape_byte(a[0]).add(escape_bytes(a.skip(1)).add(escape_bytes(b)))
            =~= escape_byte(a[0]).add(escape_bytes(a.skip(1))).add(escape_bytes(b)));
    }
}

/// Appending one item extends the written items by a comma and the item.
pub proof fn lemma_ser_arr_items_push(a: Seq<Seq<u8>>, x: Seq<u8>)
    requires
        a.len() >= 1,
    ensures
        ser_arr_items(a.push(x)) == ser_arr_items(a).add(seq![44u8]).add(ser_str(x)),
    decreases a.len(),
{
    if a.len() == 1 {
        assert(a.push(x)[0] == a[0]);
        assert(a.push(x).skip(1) =~= seq![x]);
        assert(ser_arr_items(seq![x]) == ser_str(x));
        assert(ser_arr_items(a.push(x)) =~= ser_arr_items(a).add(seq![44u8]).add(ser_str(x)));
    } else {
        lemma_ser_arr_items_push(a.skip(1), x);
        assert(a.push(x)[0] == a[0]);
        assert(a.push(x).skip(1) =~= a.skip(1).push(x));
        assert(ser_arr_items(a.push(x)) =~= ser_arr_items(a).add(seq![44u8]).add(ser_str(x)));
    }
}

/// Appending one member extends the written members by a comma and the
/// member.
pub proof fn lemma_ser_members_push(ms: JsonPairsS, m: (Seq<u8>, JsonValS))
    requires
        ms.len() >= 1,
    ensures
        ser_members(ms.push(m)) == ser_members(ms).add(seq![44u8]).add(ser_member(m)),
    decreases ms.len(),
{
    if ms.len() == 1 {
        assert(ms.push(m)[0] == ms[0]);
        assert(ms.push(m).skip(1) =~= seq![m]);
        assert(ser_members(seq![m]) == ser_member(m));
        assert(ser_members(ms.push(m)) =~= ser_members(ms).add(seq![44u8]).add(ser_member(m)));
    } else {
        lemma_ser_members_push(ms.skip(1), m);
        assert(ms.push(m)[0] == ms[0]);
        assert(ms.push(m).skip(1) =~= ms.skip(1).push(m));
        assert(ser_members(ms.push(m)) =~= ser_members(ms).add(seq![44u8]).add(ser_member(m)));
    }
}

/// Appends a byte slice to an output buffer.
fn push_bytes(out: &mut Vec<u8>, s: &[u8])
    ensures
        final(out)@ == old(out)@.add(s@),
{
    let mut v = slice_to_vec(s);
    out.append(&mut v);
}

/// Appends the escaped form of one byte.
fn push_escape_byte(out: &mut Vec<u8>, b: u8)
    ensures
        final(out)@ == old(out)@.add(escape_byte(b)),
{
    if b == 34 {
        out.push(92);
        out.push(34);
    } else if b == 92 {
        out.push(92);
        out.push(92);
    } else if b == 8 {
        out.push(92);
        out.push(98);
    } else if b == 12 {
        out.push(92);
        out.push(102);
    } else if b == 10 {
        out.push(92);
        out.push(110);
    } else if b == 13 {
        out.push(92);
        out.push(114);
    } else if b == 9 {
        out.push(92);
        out.push(116);
    } else if b < 32 {
        let hi = b / 16;
        let lo = b % 16;
        let d1: u8 = if hi < 10 {
            48 + hi
        } else {
            87 + hi
        };
        let d2: u8 = if lo < 10 {
            48 + lo
        } else {
            87 + lo
        };
        out.push(92);
        out.push(117);
        out.push(48);
        out.push(48);
        out.push(d1);
        out.push(d2);
        proof {
            assert(d1 == hex_digit(b as int / 16) && d2 == hex_digit(b as int % 16));
            assert(final(out)@ =~= old(out)@.add(escape_byte(b)));
        }
    } else {
        out.push(b);
    }
    proof {
        assert(final(out)@ =~= old(out)@.add(escape_byte(b)));
    }
}

/// Appends a string value: quote, escaped content, quote.
pub fn push_ser_str(out: &mut Vec<u8>, s: &[u8])
    ensures
        final(out)@ == old(out)@.add(ser_str(s@)),
{
    out.push(34);
    let ghost start = out@;
    let mut i: usize = 0;
    proof {
        assert(s@.take(0) =~= Seq::<u8>::empty());
        assert(out@ =~= start.add(escape_bytes(s@.take(0))));
    }
    while i < s.len()
        invariant
            0 <= i <= s@.len(),
            out@ == start.add(escape_bytes(s@.take(i as int))),
        decreases s@.len() - i,
    {
        push_escape_byte(out, s[i]);
        proof {
            lemma_escape_bytes_concat(s@.take(i as int), seq![s@[i as int]]);
            assert(s@.take(i as int + 1) =~= s@.take(i as int).add(seq![s@[i as int]]));
            let ghost single = seq![s@[i as int]];
            assert(single.skip(1) =~= Seq::<u8>::empty());
            assert(escape_bytes(Seq::<u8>::empty()) =~= Seq::<u8>::empty());
            assert(escape_bytes(single.skip(1)) == escape_bytes(Seq::<u8>::empty()));
            assert(escape_bytes(single) =~= escape_byte(s@[i as int]));
        }
        i = i + 1;
    }
    out.push(34);
    proof {
        assert(s@.take(s@.len() as int) =~= s@);
        assert(final(out)@ =~= old(out)@.add(ser_str(s@)));
    }
}

/// Appends one value in canonical form.
pub fn push_ser_val(out: &mut Vec<u8>, v: &JsonVal)
    ensures
        final(out)@ == old(out)@.add(ser_val(v@)),
{
    match v {
        JsonVal::Null => {
            out.push(110);
            out.push(117);
            out.push(108);
            out.push(108);
            proof {
                assert(final(out)@ =~= old(out)@.add(ser_val(v@)));
            }
        },
        JsonVal::Bool(b) => {
            if *b {
                out.push(116);
                out.push(114);
                out.push(117);
                out.push(101);
            } else {
                out.push(102);
                out.push(97);
                out.push(108);
                out.push(115);
                out.push(101);
            }
            proof {
                assert(final(out)@ =~= old(out)@.add(ser_val(v@)));
            }
        },
        JsonVal::Num(n) => {
            push_bytes(out, n.as_slice());
        },
        JsonVal::Str(t) => {
            push_ser_str(out, t.as_slice());
        },
        JsonVal::StrArr(a) => {
            out.push(91);
            let ghost start = out@;
            let ghost aview = a@.map_values(|e: Vec<u8>| e@);
            if a.len() > 0 {
                push_ser_str(out, a[0].as_slice());
                proof {
                    assert(ser_arr_items(aview.take(1)) =~= ser_str(aview[0]));
                    assert(out@ =~= start.add(ser_arr_items(aview.take(1))));
                }
                let mut i: usize = 1;
                while i < a.len()
                    invariant
                        1 <= i <= a@.len(),
                        aview == a@.map_values(|e: Vec<u8>| e@),
                        out@ == start.add(ser_arr_items(aview.take(i as int))),
                    decreases a@.len() - i,
                {
                    out.push(44);
                    push_ser_str(out, a[i].as_slice());
                    proof {
                        lemma_ser_arr_items_push(aview.take(i as int), aview[i as int]);
                        assert(aview.take(i as int + 1) =~= aview.take(i as int).push(
                            aview[i as int],
                        ));
                    }
                    i = i + 1;
                }
                proof {
                    assert(aview.take(aview.len() as int) =~= aview);
                }
            }
            out.push(93);
            proof {
                assert(final(out)@ =~= old(out)@.add(ser_val(v@)));
            }
        },
    }
}

/// Writes an object's members in canonical form: the canonical
/// serialization of the codec.
pub fn ser_obj_exec(ms: &JsonPairs) -> (r: Vec<u8>)
    ensures
        r@ == ser_obj(pairs_view(*ms)),
{
    let mut out: Vec<u8> = Vec::new();
    out.push(123);
    let ghost start = out@;
    let ghost mview = pairs_view(*ms);
    if ms.len() > 0 {
        push_ser_str(&mut out, ms[0].0.as_slice());
        out.push(58);
        push_ser_val(&mut out, &ms[0].1);
        proof {
            assert(ser_members(mview.take(1)) =~= ser_member(mview[0]));
            assert(out@ =~= start.add(ser_members(mview.take(1))));
        }
        let mut i: usize = 1;
        while i < ms.len()
            invariant
                1 <= i <= ms@.len(),
                mview == pairs_view(*ms),
                out@ == start.add(ser_members(mview.take(i as int))),
            decreases ms@.len() - i,
        {
            out.push(44);
            push_ser_str(&mut out, ms[i].0.as_slice());
            out.push(58);
            push_ser_val(&mut out, &ms[i].1);
            proof {
                lemma_ser_members_push(mview.take(i as int), mview[i as int]);
                assert(mview.take(i as int + 1) =~= mview.take(i as int).push(mview[i as int]));
                assert(out@ =~= start.add(ser_members(mview.take(i as int + 1))));
            }
            i = i + 1;
        }
        proof {
            assert(mview.take(mview.len() as int) =~= mview);
        }
    }
    out.push(125);
    proof {
        assert(out@ =~= ser_obj(mview));
    }
    out
}

} // verus!
