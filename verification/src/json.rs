//! JSON values, a verified printer and a verified parser.
//!
//! JSON is the wire shape of everything this shell exchanges with the
//! embedded scripting engine and with the remote model: tool parameter
//! schemas, tool-call arguments, the configuration exported by a script,
//! request bodies and response bodies. The type [`Json`] holds such a value;
//! [`write_json`] prints it; [`parse_json`] reads one back. Printing and
//! parsing are inverse to each other on well-formed values
//! ([`crate::roundtrip::lemma_parse_of_ser`]).
//!
//! Text is handled as bytes. A string value stores its decoded bytes (escape
//! sequences resolved); a number stores its literal spelling, so that reading
//! and re-printing a value never changes a number's meaning.

use vstd::prelude::*;

verus! {

/// Mathematical model of a JSON value.
///
/// `Num` carries the literal spelling of the number; `Str` carries the
/// decoded bytes of the string; `Obj` keeps its members in order, duplicates
/// and all, so a value models exactly what a text said.
#[verifier::ext_equal]
pub enum JsonVal {
    Null,
    Bool(bool),
    Num(Seq<u8>),
    Str(Seq<u8>),
    Arr(Seq<JsonVal>),
    Obj(Seq<(Seq<u8>, JsonVal)>),
}

/// A JSON value as executable data. Its view is a [`JsonVal`].
#[verifier::ext_equal]
pub enum Json {
    Null,
    Bool(bool),
    Num(Vec<u8>),
    Str(Vec<u8>),
    Arr(Vec<Json>),
    Obj(Vec<(Vec<u8>, Json)>),
}

/// The model of one executable value.
pub open spec fn view_of(j: Json) -> JsonVal
    decreases j,
{
    match j {
        Json::Null => JsonVal::Null,
        Json::Bool(b) => JsonVal::Bool(b),
        Json::Num(t) => JsonVal::Num(t@),
        Json::Str(t) => JsonVal::Str(t@),
        Json::Arr(a) => JsonVal::Arr(view_seq(a@)),
        Json::Obj(m) => JsonVal::Obj(view_members(m@)),
    }
}

/// The element-wise model of a sequence of values.
pub open spec fn view_seq(a: Seq<Json>) -> Seq<JsonVal>
    decreases a,
{
    if a.len() == 0 {
        Seq::empty()
    } else {
        seq![view_of(a[0])] + view_seq(a.subrange(1, a.len() as int))
    }
}

/// The element-wise model of a sequence of object members.
pub open spec fn view_members(m: Seq<(Vec<u8>, Json)>) -> Seq<(Seq<u8>, JsonVal)>
    decreases m,
{
    if m.len() == 0 {
        Seq::empty()
    } else {
        seq![(m[0].0@, view_of(m[0].1))] + view_members(m.subrange(1, m.len() as int))
    }
}

impl View for Json {
    type V = JsonVal;

    open spec fn view(&self) -> JsonVal {
        view_of(*self)
    }
}

/// A sequence of values and its model have the same length.
pub broadcast proof fn lemma_view_seq_len(a: Seq<Json>)
    ensures
        #[trigger] view_seq(a).len() == a.len(),
    decreases a,
{
    if a.len() > 0 {
        lemma_view_seq_len(a.subrange(1, a.len() as int));
    }
}

/// The model of a sequence of values, taken element by element.
pub broadcast proof fn lemma_view_seq_index(a: Seq<Json>, i: int)
    requires
        0 <= i < a.len(),
    ensures
        #[trigger] view_seq(a)[i] == a[i]@,
    decreases a,
{
    lemma_view_seq_len(a);
    if i > 0 {
        lemma_view_seq_index(a.subrange(1, a.len() as int), i - 1);
    }
}

/// A sequence of members and its model have the same length.
pub broadcast proof fn lemma_view_members_len(m: Seq<(Vec<u8>, Json)>)
    ensures
        #[trigger] view_members(m).len() == m.len(),
    decreases m,
{
    if m.len() > 0 {
        lemma_view_members_len(m.subrange(1, m.len() as int));
    }
}

/// The model of a sequence of members, taken element by element.
pub broadcast proof fn lemma_view_members_index(m: Seq<(Vec<u8>, Json)>, i: int)
    requires
        0 <= i < m.len(),
    ensures
        #[trigger] view_members(m)[i] == (m[i].0@, m[i].1@),
    decreases m,
{
    lemma_view_members_len(m);
    if i > 0 {
        lemma_view_members_index(m.subrange(1, m.len() as int), i - 1);
    }
}

/// The low hex digit for `n`, which must be below 16.
pub open spec fn hex_digit(n: u8) -> u8 {
    if n < 10 {
        (0x30 + n) as u8
    } else {
        (0x57 + n) as u8
    }
}

/// How one byte of a string value is printed: `"` and `\` get a backslash,
/// control bytes become a `\u00XX` escape, everything else stands as itself.
pub open spec fn ser_str_byte(b: u8) -> Seq<u8> {
    if b == 0x22 {
        seq![0x5c, 0x22]
    } else if b == 0x5c {
        seq![0x5c, 0x5c]
    } else if b < 0x20 {
        seq![0x5c, 0x75, 0x30, 0x30, hex_digit(b / 16), hex_digit(b % 16)]
    } else {
        seq![b]
    }
}

/// The printed body of a string value, byte by byte.
pub open spec fn ser_str_body(t: Seq<u8>) -> Seq<u8>
    decreases t.len(),
{
    if t.len() == 0 {
        Seq::empty()
    } else {
        ser_str_byte(t[0]) + ser_str_body(t.skip(1))
    }
}

/// The printed items of an array, separated by commas.
pub open spec fn ser_items(a: Seq<JsonVal>) -> Seq<u8>
    decreases a,
{
    if a.len() == 0 {
        Seq::empty()
    } else if a.len() == 1 {
        ser(a[0])
    } else {
        ser(a[0]) + seq![0x2c] + ser_items(a.subrange(1, a.len() as int))
    }
}

/// The printed members of an object, `"key":value`, separated by commas.
pub open spec fn ser_members(m: Seq<(Seq<u8>, JsonVal)>) -> Seq<u8>
    decreases m,
{
    if m.len() == 0 {
        Seq::empty()
    } else if m.len() == 1 {
        ser_member(m[0])
    } else {
        ser_member(m[0]) + seq![0x2c] + ser_members(m.subrange(1, m.len() as int))
    }
}

/// One printed object member.
pub open spec fn ser_member(p: (Seq<u8>, JsonVal)) -> Seq<u8>
    decreases p,
{
    seq![0x22] + ser_str_body(p.0) + seq![0x22, 0x3a] + ser(p.1)
}

/// The compact printed form of a value: no added whitespace.
pub open spec fn ser(v: JsonVal) -> Seq<u8>
    decreases v,
{
    match v {
        JsonVal::Null => seq![0x6e, 0x75, 0x6c, 0x6c],
        JsonVal::Bool(b) => if b {
            seq![0x74, 0x72, 0x75, 0x65]
        } else {
            seq![0x66, 0x61, 0x6c, 0x73, 0x65]
        },
        JsonVal::Num(t) => t,
        JsonVal::Str(t) => seq![0x22] + ser_str_body(t) + seq![0x22],
        JsonVal::Arr(a) => seq![0x5b] + ser_items(a) + seq![0x5d],
        JsonVal::Obj(m) => seq![0x7b] + ser_members(m) + seq![0x7d],
    }
}

/// Turns `n < 16` into its lower-case hex digit.
fn hex_digit_exec(n: u8) -> (r: u8)
    requires
        n < 16,
    ensures
        r == hex_digit(n),
{
    if n < 10 {
        0x30 + n
    } else {
        0x57 + n
    }
}

/// Appends the printed body of the string bytes `t[i..]` to `out`.
fn write_str_body(t: &Vec<u8>, i: usize, out: &mut Vec<u8>)
    requires
        i <= t.len(),
    ensures
        final(out)@ == old(out)@ + ser_str_body(t@.skip(i as int)),
    decreases t.len() - i,
{
    if i == t.len() {
        assert(t@.skip(i as int) =~= Seq::<u8>::empty());
    } else {
        let b = t[i];
        if b == 0x22 {
            out.push(0x5c);
            out.push(0x22);
        } else if b == 0x5c {
            out.push(0x5c);
            out.push(0x5c);
        } else if b < 0x20 {
            out.push(0x5c);
            out.push(0x75);
            out.push(0x30);
            out.push(0x30);
            out.push(hex_digit_exec(b / 16));
            out.push(hex_digit_exec(b % 16));
        } else {
            out.push(b);
        }
        let ghost mid = out@;
        write_str_body(t, i + 1, out);
        proof {
            assert(t@.skip(i as int)[0] == t@[i as int]);
            assert(t@.skip(i as int).skip(1) =~= t@.skip(i + 1));
            assert(mid =~= old(out)@ + ser_str_byte(t@[i as int]));
        }
    }
}

/// Appends the printed items `a[i..]` of an array, comma separated, to `out`.
fn write_items(a: &Vec<Json>, i: usize, out: &mut Vec<u8>)
    requires
        i <= a.len(),
    ensures
        final(out)@ == old(out)@ + ser_items(view_seq(a@).skip(i as int)),
    decreases a, a.len() - i,
{
    broadcast use lemma_view_seq_len, lemma_view_seq_index;

    let ghost s = view_seq(a@).skip(i as int);
    if i == a.len() {
        assert(s =~= Seq::<JsonVal>::empty());
    } else {
        write_json_onto(&a[i], out);
        let ghost mid = out@;
        proof {
            assert(s[0] == a@[i as int]@);
        }
        if i + 1 == a.len() {
            assert(s.len() == 1);
        } else {
            out.push(0x2c);
            let ghost mid2 = out@;
            write_items(a, i + 1, out);
            proof {
                assert(s.subrange(1, s.len() as int) =~= view_seq(a@).skip(i + 1));
                assert(mid2 =~= old(out)@ + ser(s[0]) + seq![0x2c_u8]);
            }
        }
    }
}

/// Appends the printed members `m[i..]` of an object, comma separated, to `out`.
fn write_obj_members(m: &Vec<(Vec<u8>, Json)>, i: usize, out: &mut Vec<u8>)
    requires
        i <= m.len(),
    ensures
        final(out)@ == old(out)@ + ser_members(view_members(m@).skip(i as int)),
    decreases m, m.len() - i,
{
    broadcast use lemma_view_members_len, lemma_view_members_index;

    let ghost s = view_members(m@).skip(i as int);
    if i == m.len() {
        assert(s =~= Seq::<(Seq<u8>, JsonVal)>::empty());
    } else {
        out.push(0x22);
        write_str_body(&m[i].0, 0, out);
        out.push(0x22);
        out.push(0x3a);
        write_json_onto(&m[i].1, out);
        let ghost mid = out@;
        proof {
            assert(m@[i as int].0@.skip(0) =~= m@[i as int].0@);
            assert(s[0] == (m@[i as int].0@, m@[i as int].1@));
            assert(mid =~= old(out)@ + ser_member(s[0]));
        }
        if i + 1 == m.len() {
            assert(s.len() == 1);
        } else {
            out.push(0x2c);
            let ghost mid2 = out@;
            write_obj_members(m, i + 1, out);
            proof {
                assert(s.subrange(1, s.len() as int) =~= view_members(m@).skip(i + 1));
                assert(mid2 =~= old(out)@ + ser_member(s[0]) + seq![0x2c_u8]);
            }
        }
    }
}

/// Appends the printed form of `v` to `out`.
pub fn write_json_onto(v: &Json, out: &mut Vec<u8>)
    ensures
        final(out)@ == old(out)@ + ser(v@),
    decreases v,
{
    match v {
        Json::Null => {
            out.push(0x6e);
            out.push(0x75);
            out.push(0x6c);
            out.push(0x6c);
            proof {
                assert(out@ =~= old(out)@ + seq![0x6e_u8, 0x75, 0x6c, 0x6c]);
            }
        },
        Json::Bool(b) => {
            if *b {
                out.push(0x74);
                out.push(0x72);
                out.push(0x75);
                out.push(0x65);
                proof {
                    assert(out@ =~= old(out)@ + seq![0x74_u8, 0x72, 0x75, 0x65]);
                }
            } else {
                out.push(0x66);
                out.push(0x61);
                out.push(0x6c);
                out.push(0x73);
                out.push(0x65);
                proof {
                    assert(out@ =~= old(out)@ + seq![0x66_u8, 0x61, 0x6c, 0x73, 0x65]);
                }
            }
        },
        Json::Num(t) => {
            let mut j: usize = 0;
            while j < t.len()
                invariant
                    j <= t.len(),
                    out@ == old(out)@ + t@.take(j as int),
                decreases t.len() - j,
            {
                out.push(t[j]);
                proof {
                    assert(t@.take(j + 1) =~= t@.take(j as int) + seq![t@[j as int]]);
                }
                j = j + 1;
            }
            proof {
                assert(t@.take(t@.len() as int) =~= t@);
            }
        },
        Json::Str(t) => {
            out.push(0x22);
            write_str_body(t, 0, out);
            out.push(0x22);
            proof {
                assert(t@.skip(0) =~= t@);
            }
        },
        Json::Arr(a) => {
            out.push(0x5b);
            write_items(a, 0, out);
            out.push(0x5d);
            proof {
                assert(view_seq(a@).skip(0) =~= view_seq(a@));
            }
        },
        Json::Obj(m) => {
            out.push(0x7b);
            write_obj_members(m, 0, out);
            out.push(0x7d);
            proof {
                assert(view_members(m@).skip(0) =~= view_members(m@));
            }
        },
    }
}

/// The printed form of `v` as a fresh byte vector.
pub fn write_json(v: &Json) -> (r: Vec<u8>)
    ensures
        r@ == ser(v@),
{
    let mut out: Vec<u8> = Vec::new();
    write_json_onto(v, &mut out);
    out
}

/// JSON insignificant whitespace: space, tab, line feed, carriage return.
pub open spec fn is_ws(b: u8) -> bool {
    b == 0x20 || b == 0x09 || b == 0x0a || b == 0x0d
}

/// An ASCII decimal digit.
pub open spec fn is_digit(b: u8) -> bool {
    0x30 <= b <= 0x39
}

/// An ASCII hexadecimal digit, either case.
pub open spec fn is_hex(b: u8) -> bool {
    is_digit(b) || (0x41 <= b <= 0x46) || (0x61 <= b <= 0x66)
}

/// The value of a hexadecimal digit.
pub open spec fn hex_val(b: u8) -> int {
    if is_digit(b) {
        b - 0x30
    } else if 0x41 <= b <= 0x46 {
        b - 0x37
    } else {
        b - 0x57
    }
}

/// The rest of `s` once leading whitespace is gone.
pub open spec fn sp_ws(s: Seq<u8>) -> Seq<u8>
    decreases s.len(),
{
    if s.len() > 0 && is_ws(s[0]) {
        sp_ws(s.skip(1))
    } else {
        s
    }
}

/// Skipping whitespace leaves a suffix of `s`.
pub proof fn lemma_sp_ws_len(s: Seq<u8>)
    ensures
        sp_ws(s).len() <= s.len(),
        sp_ws(s) == s.skip(s.len() - sp_ws(s).len()),
    decreases s.len(),
{
    if s.len() > 0 && is_ws(s[0]) {
        lemma_sp_ws_len(s.skip(1));
        assert(s.skip(1).skip(s.skip(1).len() - sp_ws(s.skip(1)).len()) =~= s.skip(
            s.len() - sp_ws(s).len(),
        ));
    } else {
        assert(s.skip(0) =~= s);
    }
}

/// The UTF-8 encoding of the code point `c`.
pub open spec fn utf8_enc(c: int) -> Seq<u8> {
    if c < 0x80 {
        seq![c as u8]
    } else if c < 0x800 {
        seq![(0xc0 + c / 0x40) as u8, (0x80 + c % 0x40) as u8]
    } else if c < 0x10000 {
        seq![(0xe0 + c / 0x1000) as u8, (0x80 + (c / 0x40) % 0x40) as u8, (0x80 + c % 0x40) as u8]
    } else {
        seq![
            (0xf0 + c / 0x40000) as u8,
            (0x80 + (c / 0x1000) % 0x40) as u8,
            (0x80 + (c / 0x40) % 0x40) as u8,
            (0x80 + c % 0x40) as u8,
        ]
    }
}

/// The numeric value of four hexadecimal digits.
pub open spec fn hex4_val(a: u8, b: u8, c: u8, d: u8) -> int {
    hex_val(a) * 0x1000 + hex_val(b) * 0x100 + hex_val(c) * 0x10 + hex_val(d)
}

/// Prefixes the decoded bytes `pre` onto the content of a string-body parse.
pub open spec fn str_prepend(pre: Seq<u8>, r: Option<(Seq<u8>, Seq<u8>)>) -> Option<
    (Seq<u8>, Seq<u8>),
> {
    match r {
        Option::None => Option::None,
        Option::Some((c, rest)) => Option::Some((pre + c, rest)),
    }
}

/// Reads a string body up to and over its closing quote, starting just after
/// the opening quote. Yields the decoded content bytes and the rest of the
/// text. Escapes are resolved; a `\uXXXX` escape becomes the UTF-8 bytes of
/// its code point, with surrogate pairs combined; control bytes and malformed
/// escapes are refused.
pub open spec fn sp_string_body(s: Seq<u8>) -> Option<(Seq<u8>, Seq<u8>)>
    decreases s.len(),
{
    if s.len() == 0 {
        Option::None
    } else if s[0] == 0x22 {
        Option::Some((Seq::empty(), s.skip(1)))
    } else if s[0] == 0x5c {
        if s.len() < 2 {
            Option::None
        } else {
            let e = s[1];
            if e == 0x22 || e == 0x5c || e == 0x2f {
                str_prepend(seq![e], sp_string_body(s.skip(2)))
            } else if e == 0x62 {
                str_prepend(seq![0x08], sp_string_body(s.skip(2)))
            } else if e == 0x66 {
                str_prepend(seq![0x0c], sp_string_body(s.skip(2)))
            } else if e == 0x6e {
                str_prepend(seq![0x0a], sp_string_body(s.skip(2)))
            } else if e == 0x72 {
                str_prepend(seq![0x0d], sp_string_body(s.skip(2)))
            } else if e == 0x74 {
                str_prepend(seq![0x09], sp_string_body(s.skip(2)))
            } else if e == 0x75 {
                if s.len() < 6 || !(is_hex(s[2]) && is_hex(s[3]) && is_hex(s[4]) && is_hex(s[5])) {
                    Option::None
                } else {
                    let cp = hex4_val(s[2], s[3], s[4], s[5]);
                    if 0xd800 <= cp < 0xdc00 {
                        if s.len() < 12 || s[6] != 0x5c || s[7] != 0x75 || !(is_hex(s[8]) && is_hex(
                            s[9],
                        ) && is_hex(s[10]) && is_hex(s[11])) {
                            Option::None
                        } else {
                            let cp2 = hex4_val(s[8], s[9], s[10], s[11]);
                            if 0xdc00 <= cp2 < 0xe000 {
                                str_prepend(
                                    utf8_enc(0x10000 + (cp - 0xd800) * 0x400 + (cp2 - 0xdc00)),
                                    sp_string_body(s.skip(12)),
                                )
                            } else {
                                Option::None
                            }
                        }
                    } else if 0xdc00 <= cp < 0xe000 {
                        Option::None
                    } else {
                        str_prepend(utf8_enc(cp), sp_string_body(s.skip(6)))
                    }
                }
            } else {
                Option::None
            }
        }
    } else if s[0] < 0x20 {
        Option::None
    } else {
        str_prepend(seq![s[0]], sp_string_body(s.skip(1)))
    }
}

/// A parsed string body leaves a strictly shorter suffix of `s`.
#[verifier::rlimit(100)]
pub proof fn lemma_sp_string_body_len(s: Seq<u8>)
    ensures
        sp_string_body(s) matches Option::Some(p) ==> p.1.len() < s.len() && p.1 == s.skip(
            s.len() - p.1.len(),
        ),
    decreases s.len(),
{
    if s.len() == 0 || s[0] == 0x22 {
    } else if s[0] == 0x5c && s.len() >= 2 {
        let e = s[1];
        if e == 0x75 {
            if s.len() >= 6 && is_hex(s[2]) && is_hex(s[3]) && is_hex(s[4]) && is_hex(s[5]) {
                let cp = hex4_val(s[2], s[3], s[4], s[5]);
                if 0xd800 <= cp < 0xdc00 {
                    if s.len() >= 12 {
                        lemma_sp_string_body_len(s.skip(12));
                        if let Option::Some(p) = sp_string_body(s.skip(12)) {
                            assert(s.skip(12).skip(s.skip(12).len() - p.1.len()) =~= s.skip(
                                s.len() - p.1.len(),
                            ));
                        }
                    }
                } else {
                    lemma_sp_string_body_len(s.skip(6));
                    if let Option::Some(p) = sp_string_body(s.skip(6)) {
                        assert(s.skip(6).skip(s.skip(6).len() - p.1.len()) =~= s.skip(
                            s.len() - p.1.len(),
                        ));
                    }
                }
            }
        } else {
            lemma_sp_string_body_len(s.skip(2));
            if let Option::Some(p) = sp_string_body(s.skip(2)) {
                assert(s.skip(2).skip(s.skip(2).len() - p.1.len()) =~= s.skip(s.len() - p.1.len()));
            }
        }
    } else if s.len() >= 1 && s[0] >= 0x20 && s[0] != 0x22 && s[0] != 0x5c {
        lemma_sp_string_body_len(s.skip(1));
        if let Option::Some(p) = sp_string_body(s.skip(1)) {
            assert(s.skip(1).skip(s.skip(1).len() - p.1.len()) =~= s.skip(s.len() - p.1.len()));
        }
    }
}

/// Splits `s` into its leading run of decimal digits and the rest.
pub open spec fn sp_digits(s: Seq<u8>) -> (Seq<u8>, Seq<u8>)
    decreases s.len(),
{
    if s.len() > 0 && is_digit(s[0]) {
        let (d, r) = sp_digits(s.skip(1));
        (seq![s[0]] + d, r)
    } else {
        (Seq::empty(), s)
    }
}


/// The optional leading minus sign of a number literal.
pub open spec fn sp_sign(s: Seq<u8>) -> (Seq<u8>, Seq<u8>) {
    if s.len() > 0 && s[0] == 0x2d {
        (seq![0x2d], s.skip(1))
    } else {
        (Seq::empty(), s)
    }
}

/// The integer part of a number literal: `0`, or digits with no leading zero.
pub open spec fn sp_int_part(s: Seq<u8>) -> Option<(Seq<u8>, Seq<u8>)> {
    if s.len() == 0 || !is_digit(s[0]) {
        Option::None
    } else if s[0] == 0x30 {
        Option::Some((seq![0x30], s.skip(1)))
    } else {
        Option::Some(sp_digits(s))
    }
}

/// The optional fraction part: a point followed by digits.
pub open spec fn sp_frac_part(s: Seq<u8>) -> (Seq<u8>, Seq<u8>) {
    if s.len() >= 2 && s[0] == 0x2e && is_digit(s[1]) {
        let (d, r) = sp_digits(s.skip(1));
        (seq![0x2e] + d, r)
    } else {
        (Seq::empty(), s)
    }
}

/// The optional exponent part: `e` or `E`, an optional sign, then digits.
pub open spec fn sp_exp_part(s: Seq<u8>) -> (Seq<u8>, Seq<u8>) {
    if s.len() >= 2 && (s[0] == 0x65 || s[0] == 0x45) && is_digit(s[1]) {
        let (d, r) = sp_digits(s.skip(1));
        (s.take(1) + d, r)
    } else if s.len() >= 3 && (s[0] == 0x65 || s[0] == 0x45) && (s[1] == 0x2b || s[1] == 0x2d)
        && is_digit(s[2]) {
        let (d, r) = sp_digits(s.skip(2));
        (s.take(2) + d, r)
    } else {
        (Seq::empty(), s)
    }
}

/// Reads a number literal from the head of `s`: an optional minus, an
/// integer part with no leading zero, then optional fraction and exponent
/// parts. Yields the literal spelling and the rest of the text.
pub open spec fn sp_number(s: Seq<u8>) -> Option<(Seq<u8>, Seq<u8>)> {
    let (msign, s1) = sp_sign(s);
    match sp_int_part(s1) {
        Option::None => Option::None,
        Option::Some((ipart, s2)) => {
            let (fpart, s3) = sp_frac_part(s2);
            let (epart, s4) = sp_exp_part(s3);
            Option::Some((msign + ipart + fpart + epart, s4))
        },
    }
}






/// Keeps `r` when it is shorter than `s`; a termination guard for the
/// mutually recursive parser below, shown inert by the exec parser's
/// strict advance.
pub open spec fn shorter_of(r: Seq<u8>, s: Seq<u8>) -> Seq<u8> {
    if r.len() < s.len() {
        r
    } else {
        s.skip(1)
    }
}

/// Reads one JSON value from the head of `s`, yielding it and the rest of
/// the text. The head byte must begin the value: whitespace is skipped
/// inside brackets and by the top-level reader, not here.
pub open spec fn sp_value(s: Seq<u8>) -> Option<(JsonVal, Seq<u8>)>
    decreases s.len(), 0int,
{
    if s.len() == 0 {
        Option::None
    } else if s[0] == 0x22 {
        match sp_string_body(s.skip(1)) {
            Option::None => Option::None,
            Option::Some((c, r)) => Option::Some((JsonVal::Str(c), r)),
        }
    } else if s[0] == 0x5b {
        proof {
            lemma_sp_ws_len(s.skip(1));
        }
        let t = sp_ws(s.skip(1));
        if t.len() > 0 && t[0] == 0x5d {
            Option::Some((JsonVal::Arr(Seq::empty()), t.skip(1)))
        } else {
            match sp_items(t) {
                Option::None => Option::None,
                Option::Some((vs, r)) => Option::Some((JsonVal::Arr(vs), r)),
            }
        }
    } else if s[0] == 0x7b {
        proof {
            lemma_sp_ws_len(s.skip(1));
        }
        let t = sp_ws(s.skip(1));
        if t.len() > 0 && t[0] == 0x7d {
            Option::Some((JsonVal::Obj(Seq::empty()), t.skip(1)))
        } else {
            match sp_mems(t) {
                Option::None => Option::None,
                Option::Some((ms, r)) => Option::Some((JsonVal::Obj(ms), r)),
            }
        }
    } else if s[0] == 0x74 {
        if s.len() >= 4 && s[1] == 0x72 && s[2] == 0x75 && s[3] == 0x65 {
            Option::Some((JsonVal::Bool(true), s.skip(4)))
        } else {
            Option::None
        }
    } else if s[0] == 0x66 {
        if s.len() >= 5 && s[1] == 0x61 && s[2] == 0x6c && s[3] == 0x73 && s[4] == 0x65 {
            Option::Some((JsonVal::Bool(false), s.skip(5)))
        } else {
            Option::None
        }
    } else if s[0] == 0x6e {
        if s.len() >= 4 && s[1] == 0x75 && s[2] == 0x6c && s[3] == 0x6c {
            Option::Some((JsonVal::Null, s.skip(4)))
        } else {
            Option::None
        }
    } else if s[0] == 0x2d || is_digit(s[0]) {
        match sp_number(s) {
            Option::None => Option::None,
            Option::Some((lit, r)) => Option::Some((JsonVal::Num(lit), r)),
        }
    } else {
        Option::None
    }
}

/// Reads the items of a nonempty array, starting at the first item, over the
/// closing bracket. Yields the items and the rest of the text.
pub open spec fn sp_items(s: Seq<u8>) -> Option<(Seq<JsonVal>, Seq<u8>)>
    decreases s.len(), 1int,
{
    if s.len() == 0 {
        Option::None
    } else {
        match sp_value(s) {
            Option::None => Option::None,
            Option::Some((v, r0)) => {
                let r1 = shorter_of(r0, s);
                proof {
                    lemma_sp_ws_len(r1);
                }
                let r2 = sp_ws(r1);
                if r2.len() == 0 {
                    Option::None
                } else if r2[0] == 0x5d {
                    Option::Some((seq![v], r2.skip(1)))
                } else if r2[0] == 0x2c {
                    proof {
                        lemma_sp_ws_len(r2.skip(1));
                    }
                    match sp_items(sp_ws(r2.skip(1))) {
                        Option::None => Option::None,
                        Option::Some((vs, r3)) => Option::Some((seq![v] + vs, r3)),
                    }
                } else {
                    Option::None
                }
            },
        }
    }
}

/// Reads the members of a nonempty object, starting at the first key, over
/// the closing brace. Yields the members and the rest of the text.
pub open spec fn sp_mems(s: Seq<u8>) -> Option<(Seq<(Seq<u8>, JsonVal)>, Seq<u8>)>
    decreases s.len(), 1int,
{
    if s.len() == 0 || s[0] != 0x22 {
        Option::None
    } else {
        proof {
            lemma_sp_string_body_len(s.skip(1));
        }
        match sp_string_body(s.skip(1)) {
            Option::None => Option::None,
            Option::Some((k, r0)) => {
                proof {
                    lemma_sp_ws_len(r0);
                }
                let r1 = sp_ws(r0);
                if r1.len() == 0 || r1[0] != 0x3a {
                    Option::None
                } else {
                    proof {
                        lemma_sp_ws_len(r1.skip(1));
                    }
                    let r2 = sp_ws(r1.skip(1));
                    match sp_value(r2) {
                        Option::None => Option::None,
                        Option::Some((v, r3)) => {
                            let r4 = shorter_of(r3, s);
                            proof {
                                lemma_sp_ws_len(r4);
                            }
                            let r5 = sp_ws(r4);
                            if r5.len() == 0 {
                                Option::None
                            } else if r5[0] == 0x7d {
                                Option::Some((seq![(k, v)], r5.skip(1)))
                            } else if r5[0] == 0x2c {
                                proof {
                                    lemma_sp_ws_len(r5.skip(1));
                                }
                                match sp_mems(sp_ws(r5.skip(1))) {
                                    Option::None => Option::None,
                                    Option::Some((ms, r6)) => Option::Some((seq![(k, v)] + ms, r6)),
                                }
                            } else {
                                Option::None
                            }
                        },
                    }
                }
            },
        }
    }
}

/// Reads a complete JSON text: one value with whitespace around it and
/// nothing further.
pub open spec fn sp_json(s: Seq<u8>) -> Option<JsonVal> {
    match sp_value(sp_ws(s)) {
        Option::None => Option::None,
        Option::Some((v, r)) => {
            if sp_ws(r).len() == 0 {
                Option::Some(v)
            } else {
                Option::None
            }
        },
    }
}

/// Whether a byte sequence is a valid JSON text.
pub open spec fn json_text_valid(s: Seq<u8>) -> bool {
    sp_json(s) is Some
}

/// Prefixing twice is prefixing the concatenation.
pub proof fn lemma_str_prepend_assoc(a: Seq<u8>, b: Seq<u8>, x: Option<(Seq<u8>, Seq<u8>)>)
    ensures
        str_prepend(a, str_prepend(b, x)) == str_prepend(a + b, x),
{
    match x {
        Option::None => {
        },
        Option::Some((c, r)) => {
            assert(a + (b + c) =~= (a + b) + c);
        },
    }
}

/// Prefixing nothing changes nothing.
pub proof fn lemma_str_prepend_empty(x: Option<(Seq<u8>, Seq<u8>)>)
    ensures
        str_prepend(Seq::empty(), x) == x,
{
    match x {
        Option::None => {
        },
        Option::Some((c, r)) => {
            assert(Seq::empty() + c =~= c);
        },
    }
}

/// The value of one hexadecimal digit byte.
fn hex_val_exec(b: u8) -> (r: u8)
    requires
        is_hex(b),
    ensures
        r as int == hex_val(b),
        r < 16,
{
    if 0x30 <= b && b <= 0x39 {
        b - 0x30
    } else if 0x41 <= b && b <= 0x46 {
        b - 0x37
    } else {
        b - 0x57
    }
}

/// Whether a byte is a hexadecimal digit.
fn is_hex_exec(b: u8) -> (r: bool)
    ensures
        r == is_hex(b),
{
    (0x30 <= b && b <= 0x39) || (0x41 <= b && b <= 0x46) || (0x61 <= b && b <= 0x66)
}

/// Appends the UTF-8 encoding of code point `c` to `out`.
fn push_utf8(c: u32, out: &mut Vec<u8>)
    requires
        c <= 0x10ffff,
    ensures
        final(out)@ == old(out)@ + utf8_enc(c as int),
{
    if c < 0x80 {
        out.push(c as u8);
        assert(out@ =~= old(out)@ + utf8_enc(c as int));
    } else if c < 0x800 {
        out.push((0xc0 + c / 0x40) as u8);
        out.push((0x80 + c % 0x40) as u8);
        assert(out@ =~= old(out)@ + utf8_enc(c as int));
    } else if c < 0x10000 {
        out.push((0xe0 + c / 0x1000) as u8);
        out.push((0x80 + (c / 0x40) % 0x40) as u8);
        out.push((0x80 + c % 0x40) as u8);
        assert(out@ =~= old(out)@ + utf8_enc(c as int));
    } else {
        out.push((0xf0 + c / 0x40000) as u8);
        out.push((0x80 + (c / 0x1000) % 0x40) as u8);
        out.push((0x80 + (c / 0x40) % 0x40) as u8);
        out.push((0x80 + c % 0x40) as u8);
        assert(out@ =~= old(out)@ + utf8_enc(c as int));
    }
}

/// Reads the four hexadecimal digits at `s[i..i + 4]`.
fn read_hex4(s: &Vec<u8>, i: usize) -> (r: Option<u32>)
    requires
        i + 4 <= s.len(),
    ensures
        r is Some <==> is_hex(s@[i as int]) && is_hex(s@[i + 1]) && is_hex(s@[i + 2]) && is_hex(
            s@[i + 3],
        ),
        r matches Some(c) ==> c as int == hex4_val(s@[i as int], s@[i + 1], s@[i + 2], s@[i + 3])
            && c < 0x10000,
{
    let a = s[i];
    let b = s[i + 1];
    let c = s[i + 2];
    let d = s[i + 3];
    if is_hex_exec(a) && is_hex_exec(b) && is_hex_exec(c) && is_hex_exec(d) {
        let va = hex_val_exec(a) as u32;
        let vb = hex_val_exec(b) as u32;
        let vc = hex_val_exec(c) as u32;
        let vd = hex_val_exec(d) as u32;
        Some(va * 0x1000 + vb * 0x100 + vc * 0x10 + vd)
    } else {
        None
    }
}

/// Scans the low-surrogate half of a `\u` escape pair at `s[cur + 6]`,
/// appending the decoded UTF-8 bytes of the combined code point to `out`.
#[verifier::rlimit(100)]
fn parse_surrogate_tail(s: &Vec<u8>, cur: usize, cp: u32, out: &mut Vec<u8>) -> (r: Option<usize>)
    requires
        cur + 6 <= s.len(),
        s@[cur as int] == 0x5c,
        s@[cur + 1] == 0x75,
        is_hex(s@[cur + 2]) && is_hex(s@[cur + 3]) && is_hex(s@[cur + 4]) && is_hex(s@[cur + 5]),
        cp as int == hex4_val(s@[cur + 2], s@[cur + 3], s@[cur + 4], s@[cur + 5]),
        0xd800 <= cp < 0xdc00,
    ensures
        r is None ==> sp_string_body(s@.skip(cur as int)) is None,
        r matches Some(j) ==> cur < j <= s.len()
            && final(out)@.len() > old(out)@.len()
            && final(out)@.subrange(0, old(out)@.len() as int) == old(out)@
            && sp_string_body(s@.skip(cur as int)) == str_prepend(
            final(out)@.skip(old(out)@.len() as int),
            sp_string_body(s@.skip(j as int)),
        ),
{
    let ghost base = out@;
    proof {
        assert(s@.skip(cur as int)[0] == s@[cur as int]);
        assert(s@.skip(cur as int)[1] == s@[cur + 1]);
        assert(s@.skip(cur as int)[2] == s@[cur + 2]);
        assert(s@.skip(cur as int)[3] == s@[cur + 3]);
        assert(s@.skip(cur as int)[4] == s@[cur + 4]);
        assert(s@.skip(cur as int)[5] == s@[cur + 5]);
    }
    if s.len() - cur < 12 {
        proof {
            assert(s@.skip(cur as int).len() < 12);
        }
        return None;
    }
    proof {
        assert(s@.skip(cur as int)[6] == s@[cur + 6]);
        assert(s@.skip(cur as int)[7] == s@[cur + 7]);
        assert(s@.skip(cur as int)[8] == s@[cur + 8]);
        assert(s@.skip(cur as int)[9] == s@[cur + 9]);
        assert(s@.skip(cur as int)[10] == s@[cur + 10]);
        assert(s@.skip(cur as int)[11] == s@[cur + 11]);
    }
    if s[cur + 6] != 0x5c || s[cur + 7] != 0x75 {
        return None;
    }
    let cp2_opt = read_hex4(s, cur + 8);
    if cp2_opt.is_none() {
        return None;
    }
    let cp2 = cp2_opt.unwrap();
    if !(0xdc00 <= cp2 && cp2 < 0xe000) {
        return None;
    }
    let c32: u32 = 0x10000 + (cp - 0xd800) * 0x400 + (cp2 - 0xdc00);
    push_utf8(c32, out);
    proof {
        assert(s@.skip(cur as int).skip(12) =~= s@.skip(cur + 12));
        assert(sp_string_body(s@.skip(cur as int)) == str_prepend(
            utf8_enc(c32 as int),
            sp_string_body(s@.skip(cur + 12)),
        ));
        assert(out@.skip(base.len() as int) =~= utf8_enc(c32 as int));
        assert(out@.subrange(0, base.len() as int) =~= base);
    }
    Some(cur + 12)
}

/// Scans one `\u` escape (with a following low surrogate when the first
/// code unit is a high surrogate) at `s[cur]`, appending the decoded UTF-8
/// bytes to `out`. Returns the index just past the escape.
#[verifier::rlimit(100)]
fn parse_u_escape(s: &Vec<u8>, cur: usize, out: &mut Vec<u8>) -> (r: Option<usize>)
    requires
        cur + 1 < s.len(),
        s@[cur as int] == 0x5c,
        s@[cur + 1] == 0x75,
    ensures
        r is None ==> sp_string_body(s@.skip(cur as int)) is None,
        r matches Some(j) ==> cur < j <= s.len()
            && final(out)@.len() > old(out)@.len()
            && final(out)@.subrange(0, old(out)@.len() as int) == old(out)@
            && sp_string_body(s@.skip(cur as int)) == str_prepend(
            final(out)@.skip(old(out)@.len() as int),
            sp_string_body(s@.skip(j as int)),
        ),
{
    let ghost base = out@;
    proof {
        assert(s@.skip(cur as int)[0] == s@[cur as int]);
        assert(s@.skip(cur as int)[1] == s@[cur + 1]);
    }
    if s.len() - cur < 6 {
        proof {
            assert(s@.skip(cur as int).len() < 6);
        }
        return None;
    }
    proof {
        assert(s@.skip(cur as int)[2] == s@[cur + 2]);
        assert(s@.skip(cur as int)[3] == s@[cur + 3]);
        assert(s@.skip(cur as int)[4] == s@[cur + 4]);
        assert(s@.skip(cur as int)[5] == s@[cur + 5]);
    }
    let cp_opt = read_hex4(s, cur + 2);
    if cp_opt.is_none() {
        return None;
    }
    let cp = cp_opt.unwrap();
    if 0xd800 <= cp && cp < 0xdc00 {
        parse_surrogate_tail(s, cur, cp, out)
    } else if 0xdc00 <= cp && cp < 0xe000 {
        None
    } else {
        push_utf8(cp, out);
        proof {
            assert(s@.skip(cur as int).skip(6) =~= s@.skip(cur + 6));
            assert(sp_string_body(s@.skip(cur as int)) == str_prepend(
                utf8_enc(cp as int),
                sp_string_body(s@.skip(cur + 6)),
            ));
            assert(out@.skip(base.len() as int) =~= utf8_enc(cp as int));
            assert(out@.subrange(0, base.len() as int) =~= base);
        }
        Some(cur + 6)
    }
}

/// Scans the body of a quoted string starting at `s[i]` (just past the
/// opening quote), appending the decoded content to `out`. Returns the index
/// just past the closing quote.
#[verifier::rlimit(100)]
fn parse_string_body(s: &Vec<u8>, i: usize, out: &mut Vec<u8>) -> (r: Option<usize>)
    requires
        i <= s.len(),
    ensures
        r is None ==> sp_string_body(s@.skip(i as int)) is None,
        r matches Some(j) ==> i < j <= s.len() && sp_string_body(s@.skip(i as int))
            == Option::Some((final(out)@.skip(old(out)@.len() as int), s@.skip(j as int)))
            && final(out)@.len() >= old(out)@.len() && final(out)@.subrange(
            0,
            old(out)@.len() as int,
        ) == old(out)@,
{
    let ghost base = out@;
    proof {
        assert(out@.skip(base.len() as int) =~= Seq::<u8>::empty());
        lemma_str_prepend_empty(sp_string_body(s@.skip(i as int)));
    }
    let mut cur: usize = i;
    loop
        invariant
            i <= cur <= s.len(),
            base == old(out)@,
            out@.len() >= base.len(),
            out@.subrange(0, base.len() as int) == base,
            sp_string_body(s@.skip(i as int)) == str_prepend(
                out@.skip(base.len() as int),
                sp_string_body(s@.skip(cur as int)),
            ),
        decreases s.len() - cur,
    {
        if cur == s.len() {
            return None;
        }
        let b = s[cur];
        proof {
            assert(s@.skip(cur as int)[0] == b);
        }
        if b == 0x22 {
            proof {
                assert(s@.skip(cur as int).skip(1) =~= s@.skip(cur + 1));
                assert(sp_string_body(s@.skip(cur as int)) == Option::Some(
                    (Seq::<u8>::empty(), s@.skip(cur + 1)),
                ));
                assert(out@.skip(base.len() as int) + Seq::<u8>::empty() =~= out@.skip(
                    base.len() as int,
                ));
            }
            return Some(cur + 1);
        } else if b == 0x5c {
            if cur + 1 == s.len() {
                return None;
            }
            let e = s[cur + 1];
            proof {
                assert(s@.skip(cur as int)[1] == e);
            }
            if e == 0x22 || e == 0x5c || e == 0x2f || e == 0x62 || e == 0x66 || e == 0x6e || e
                == 0x72 || e == 0x74 {
                let decoded: u8 = if e == 0x62 {
                    0x08
                } else if e == 0x66 {
                    0x0c
                } else if e == 0x6e {
                    0x0a
                } else if e == 0x72 {
                    0x0d
                } else if e == 0x74 {
                    0x09
                } else {
                    e
                };
                let ghost prev = out@;
                out.push(decoded);
                proof {
                    assert(s@.skip(cur as int).skip(2) =~= s@.skip(cur + 2));
                    assert(sp_string_body(s@.skip(cur as int)) == str_prepend(
                        seq![decoded],
                        sp_string_body(s@.skip(cur + 2)),
                    ));
                    lemma_str_prepend_assoc(
                        prev.skip(base.len() as int),
                        seq![decoded],
                        sp_string_body(s@.skip(cur + 2)),
                    );
                    assert(prev.skip(base.len() as int) + seq![decoded] =~= out@.skip(
                        base.len() as int,
                    ));
                    assert(out@.subrange(0, base.len() as int) =~= base);
                }
                cur = cur + 2;
            } else if e == 0x75 {
                let ghost prev = out@;
                match parse_u_escape(s, cur, out) {
                    None => {
                        return None;
                    },
                    Some(nxt) => {
                        proof {
                            lemma_str_prepend_assoc(
                                prev.skip(base.len() as int),
                                out@.skip(prev.len() as int),
                                sp_string_body(s@.skip(nxt as int)),
                            );
                            assert(prev.skip(base.len() as int) + out@.skip(prev.len() as int)
                                =~= out@.skip(base.len() as int));
                            assert(out@.subrange(0, base.len() as int) =~= base);
                        }
                        cur = nxt;
                    },
                }
            } else {
                return None;
            }
        } else if b < 0x20 {
            return None;
        } else {
            let ghost prev = out@;
            out.push(b);
            proof {
                assert(s@.skip(cur as int).skip(1) =~= s@.skip(cur + 1));
                assert(sp_string_body(s@.skip(cur as int)) == str_prepend(
                    seq![b],
                    sp_string_body(s@.skip(cur + 1)),
                ));
                lemma_str_prepend_assoc(
                    prev.skip(base.len() as int),
                    seq![b],
                    sp_string_body(s@.skip(cur + 1)),
                );
                assert(prev.skip(base.len() as int) + seq![b] =~= out@.skip(base.len() as int));
                assert(out@.subrange(0, base.len() as int) =~= base);
            }
            cur = cur + 1;
        }
    }
}

/// Returns the first index at or after `i` whose byte is not whitespace.
fn skip_ws(s: &Vec<u8>, i: usize) -> (j: usize)
    requires
        i <= s.len(),
    ensures
        i <= j <= s.len(),
        sp_ws(s@.skip(i as int)) == s@.skip(j as int),
{
    let mut cur: usize = i;
    while cur < s.len() && (s[cur] == 0x20 || s[cur] == 0x09 || s[cur] == 0x0a || s[cur] == 0x0d)
        invariant
            i <= cur <= s.len(),
            sp_ws(s@.skip(i as int)) == sp_ws(s@.skip(cur as int)),
        decreases s.len() - cur,
    {
        proof {
            assert(s@.skip(cur as int)[0] == s@[cur as int]);
            assert(s@.skip(cur as int).skip(1) =~= s@.skip(cur + 1));
        }
        cur = cur + 1;
    }
    proof {
        if cur < s.len() {
            assert(s@.skip(cur as int)[0] == s@[cur as int]);
        }
        assert(sp_ws(s@.skip(cur as int)) == s@.skip(cur as int));
    }
    cur
}

/// Scans the digit run starting at `s[i]`, appending it to `out`. Returns
/// the index just past the run.
fn scan_digits(s: &Vec<u8>, i: usize, out: &mut Vec<u8>) -> (j: usize)
    requires
        i <= s.len(),
    ensures
        i <= j <= s.len(),
        final(out)@ == old(out)@ + sp_digits(s@.skip(i as int)).0,
        sp_digits(s@.skip(i as int)).1 == s@.skip(j as int),
        sp_digits(s@.skip(i as int)).0.len() == j - i,
{
    let ghost base = out@;
    let mut cur: usize = i;
    while cur < s.len() && 0x30 <= s[cur] && s[cur] <= 0x39
        invariant
            i <= cur <= s.len(),
            base == old(out)@,
            sp_digits(s@.skip(i as int)).0 == out@.skip(base.len() as int) + sp_digits(
                s@.skip(cur as int),
            ).0,
            sp_digits(s@.skip(i as int)).1 == sp_digits(s@.skip(cur as int)).1,
            sp_digits(s@.skip(i as int)).0.len() == cur - i + sp_digits(s@.skip(cur as int)).0.len(),
            out@.len() >= base.len(),
            out@.subrange(0, base.len() as int) == base,
        decreases s.len() - cur,
    {
        let b = s[cur];
        let ghost prev = out@;
        out.push(b);
        proof {
            assert(s@.skip(cur as int)[0] == b);
            assert(s@.skip(cur as int).skip(1) =~= s@.skip(cur + 1));
            let d = sp_digits(s@.skip(cur + 1)).0;
            assert(sp_digits(s@.skip(cur as int)).0 == seq![b] + d);
            assert(prev.skip(base.len() as int) + (seq![b] + d) =~= out@.skip(base.len() as int)
                + d);
            assert(out@.subrange(0, base.len() as int) =~= base);
        }
        cur = cur + 1;
    }
    proof {
        if cur < s.len() {
            assert(s@.skip(cur as int)[0] == s@[cur as int]);
        }
        assert(sp_digits(s@.skip(cur as int)).0 == Seq::<u8>::empty());
        assert(sp_digits(s@.skip(cur as int)).1 == s@.skip(cur as int));
        assert(out@.skip(base.len() as int) + Seq::<u8>::empty() =~= out@.skip(base.len() as int));
    }
    cur
}

/// Scans the optional fraction and exponent parts starting at `s[i]`,
/// appending their spelling to `lit`. Returns the index just past them.
#[verifier::rlimit(100)]
fn parse_frac_exp(s: &Vec<u8>, i: usize, lit: &mut Vec<u8>) -> (j: usize)
    requires
        i <= s.len(),
    ensures
        i <= j <= s.len(),
        final(lit)@ == (old(lit)@ + sp_frac_part(s@.skip(i as int)).0) + sp_exp_part(
            sp_frac_part(s@.skip(i as int)).1,
        ).0,
        sp_exp_part(sp_frac_part(s@.skip(i as int)).1).1 == s@.skip(j as int),
{
    let ghost cur2 = i as int;
    let ghost start_lit = lit@;
    let mut cur: usize = i;
    if s.len() - cur >= 2 && s[cur] == 0x2e && 0x30 <= s[cur + 1] && s[cur + 1] <= 0x39 {
        proof {
            assert(s@.skip(cur2)[0] == s@[cur2]);
            assert(s@.skip(cur2)[1] == s@[cur2 + 1]);
            assert(s@.skip(cur2).skip(1) =~= s@.skip(cur2 + 1));
        }
        let ghost before = lit@;
        lit.push(0x2e);
        cur = scan_digits(s, cur + 1, lit);
        proof {
            assert(before.push(0x2e) + sp_digits(s@.skip(cur2 + 1)).0 =~= before + (seq![0x2e_u8]
                + sp_digits(s@.skip(cur2 + 1)).0));
        }
    } else {
        proof {
            if s@.skip(cur2).len() >= 2 {
                assert(s@.skip(cur2)[0] == s@[cur2]);
                assert(s@.skip(cur2)[1] == s@[cur2 + 1]);
            }
        }
    }
    let ghost cur3 = cur as int;
    let ghost cap_fp = sp_frac_part(s@.skip(cur2)).0;
    proof {
        assert(sp_frac_part(s@.skip(cur2)) == (cap_fp, s@.skip(cur3)));
        assert(start_lit + cap_fp =~= lit@);
    }
    if s.len() - cur >= 2 && (s[cur] == 0x65 || s[cur] == 0x45) && 0x30 <= s[cur + 1] && s[cur + 1]
        <= 0x39 {
        proof {
            assert(s@.skip(cur3)[0] == s@[cur3]);
            assert(s@.skip(cur3)[1] == s@[cur3 + 1]);
            assert(s@.skip(cur3).skip(1) =~= s@.skip(cur3 + 1));
            assert(s@.skip(cur3).take(1) =~= seq![s@[cur3]]);
        }
        let ghost before = lit@;
        lit.push(s[cur]);
        cur = scan_digits(s, cur + 1, lit);
        proof {
            assert(before.push(s@[cur3]) + sp_digits(s@.skip(cur3 + 1)).0 =~= before + (seq![
                s@[cur3],
            ] + sp_digits(s@.skip(cur3 + 1)).0));
        }
    } else if s.len() - cur >= 3 && (s[cur] == 0x65 || s[cur] == 0x45) && (s[cur + 1] == 0x2b || s[
        cur + 1] == 0x2d) && 0x30 <= s[cur + 2] && s[cur + 2] <= 0x39 {
        proof {
            assert(s@.skip(cur3)[0] == s@[cur3]);
            assert(s@.skip(cur3)[1] == s@[cur3 + 1]);
            assert(s@.skip(cur3)[2] == s@[cur3 + 2]);
            assert(s@.skip(cur3).skip(2) =~= s@.skip(cur3 + 2));
            assert(s@.skip(cur3).take(2) =~= seq![s@[cur3], s@[cur3 + 1]]);
        }
        let ghost before = lit@;
        lit.push(s[cur]);
        lit.push(s[cur + 1]);
        cur = scan_digits(s, cur + 2, lit);
        proof {
            assert(before.push(s@[cur3]).push(s@[cur3 + 1]) + sp_digits(s@.skip(cur3 + 2)).0
                =~= before + (seq![s@[cur3], s@[cur3 + 1]] + sp_digits(s@.skip(cur3 + 2)).0));
        }
    } else {
        proof {
            if s@.skip(cur3).len() >= 2 {
                assert(s@.skip(cur3)[0] == s@[cur3]);
                assert(s@.skip(cur3)[1] == s@[cur3 + 1]);
            }
            if s@.skip(cur3).len() >= 3 {
                assert(s@.skip(cur3)[2] == s@[cur3 + 2]);
            }
        }
    }
    let ghost cur4 = cur as int;
    let ghost cap_ep = sp_exp_part(s@.skip(cur3)).0;
    proof {
        assert(sp_frac_part(s@.skip(cur2)).1 == s@.skip(cur3));
        assert(sp_exp_part(s@.skip(cur3)) == (cap_ep, s@.skip(cur4)));
        assert(lit@ == (start_lit + cap_fp) + cap_ep);
    }
    cur
}

/// Composes the four number parts into a whole number parse.
proof fn lemma_sp_number_compose(
    s0: Seq<u8>,
    m: Seq<u8>,
    s1: Seq<u8>,
    ip: Seq<u8>,
    s2: Seq<u8>,
    fp: Seq<u8>,
    s3: Seq<u8>,
    ep: Seq<u8>,
    s4: Seq<u8>,
)
    requires
        sp_sign(s0) == (m, s1),
        sp_int_part(s1) == Option::Some((ip, s2)),
        sp_frac_part(s2) == (fp, s3),
        sp_exp_part(s3) == (ep, s4),
    ensures
        sp_number(s0) == Option::Some((m + ip + fp + ep, s4)),
{
}

/// Reads the number literal starting at `s[i]`, returning its bytes and the
/// index just past it.
#[verifier::rlimit(100)]
fn parse_number(s: &Vec<u8>, i: usize) -> (r: Option<(Vec<u8>, usize)>)
    requires
        i <= s.len(),
    ensures
        r is None ==> sp_number(s@.skip(i as int)) is None,
        r matches Some(p) ==> i < p.1 <= s.len() && sp_number(s@.skip(i as int)) == Option::Some(
            (p.0@, s@.skip(p.1 as int)),
        ),
{
    let ghost s0 = s@.skip(i as int);
    let mut lit: Vec<u8> = Vec::new();
    let mut cur: usize = i;
    if cur < s.len() && s[cur] == 0x2d {
        lit.push(0x2d);
        cur = cur + 1;
    }
    let ghost cur1 = cur as int;
    proof {
        if i < s.len() && s@[i as int] == 0x2d {
            assert(s0[0] == s@[i as int]);
            assert(s0.skip(1) =~= s@.skip(i + 1));
            assert(lit@ =~= seq![0x2d_u8]);
        }
        assert(sp_sign(s0) == (lit@, s@.skip(cur1)));
    }
    if cur == s.len() {
        return None;
    }
    let b = s[cur];
    proof {
        assert(s@.skip(cur1)[0] == b);
    }
    if !(0x30 <= b && b <= 0x39) {
        return None;
    }
    let ghost msign = lit@;
    let ghost cap_ip: Seq<u8> = if b == 0x30 { seq![0x30] } else { sp_digits(s@.skip(cur1)).0 };
    if b == 0x30 {
        lit.push(0x30);
        cur = cur + 1;
        proof {
            assert(s@.skip(cur1).skip(1) =~= s@.skip(cur1 + 1));
            assert(lit@ =~= msign + cap_ip);
        }
    } else {
        cur = scan_digits(s, cur, &mut lit);
    }
    let ghost cur2 = cur as int;
    proof {
        assert(sp_int_part(s@.skip(cur1)) == Option::Some((cap_ip, s@.skip(cur2))));
        assert(lit@ == msign + cap_ip);
    }
    let ghost s3g = sp_frac_part(s@.skip(cur2)).1;
    cur = parse_frac_exp(s, cur, &mut lit);
    let ghost cur4 = cur as int;
    let ghost cap_fp = sp_frac_part(s@.skip(cur2)).0;
    let ghost cap_ep = sp_exp_part(s3g).0;
    proof {
        assert(((msign + cap_ip) + cap_fp) + cap_ep =~= lit@);
        assert(msign + cap_ip + cap_fp + cap_ep =~= lit@);
        lemma_sp_number_compose(
            s0,
            msign,
            s@.skip(cur1),
            cap_ip,
            s@.skip(cur2),
            cap_fp,
            s3g,
            cap_ep,
            s@.skip(cur4),
        );
    }
    Some((lit, cur))
}

/// Reads the JSON value starting at `s[i]`, returning it and the index just
/// past it.
#[verifier::rlimit(100)]
pub fn parse_value(s: &Vec<u8>, i: usize) -> (r: Option<(Json, usize)>)
    requires
        i <= s.len(),
    ensures
        r is None ==> sp_value(s@.skip(i as int)) is None,
        r matches Some(p) ==> i < p.1 <= s.len() && sp_value(s@.skip(i as int)) == Option::Some(
            (p.0@, s@.skip(p.1 as int)),
        ),
    decreases s.len() - i, 0int,
{
    let ghost s0 = s@.skip(i as int);
    if i == s.len() {
        return None;
    }
    let b = s[i];
    proof {
        assert(s0[0] == b);
    }
    if b == 0x22 {
        let mut content: Vec<u8> = Vec::new();
        proof {
            assert(s0.skip(1) =~= s@.skip(i + 1));
        }
        match parse_string_body(s, i + 1, &mut content) {
            None => None,
            Some(j) => {
                proof {
                    assert(content@.skip(0) =~= content@);
                }
                Some((Json::Str(content), j))
            },
        }
    } else if b == 0x5b {
        proof {
            assert(s0.skip(1) =~= s@.skip(i + 1));
        }
        let t = skip_ws(s, i + 1);
        if t < s.len() && s[t] == 0x5d {
            proof {
                assert(s@.skip(t as int)[0] == s@[t as int]);
                assert(s@.skip(t as int).skip(1) =~= s@.skip(t + 1));
            }
            let items: Vec<Json> = Vec::new();
            proof {
                assert(view_seq(items@) =~= Seq::<JsonVal>::empty());
            }
            Some((Json::Arr(items), t + 1))
        } else {
            proof {
                if t < s.len() {
                    assert(s@.skip(t as int)[0] == s@[t as int]);
                }
            }
            match parse_items(s, t) {
                None => None,
                Some((items, j)) => Some((Json::Arr(items), j)),
            }
        }
    } else if b == 0x7b {
        proof {
            assert(s0.skip(1) =~= s@.skip(i + 1));
        }
        let t = skip_ws(s, i + 1);
        if t < s.len() && s[t] == 0x7d {
            proof {
                assert(s@.skip(t as int)[0] == s@[t as int]);
                assert(s@.skip(t as int).skip(1) =~= s@.skip(t + 1));
            }
            let members: Vec<(Vec<u8>, Json)> = Vec::new();
            proof {
                assert(view_members(members@) =~= Seq::<(Seq<u8>, JsonVal)>::empty());
            }
            Some((Json::Obj(members), t + 1))
        } else {
            proof {
                if t < s.len() {
                    assert(s@.skip(t as int)[0] == s@[t as int]);
                }
            }
            match parse_mems(s, t) {
                None => None,
                Some((members, j)) => Some((Json::Obj(members), j)),
            }
        }
    } else if b == 0x74 {
        if s.len() - i >= 4 && s[i + 1] == 0x72 && s[i + 2] == 0x75 && s[i + 3] == 0x65 {
            proof {
                assert(s0[1] == s@[i + 1]);
                assert(s0[2] == s@[i + 2]);
                assert(s0[3] == s@[i + 3]);
                assert(s0.skip(4) =~= s@.skip(i + 4));
            }
            Some((Json::Bool(true), i + 4))
        } else {
            proof {
                if s0.len() >= 4 {
                    assert(s0[1] == s@[i + 1]);
                    assert(s0[2] == s@[i + 2]);
                    assert(s0[3] == s@[i + 3]);
                }
            }
            None
        }
    } else if b == 0x66 {
        if s.len() - i >= 5 && s[i + 1] == 0x61 && s[i + 2] == 0x6c && s[i + 3] == 0x73 && s[i + 4]
            == 0x65 {
            proof {
                assert(s0[1] == s@[i + 1]);
                assert(s0[2] == s@[i + 2]);
                assert(s0[3] == s@[i + 3]);
                assert(s0[4] == s@[i + 4]);
                assert(s0.skip(5) =~= s@.skip(i + 5));
            }
            Some((Json::Bool(false), i + 5))
        } else {
            proof {
                if s0.len() >= 5 {
                    assert(s0[1] == s@[i + 1]);
                    assert(s0[2] == s@[i + 2]);
                    assert(s0[3] == s@[i + 3]);
                    assert(s0[4] == s@[i + 4]);
                }
            }
            None
        }
    } else if b == 0x6e {
        if s.len() - i >= 4 && s[i + 1] == 0x75 && s[i + 2] == 0x6c && s[i + 3] == 0x6c {
            proof {
                assert(s0[1] == s@[i + 1]);
                assert(s0[2] == s@[i + 2]);
                assert(s0[3] == s@[i + 3]);
                assert(s0.skip(4) =~= s@.skip(i + 4));
            }
            Some((Json::Null, i + 4))
        } else {
            proof {
                if s0.len() >= 4 {
                    assert(s0[1] == s@[i + 1]);
                    assert(s0[2] == s@[i + 2]);
                    assert(s0[3] == s@[i + 3]);
                }
            }
            None
        }
    } else if b == 0x2d || (0x30 <= b && b <= 0x39) {
        match parse_number(s, i) {
            None => None,
            Some((lit, j)) => Some((Json::Num(lit), j)),
        }
    } else {
        None
    }
}

/// Reads the items of a nonempty array starting at `s[i]`, over the closing
/// bracket.
#[verifier::rlimit(100)]
fn parse_items(s: &Vec<u8>, i: usize) -> (r: Option<(Vec<Json>, usize)>)
    requires
        i <= s.len(),
    ensures
        r is None ==> sp_items(s@.skip(i as int)) is None,
        r matches Some(p) ==> i < p.1 <= s.len() && sp_items(s@.skip(i as int)) == Option::Some(
            (view_seq(p.0@), s@.skip(p.1 as int)),
        ),
    decreases s.len() - i, 1int,
{
    let ghost s0 = s@.skip(i as int);
    if i == s.len() {
        return None;
    }
    match parse_value(s, i) {
        None => None,
        Some((v, j0)) => {
            proof {
                assert(shorter_of(s@.skip(j0 as int), s0) == s@.skip(j0 as int));
            }
            let r2 = skip_ws(s, j0);
            if r2 == s.len() {
                proof {
                    assert(s@.skip(r2 as int).len() == 0);
                }
                return None;
            }
            let c = s[r2];
            proof {
                assert(s@.skip(r2 as int)[0] == c);
            }
            if c == 0x5d {
                proof {
                    assert(s@.skip(r2 as int).skip(1) =~= s@.skip(r2 + 1));
                }
                let mut one: Vec<Json> = Vec::new();
                one.push(v);
                proof {
                    assert(one@.len() == 1);
                    assert(one@[0] == v);
                    assert(one@.subrange(1, 1).len() == 0);
                    assert(view_seq(one@.subrange(1, 1)) == Seq::<JsonVal>::empty());
                    assert(view_seq(one@) == seq![view_of(one@[0])] + view_seq(
                        one@.subrange(1, 1),
                    ));
                    assert(view_seq(one@) =~= seq![v@]);
                }
                Some((one, r2 + 1))
            } else if c == 0x2c {
                proof {
                    assert(s@.skip(r2 as int).skip(1) =~= s@.skip(r2 + 1));
                }
                let nxt = skip_ws(s, r2 + 1);
                match parse_items(s, nxt) {
                    None => None,
                    Some((rest, j)) => {
                        let ghost restv = rest@;
                        let mut all = rest;
                        all.insert(0, v);
                        proof {
                            assert(all@.subrange(1, all@.len() as int) =~= restv);
                            assert(view_seq(all@) =~= seq![v@] + view_seq(restv));
                        }
                        Some((all, j))
                    },
                }
            } else {
                None
            }
        },
    }
}

/// Reads the members of a nonempty object starting at `s[i]`, over the
/// closing brace.
#[verifier::rlimit(100)]
fn parse_mems(s: &Vec<u8>, i: usize) -> (r: Option<(Vec<(Vec<u8>, Json)>, usize)>)
    requires
        i <= s.len(),
    ensures
        r is None ==> sp_mems(s@.skip(i as int)) is None,
        r matches Some(p) ==> i < p.1 <= s.len() && sp_mems(s@.skip(i as int)) == Option::Some(
            (view_members(p.0@), s@.skip(p.1 as int)),
        ),
    decreases s.len() - i, 1int,
{
    let ghost s0 = s@.skip(i as int);
    if i == s.len() {
        return None;
    }
    let b = s[i];
    proof {
        assert(s0[0] == b);
    }
    if b != 0x22 {
        return None;
    }
    let mut key: Vec<u8> = Vec::new();
    proof {
        assert(s0.skip(1) =~= s@.skip(i + 1));
    }
    let j0 = match parse_string_body(s, i + 1, &mut key) {
        None => {
            return None;
        },
        Some(j0) => j0,
    };
    proof {
        assert(key@.skip(0) =~= key@);
    }
    let r1 = skip_ws(s, j0);
    if r1 == s.len() {
        return None;
    }
    let c1 = s[r1];
    proof {
        assert(s@.skip(r1 as int)[0] == c1);
    }
    if c1 != 0x3a {
        return None;
    }
    proof {
        assert(s@.skip(r1 as int).skip(1) =~= s@.skip(r1 + 1));
    }
    let r2 = skip_ws(s, r1 + 1);
    match parse_value(s, r2) {
        None => None,
        Some((v, j1)) => {
            proof {
                assert(shorter_of(s@.skip(j1 as int), s0) == s@.skip(j1 as int));
            }
            let r4 = skip_ws(s, j1);
            if r4 == s.len() {
                proof {
                    assert(s@.skip(r4 as int).len() == 0);
                }
                return None;
            }
            let c2 = s[r4];
            proof {
                assert(s@.skip(r4 as int)[0] == c2);
            }
            if c2 == 0x7d {
                proof {
                    assert(s@.skip(r4 as int).skip(1) =~= s@.skip(r4 + 1));
                }
                let mut one: Vec<(Vec<u8>, Json)> = Vec::new();
                one.push((key, v));
                proof {
                    assert(one@.len() == 1);
                    assert(one@.subrange(1, 1).len() == 0);
                    assert(view_members(one@.subrange(1, 1)) == Seq::<(Seq<u8>, JsonVal)>::empty());
                    assert(view_members(one@) == seq![(one@[0].0@, view_of(one@[0].1))]
                        + view_members(one@.subrange(1, 1)));
                    assert(view_members(one@) =~= seq![(one@[0].0@, one@[0].1@)]);
                }
                Some((one, r4 + 1))
            } else if c2 == 0x2c {
                proof {
                    assert(s@.skip(r4 as int).skip(1) =~= s@.skip(r4 + 1));
                }
                let nxt = skip_ws(s, r4 + 1);
                match parse_mems(s, nxt) {
                    None => None,
                    Some((rest, j)) => {
                        let ghost restv = rest@;
                        let mut all = rest;
                        all.insert(0, (key, v));
                        proof {
                            assert(all@.subrange(1, all@.len() as int) =~= restv);
                            assert(view_members(all@) =~= seq![(all@[0].0@, all@[0].1@)]
                                + view_members(restv));
                        }
                        Some((all, j))
                    },
                }
            } else {
                None
            }
        },
    }
}

/// A fresh byte vector with the same bytes.
fn copy_byte_vec(a: &Vec<u8>) -> (r: Vec<u8>)
    ensures
        r@ == a@,
{
    let mut out: Vec<u8> = Vec::new();
    let mut i: usize = 0;
    while i < a.len()
        invariant
            0 <= i <= a.len(),
            out@ == a@.take(i as int),
        decreases a.len() - i,
    {
        out.push(a[i]);
        proof {
            assert(a@.take(i + 1) =~= a@.take(i as int) + seq![a@[i as int]]);
        }
        i = i + 1;
    }
    proof {
        assert(a@.take(a@.len() as int) =~= a@);
    }
    out
}

/// Clones the values `a[i..]` onto `out`.
fn clone_items_onto(a: &Vec<Json>, i: usize, out: &mut Vec<Json>)
    requires
        i <= a.len(),
    ensures
        final(out)@.len() == old(out)@.len() + a@.len() - i,
        forall|j: int| 0 <= j < old(out)@.len() ==> #[trigger] final(out)@[j] == old(out)@[j],
        forall|j: int|
            #![trigger final(out)@[j]]
            old(out)@.len() <= j < final(out)@.len() ==> final(out)@[j]@ == a@[j - old(out)@.len()
                + i]@,
    decreases a, a.len() - i,
{
    if i < a.len() {
        let ghost base = out@;
        let c = json_clone(&a[i]);
        out.push(c);
        let ghost mid = out@;
        clone_items_onto(a, i + 1, out);
        proof {
            assert(mid[base.len() as int]@ == a@[i as int]@);
            assert forall|j: int|
                #![trigger out@[j]]
                base.len() <= j < out@.len() implies out@[j]@ == a@[j - base.len() + i]@ by {
                if j == base.len() {
                    assert(out@[j] == mid[base.len() as int]);
                } else {
                    assert(out@[j]@ == a@[j - mid.len() + i + 1]@);
                }
            }
        }
    }
}

/// Clones the members `m[i..]` onto `out`.
fn clone_members_onto(m: &Vec<(Vec<u8>, Json)>, i: usize, out: &mut Vec<(Vec<u8>, Json)>)
    requires
        i <= m.len(),
    ensures
        final(out)@.len() == old(out)@.len() + m@.len() - i,
        forall|j: int| 0 <= j < old(out)@.len() ==> #[trigger] final(out)@[j] == old(out)@[j],
        forall|j: int|
            #![trigger final(out)@[j]]
            old(out)@.len() <= j < final(out)@.len() ==> final(out)@[j].0@ == m@[j - old(
                out,
            )@.len() + i].0@ && final(out)@[j].1@ == m@[j - old(out)@.len() + i].1@,
    decreases m, m.len() - i,
{
    if i < m.len() {
        let ghost base = out@;
        let k = copy_byte_vec(&m[i].0);
        let c = json_clone(&m[i].1);
        out.push((k, c));
        let ghost mid = out@;
        clone_members_onto(m, i + 1, out);
        proof {
            assert(mid[base.len() as int].0@ == m@[i as int].0@);
            assert(mid[base.len() as int].1@ == m@[i as int].1@);
            assert forall|j: int|
                #![trigger out@[j]]
                base.len() <= j < out@.len() implies out@[j].0@ == m@[j - base.len() + i].0@
                && out@[j].1@ == m@[j - base.len() + i].1@ by {
                if j == base.len() {
                    assert(out@[j] == mid[base.len() as int]);
                } else {
                    assert(out@[j].0@ == m@[j - mid.len() + i + 1].0@);
                    assert(out@[j].1@ == m@[j - mid.len() + i + 1].1@);
                }
            }
        }
    }
}

/// A fresh value with the same model.
pub fn json_clone(v: &Json) -> (r: Json)
    ensures
        r@ == v@,
    decreases v,
{
    broadcast use lemma_view_seq_len, lemma_view_seq_index, lemma_view_members_len, lemma_view_members_index;

    match v {
        Json::Null => Json::Null,
        Json::Bool(b) => Json::Bool(*b),
        Json::Num(t) => Json::Num(copy_byte_vec(t)),
        Json::Str(t) => Json::Str(copy_byte_vec(t)),
        Json::Arr(a) => {
            let mut out: Vec<Json> = Vec::new();
            clone_items_onto(a, 0, &mut out);
            proof {
                assert(view_seq(out@) =~= view_seq(a@));
            }
            Json::Arr(out)
        },
        Json::Obj(m) => {
            let mut out: Vec<(Vec<u8>, Json)> = Vec::new();
            clone_members_onto(m, 0, &mut out);
            proof {
                assert(view_members(out@) =~= view_members(m@));
            }
            Json::Obj(out)
        },
    }
}

/// Reads a complete JSON text: one value, whitespace around it, nothing
/// further.
pub fn parse_json(s: &Vec<u8>) -> (r: Option<Json>)
    ensures
        r is Some <==> json_text_valid(s@),
        r matches Some(v) ==> sp_json(s@) == Option::Some(v@),
{
    proof {
        assert(s@.skip(0) =~= s@);
    }
    let start = skip_ws(s, 0);
    match parse_value(s, start) {
        None => None,
        Some((v, j)) => {
            let end = skip_ws(s, j);
            if end == s.len() {
                proof {
                    assert(s@.skip(end as int).len() == 0);
                }
                Some(v)
            } else {
                proof {
                    assert(s@.skip(end as int).len() > 0);
                }
                None
            }
        },
    }
}


} // verus!
