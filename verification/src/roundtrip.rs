//! The law that printing and parsing JSON are inverse to each other.
//!
//! A value is well formed when every number in it is spelled so that the
//! spelling reads back as itself; every value this crate builds is. For
//! such a value, [`lemma_parse_of_ser`] shows that parsing its printed
//! text yields exactly the value again: what goes through the JSON
//! boundary comes back unchanged.

use vstd::prelude::*;
use crate::json::{JsonVal, ser, ser_items, ser_members, ser_member, ser_str_body, ser_str_byte,
    sp_json, sp_value, sp_items, sp_mems, sp_string_body, sp_number, sp_sign, sp_int_part,
    sp_frac_part, sp_exp_part, sp_digits, sp_ws, shorter_of, str_prepend, is_ws, is_digit, is_hex,
    hex_val, hex_digit, hex4_val, utf8_enc};
use crate::text::dec_digits;

verus! {

/// A byte that may lawfully follow a printed value: nothing, or a comma, a
/// closing bracket or brace, or whitespace.
pub open spec fn delim_start(rest: Seq<u8>) -> bool {
    rest.len() == 0 || rest[0] == 0x2c || rest[0] == 0x5d || rest[0] == 0x7d || is_ws(rest[0])
}

/// A number spelling that reads back exactly as itself whenever a lawful
/// delimiter follows it.
pub open spec fn wf_num_lit(lit: Seq<u8>) -> bool {
    lit.len() > 0 && forall|rest: Seq<u8>|
        delim_start(rest) ==> #[trigger] sp_number(lit + rest) == Option::Some((lit, rest))
}

/// A value whose every number spelling is well formed; such a value prints
/// to a text that parses back to exactly the value.
pub open spec fn wf_val(v: JsonVal) -> bool
    decreases v,
{
    match v {
        JsonVal::Num(lit) => wf_num_lit(lit),
        JsonVal::Arr(a) => wf_items_list(a),
        JsonVal::Obj(m) => wf_members_list(m),
        _ => true,
    }
}

/// Every item of the list is well formed.
pub open spec fn wf_items_list(a: Seq<JsonVal>) -> bool
    decreases a,
{
    a.len() == 0 || (wf_val(a[0]) && wf_items_list(a.subrange(1, a.len() as int)))
}

/// Every member value of the list is well formed.
pub open spec fn wf_members_list(m: Seq<(Seq<u8>, JsonVal)>) -> bool
    decreases m,
{
    m.len() == 0 || (wf_val(m[0].1) && wf_members_list(m.subrange(1, m.len() as int)))
}

/// A byte that can start a printed value.
pub open spec fn is_value_start(b: u8) -> bool {
    b == 0x22 || b == 0x5b || b == 0x7b || b == 0x74 || b == 0x66 || b == 0x6e || b == 0x2d
        || is_digit(b)
}

/// A printed well-formed value is nonempty and starts with a value byte —
/// never with whitespace or a delimiter.
pub proof fn lemma_ser_head(v: JsonVal)
    requires
        wf_val(v),
    ensures
        ser(v).len() > 0,
        is_value_start(ser(v)[0]),
    decreases v,
{
    match v {
        JsonVal::Num(lit) => {
            assert(lit + Seq::<u8>::empty() =~= lit);
            assert(delim_start(Seq::<u8>::empty()));
            assert(sp_number(lit + Seq::<u8>::empty()) == Option::Some((
                lit,
                Seq::<u8>::empty(),
            )));
            let (msign, s1) = sp_sign(lit);
            assert(sp_int_part(s1) is Some);
            assert(s1.len() > 0 && is_digit(s1[0]));
            if lit[0] == 0x2d {
            } else {
                assert(s1 == lit);
            }
        },
        _ => {
        },
    }
}

/// Digits followed by a non-digit split exactly at the boundary.
pub proof fn lemma_sp_digits_exact(d: Seq<u8>, rest: Seq<u8>)
    requires
        forall|i: int| 0 <= i < d.len() ==> is_digit(#[trigger] d[i]),
        rest.len() == 0 || !is_digit(rest[0]),
    ensures
        sp_digits(d + rest) == (d, rest),
    decreases d.len(),
{
    if d.len() == 0 {
        assert(d + rest =~= rest);
    } else {
        assert(d.subrange(1, d.len() as int) + rest =~= (d + rest).skip(1));
        lemma_sp_digits_exact(d.subrange(1, d.len() as int), rest);
        assert((d + rest)[0] == d[0]);
        assert(seq![(d + rest)[0]] + d.subrange(1, d.len() as int) =~= d);
    }
}

/// The decimal spelling of an integer is a well-formed number spelling.
pub proof fn lemma_wf_dec_digits(n: nat)
    ensures
        wf_num_lit(dec_digits(n)),
{
    lemma_dec_digits_shape(n);
    let lit = dec_digits(n);
    assert forall|rest: Seq<u8>| delim_start(rest) implies #[trigger] sp_number(lit + rest)
        == Option::Some((lit, rest)) by {
        let s = lit + rest;
        assert(s[0] == lit[0]);
        assert(s.len() > 0);
        assert(!(s[0] == 0x2d));
        assert(sp_sign(s) == (Seq::<u8>::empty(), s));
        if n < 10 {
            assert(lit =~= seq![(0x30 + n) as u8]);
            if n == 0 {
                assert(s[0] == 0x30);
                assert(lit.skip(1) + rest =~= s.skip(1));
                assert(lit.skip(1) =~= Seq::<u8>::empty());
                assert(Seq::<u8>::empty() + rest =~= rest);
                assert(sp_int_part(s) == Option::Some((seq![0x30_u8], rest)));
            } else {
                assert(is_digit(s[0]) && s[0] != 0x30);
                lemma_sp_digits_exact(lit, rest);
                assert(sp_int_part(s) == Option::Some((lit, rest)));
            }
        } else {
            assert(is_digit(s[0]) && s[0] != 0x30);
            lemma_sp_digits_exact(lit, rest);
            assert(sp_int_part(s) == Option::Some((lit, rest)));
        }
        assert(sp_frac_part(rest) == (Seq::<u8>::empty(), rest));
        assert(sp_exp_part(rest) == (Seq::<u8>::empty(), rest));
        let ip: Seq<u8> = if n == 0 { seq![0x30_u8] } else { lit };
        assert(ip == lit);
        assert(Seq::<u8>::empty() + lit + Seq::<u8>::empty() + Seq::<u8>::empty() =~= lit);
    }
}

/// The decimal spelling is nonempty, all digits, and free of a leading
/// zero unless it is exactly zero.
pub proof fn lemma_dec_digits_shape(n: nat)
    ensures
        dec_digits(n).len() > 0,
        forall|i: int| 0 <= i < dec_digits(n).len() ==> is_digit(#[trigger] dec_digits(n)[i]),
        n > 0 ==> dec_digits(n)[0] != 0x30,
        n < 10 ==> dec_digits(n) == seq![(0x30 + n) as u8],
    decreases n,
{
    if n >= 10 {
        lemma_dec_digits_shape(n / 10);
        assert(dec_digits(n) == dec_digits(n / 10) + seq![(0x30 + n % 10) as u8]);
        assert(dec_digits(n)[0] == dec_digits(n / 10)[0]);
    }
}

/// A printed string body, with the closing quote and anything after it,
/// reads back as exactly the string and the trailing text.
#[verifier::rlimit(100)]
pub proof fn lemma_parse_ser_str(t: Seq<u8>, tail: Seq<u8>)
    ensures
        sp_string_body(ser_str_body(t) + seq![0x22] + tail) == Option::Some((t, tail)),
    decreases t.len(),
{
    let s = ser_str_body(t) + seq![0x22] + tail;
    if t.len() == 0 {
        assert(s =~= seq![0x22_u8] + tail);
        assert(s[0] == 0x22);
        assert(s.skip(1) =~= tail);
    } else {
        let b = t[0];
        let inner = ser_str_body(t.skip(1)) + seq![0x22] + tail;
        lemma_parse_ser_str(t.skip(1), tail);
        assert(ser_str_body(t) == ser_str_byte(b) + ser_str_body(t.skip(1)));
        assert(s =~= ser_str_byte(b) + inner);
        if b == 0x22 {
            assert(ser_str_byte(b) =~= seq![0x5c_u8, 0x22]);
            assert(s[0] == 0x5c && s[1] == 0x22);
            assert(s.skip(2) =~= inner);
            assert(seq![b] + t.skip(1) =~= t);
        } else if b == 0x5c {
            assert(ser_str_byte(b) =~= seq![0x5c_u8, 0x5c]);
            assert(s[0] == 0x5c && s[1] == 0x5c);
            assert(s.skip(2) =~= inner);
            assert(seq![b] + t.skip(1) =~= t);
        } else if b < 0x20 {
            let h1 = hex_digit(b / 16);
            let h2 = hex_digit(b % 16);
            assert(ser_str_byte(b) =~= seq![0x5c_u8, 0x75, 0x30, 0x30, h1, h2]);
            assert(s[0] == 0x5c && s[1] == 0x75);
            assert(s[2] == 0x30 && s[3] == 0x30 && s[4] == h1 && s[5] == h2);
            assert(is_hex(0x30) && hex_val(0x30) == 0);
            assert(b / 16 < 16 && b % 16 < 16);
            assert(is_hex(h1) && hex_val(h1) == b / 16);
            assert(is_hex(h2) && hex_val(h2) == b % 16);
            let cp = hex4_val(s[2], s[3], s[4], s[5]);
            assert(cp == (b / 16) * 0x10 + b % 16);
            assert(cp == b);
            assert(!(0xd800 <= cp < 0xdc00) && !(0xdc00 <= cp < 0xe000));
            assert(s.len() >= 6);
            assert(utf8_enc(cp) =~= seq![b]);
            assert(s.skip(6) =~= inner);
            assert(sp_string_body(s) == str_prepend(seq![b], sp_string_body(inner)));
            assert(seq![b] + t.skip(1) =~= t);
        } else {
            assert(ser_str_byte(b) =~= seq![b]);
            assert(s[0] == b);
            assert(s.skip(1) =~= inner);
            assert(seq![b] + t.skip(1) =~= t);
        }
    }
}

/// The string case of the round trip: quotes and body read back.
#[verifier::rlimit(100)]
proof fn lemma_value_str(t: Seq<u8>, rest: Seq<u8>)
    ensures
        sp_value(ser(JsonVal::Str(t)) + rest) == Option::Some((JsonVal::Str(t), rest)),
{
    let s = ser(JsonVal::Str(t)) + rest;
    assert(s =~= seq![0x22_u8] + (ser_str_body(t) + seq![0x22] + rest));
    assert(s[0] == 0x22);
    assert(s.skip(1) =~= ser_str_body(t) + seq![0x22] + rest);
    lemma_parse_ser_str(t, rest);
}

/// A printed well-formed value, followed by a lawful delimiter, reads back
/// as exactly the value and the trailing text.
#[verifier::rlimit(100)]
pub proof fn lemma_parse_ser_value(v: JsonVal, rest: Seq<u8>)
    requires
        wf_val(v),
        delim_start(rest),
    ensures
        sp_value(ser(v) + rest) == Option::Some((v, rest)),
    decreases v, 1int,
{
    let s = ser(v) + rest;
    lemma_ser_head(v);
    assert(s[0] == ser(v)[0]);
    match v {
        JsonVal::Null => {
            assert(s =~= seq![0x6e_u8, 0x75, 0x6c, 0x6c] + rest);
            assert(s[0] == 0x6e && s[1] == 0x75 && s[2] == 0x6c && s[3] == 0x6c);
            assert(s.skip(4) =~= rest);
        },
        JsonVal::Bool(bv) => {
            if bv {
                assert(s =~= seq![0x74_u8, 0x72, 0x75, 0x65] + rest);
                assert(s[0] == 0x74 && s[1] == 0x72 && s[2] == 0x75 && s[3] == 0x65);
                assert(s.skip(4) =~= rest);
            } else {
                assert(s =~= seq![0x66_u8, 0x61, 0x6c, 0x73, 0x65] + rest);
                assert(s[0] == 0x66 && s[1] == 0x61 && s[2] == 0x6c && s[3] == 0x73 && s[4]
                    == 0x65);
                assert(s.skip(5) =~= rest);
            }
        },
        JsonVal::Num(lit) => {
            assert(sp_number(lit + rest) == Option::Some((lit, rest)));
            assert(s =~= lit + rest);
        },
        JsonVal::Str(t) => {
            lemma_value_str(t, rest);
        },
        JsonVal::Arr(a) => {
            lemma_value_arr(v, rest);
        },
        JsonVal::Obj(m) => {
            lemma_value_obj(v, rest);
        },
    }
}

/// The array case of the round trip.
#[verifier::rlimit(100)]
proof fn lemma_value_arr(v: JsonVal, rest: Seq<u8>)
    requires
        v is Arr,
        wf_val(v),
        delim_start(rest),
    ensures
        sp_value(ser(v) + rest) == Option::Some((v, rest)),
    decreases v, 0int,
{
    let a = v->Arr_0;
    let s = ser(v) + rest;
    assert(s[0] == 0x5b);
    assert(s.skip(1) =~= ser_items(a) + seq![0x5d] + rest);
    if a.len() == 0 {
        let t1 = seq![0x5d_u8] + rest;
        assert(s.skip(1) =~= t1);
        assert(!is_ws(t1[0]));
        assert(sp_ws(s.skip(1)) == t1);
        assert(t1[0] == 0x5d);
        assert(t1.skip(1) =~= rest);
        assert(v == JsonVal::Arr(a));
        assert(a =~= Seq::<JsonVal>::empty());
    } else {
        assert(wf_items_list(a));
        assert(wf_val(a[0]));
        lemma_ser_head(a[0]);
        assert(ser_items(a)[0] == ser(a[0])[0]);
        assert(s.skip(1)[0] == ser(a[0])[0]);
        assert(!is_ws(s.skip(1)[0]));
        assert(sp_ws(s.skip(1)) == s.skip(1));
        assert(s.skip(1)[0] != 0x5d);
        lemma_parse_ser_items(a, rest);
    }
}

/// The object case of the round trip.
#[verifier::rlimit(100)]
proof fn lemma_value_obj(v: JsonVal, rest: Seq<u8>)
    requires
        v is Obj,
        wf_val(v),
        delim_start(rest),
    ensures
        sp_value(ser(v) + rest) == Option::Some((v, rest)),
    decreases v, 0int,
{
    let m = v->Obj_0;
    let s = ser(v) + rest;
    assert(s[0] == 0x7b);
    assert(s.skip(1) =~= ser_members(m) + seq![0x7d] + rest);
    if m.len() == 0 {
        let t1 = seq![0x7d_u8] + rest;
        assert(s.skip(1) =~= t1);
        assert(!is_ws(t1[0]));
        assert(sp_ws(s.skip(1)) == t1);
        assert(t1[0] == 0x7d);
        assert(t1.skip(1) =~= rest);
        assert(v == JsonVal::Obj(m));
        assert(m =~= Seq::<(Seq<u8>, JsonVal)>::empty());
    } else {
        assert(ser_members(m)[0] == ser_member(m[0])[0]);
        assert(ser_member(m[0])[0] == 0x22);
        assert(s.skip(1)[0] == 0x22);
        assert(!is_ws(s.skip(1)[0]));
        assert(sp_ws(s.skip(1)) == s.skip(1));
        assert(s.skip(1)[0] != 0x7d);
        lemma_parse_ser_members(m, rest);
    }
}

/// The printed items of a nonempty array, with the closing bracket and/// The printed items of a nonempty array, with the closing bracket and
/// anything lawful after it, read back as exactly the items and the
/// trailing text.
#[verifier::rlimit(100)]
pub proof fn lemma_parse_ser_items(a: Seq<JsonVal>, rest: Seq<u8>)
    requires
        a.len() > 0,
        wf_items_list(a),
        delim_start(rest),
    ensures
        sp_items(ser_items(a) + seq![0x5d] + rest) == Option::Some((a, rest)),
    decreases a, 1int,
{
    let s = ser_items(a) + seq![0x5d] + rest;
    assert(wf_val(a[0]));
    lemma_ser_head(a[0]);
    if a.len() == 1 {
        let tail = seq![0x5d_u8] + rest;
        assert(s =~= ser(a[0]) + tail);
        assert(delim_start(tail));
        lemma_parse_ser_value(a[0], tail);
        assert(sp_value(s) == Option::Some((a[0], tail)));
        assert(tail.len() < s.len());
        assert(shorter_of(tail, s) == tail);
        assert(!is_ws(tail[0]));
        assert(sp_ws(tail) == tail);
        assert(tail[0] == 0x5d);
        assert(tail.skip(1) =~= rest);
        assert(seq![a[0]] =~= a);
    } else {
        let arest = a.subrange(1, a.len() as int);
        let tail = seq![0x2c_u8] + (ser_items(arest) + seq![0x5d] + rest);
        assert(ser_items(a) == ser(a[0]) + seq![0x2c] + ser_items(arest));
        assert(s =~= ser(a[0]) + tail);
        assert(delim_start(tail));
        lemma_parse_ser_value(a[0], tail);
        assert(sp_value(s) == Option::Some((a[0], tail)));
        assert(tail.len() < s.len());
        assert(shorter_of(tail, s) == tail);
        assert(!is_ws(tail[0]));
        assert(sp_ws(tail) == tail);
        assert(tail[0] == 0x2c);
        let nxt = tail.skip(1);
        assert(nxt =~= ser_items(arest) + seq![0x5d] + rest);
        assert(arest.len() > 0);
        assert(wf_items_list(arest));
        assert(wf_val(arest[0]));
        lemma_ser_head(arest[0]);
        assert(ser_items(arest)[0] == ser(arest[0])[0]);
        assert(nxt[0] == ser(arest[0])[0]);
        assert(!is_ws(nxt[0]));
        assert(sp_ws(nxt) == nxt);
        lemma_parse_ser_items(arest, rest);
        assert(sp_items(nxt) == Option::Some((arest, rest)));
        assert(seq![a[0]] + arest =~= a);
    }
}

/// The printed members of a nonempty object, with the closing brace and
/// anything lawful after it, read back as exactly the members and the
/// trailing text.
#[verifier::rlimit(100)]
pub proof fn lemma_parse_ser_members(m: Seq<(Seq<u8>, JsonVal)>, rest: Seq<u8>)
    requires
        m.len() > 0,
        wf_members_list(m),
        delim_start(rest),
    ensures
        sp_mems(ser_members(m) + seq![0x7d] + rest) == Option::Some((m, rest)),
    decreases m, 1int,
{
    let s = ser_members(m) + seq![0x7d] + rest;
    let k = m[0].0;
    let v0 = m[0].1;
    assert(wf_val(v0));
    lemma_ser_head(v0);
    let vtail: Seq<u8> = if m.len() == 1 {
        seq![0x7d_u8] + rest
    } else {
        seq![0x2c_u8] + (ser_members(m.subrange(1, m.len() as int)) + seq![0x7d] + rest)
    };
    let keytail = seq![0x3a_u8] + (ser(v0) + vtail);
    if m.len() == 1 {
        assert(ser_members(m) == ser_member(m[0]));
    } else {
        assert(ser_members(m) == ser_member(m[0]) + seq![0x2c] + ser_members(
            m.subrange(1, m.len() as int),
        ));
    }
    assert(ser_member(m[0]) == seq![0x22] + ser_str_body(k) + seq![0x22, 0x3a] + ser(v0));
    assert(s =~= seq![0x22_u8] + (ser_str_body(k) + seq![0x22] + keytail));
    assert(s[0] == 0x22);
    assert(s.skip(1) =~= ser_str_body(k) + seq![0x22] + keytail);
    lemma_parse_ser_str(k, keytail);
    assert(sp_string_body(s.skip(1)) == Option::Some((k, keytail)));
    assert(!is_ws(keytail[0]));
    assert(sp_ws(keytail) == keytail);
    assert(keytail[0] == 0x3a);
    assert(keytail.skip(1) =~= ser(v0) + vtail);
    assert(ser(v0).len() > 0 && !is_ws(ser(v0)[0]));
    assert((ser(v0) + vtail)[0] == ser(v0)[0]);
    assert(sp_ws(keytail.skip(1)) == keytail.skip(1));
    assert(delim_start(vtail));
    lemma_parse_ser_value(v0, vtail);
    assert(sp_value(keytail.skip(1)) == Option::Some((v0, vtail)));
    assert(vtail.len() < s.len());
    assert(shorter_of(vtail, s) == vtail);
    assert(!is_ws(vtail[0]));
    assert(sp_ws(vtail) == vtail);
    if m.len() == 1 {
        assert(vtail[0] == 0x7d);
        assert(vtail.skip(1) =~= rest);
        assert(seq![(k, v0)] =~= m);
    } else {
        let mrest = m.subrange(1, m.len() as int);
        assert(vtail[0] == 0x2c);
        let nxt = vtail.skip(1);
        assert(nxt =~= ser_members(mrest) + seq![0x7d] + rest);
        assert(mrest.len() > 0);
        assert(wf_members_list(mrest));
        assert(ser_members(mrest)[0] == ser_member(mrest[0])[0]);
        assert(ser_member(mrest[0])[0] == 0x22);
        assert(nxt[0] == 0x22);
        assert(!is_ws(nxt[0]));
        assert(sp_ws(nxt) == nxt);
        lemma_parse_ser_members(mrest, rest);
        assert(sp_mems(nxt) == Option::Some((mrest, rest)));
        assert(seq![(k, v0)] + mrest =~= m);
    }
}

/// Printing then parsing gives the value back: for any well-formed value,
/// the parse of its printed text is exactly the value.
pub proof fn lemma_parse_of_ser(v: JsonVal)
    requires
        wf_val(v),
    ensures
        sp_json(ser(v)) == Option::Some(v),
{
    lemma_ser_head(v);
    lemma_parse_ser_value(v, Seq::empty());
    assert(ser(v) + Seq::<u8>::empty() =~= ser(v));
    assert(!is_ws(ser(v)[0]));
    assert(sp_ws(ser(v)) == ser(v));
    assert(sp_ws(Seq::<u8>::empty()).len() == 0);
}

} // verus!
