//! Small text helpers shared across the crate: byte views of string
//! literals, byte-vector equality, decimal spelling and reading of
//! integers, and whitespace trimming.

use vstd::prelude::*;
use vstd::string::StrSliceExecFns;
use vstd::string::StringSliceAdditionalSpecFns;

verus! {

/// The UTF-8 bytes of a string slice, as a spec value.
pub open spec fn bytes_of(s: &str) -> Seq<u8> {
    s.spec_bytes()
}

/// The UTF-8 bytes of a string slice, as a fresh vector.
pub fn byte_vec(s: &str) -> (r: Vec<u8>)
    ensures
        r@ == bytes_of(s),
{
    s.as_bytes_vec()
}

/// Whether two byte vectors hold the same bytes.
pub fn bytes_eq(a: &Vec<u8>, b: &Vec<u8>) -> (r: bool)
    ensures
        r == (a@ == b@),
{
    if a.len() != b.len() {
        assert(a@ != b@);
        return false;
    }
    let mut i: usize = 0;
    while i < a.len()
        invariant
            0 <= i <= a.len(),
            a.len() == b.len(),
            forall|j: int| 0 <= j < i ==> a@[j] == b@[j],
        decreases a.len() - i,
    {
        if a[i] != b[i] {
            return false;
        }
        i = i + 1;
    }
    proof {
        assert(a@ =~= b@);
    }
    true
}

/// Whether a byte vector holds exactly the bytes of a string slice.
pub fn bytes_eq_str(a: &Vec<u8>, s: &str) -> (r: bool)
    ensures
        r == (a@ == bytes_of(s)),
{
    let b = byte_vec(s);
    bytes_eq(a, &b)
}

/// A fresh vector holding the same bytes.
pub fn copy_bytes(a: &Vec<u8>) -> (r: Vec<u8>)
    ensures
        r@ == a@,
{
    let mut out: Vec<u8> = Vec::new();
    let mut i: usize = 0;
    while i < a.len()
        invariant
            0 <= i <= a.len(),
            out@ == a@.take(i as int),
        decreases a.len() - i,
    {
        out.push(a[i]);
        proof {
            assert(a@.take(i + 1) =~= a@.take(i as int) + seq![a@[i as int]]);
        }
        i = i + 1;
    }
    proof {
        assert(a@.take(a@.len() as int) =~= a@);
    }
    out
}

/// The decimal spelling of the signed value `n`: a minus sign for negative
/// values, then the digits.
pub open spec fn int_digits(n: int) -> Seq<u8> {
    if n < 0 {
        seq![0x2d] + dec_digits((-n) as nat)
    } else {
        dec_digits(n as nat)
    }
}

/// The decimal spelling of `n` as a fresh vector.
pub fn dec_i64(n: i64) -> (r: Vec<u8>)
    requires
        n > i64::MIN,
    ensures
        r@ == int_digits(n as int),
{
    let mut out: Vec<u8> = Vec::new();
    if n < 0 {
        out.push(0x2d);
        push_dec_u64((-n) as u64, &mut out);
        proof {
            assert(seq![0x2d_u8] + dec_digits((-n) as nat) =~= out@);
        }
    } else {
        push_dec_u64(n as u64, &mut out);
        proof {
            assert(Seq::<u8>::empty() + dec_digits(n as nat) =~= out@);
        }
    }
    out
}

/// The decimal spelling of `n`.
pub open spec fn dec_digits(n: nat) -> Seq<u8>
    decreases n,
{
    if n < 10 {
        seq![(0x30 + n) as u8]
    } else {
        dec_digits(n / 10) + seq![(0x30 + n % 10) as u8]
    }
}

/// Appends the decimal spelling of `n` to `out`.
pub fn push_dec_u64(n: u64, out: &mut Vec<u8>)
    ensures
        final(out)@ == old(out)@ + dec_digits(n as nat),
    decreases n,
{
    if n < 10 {
        out.push(0x30 + (n as u8));
        assert(out@ =~= old(out)@ + dec_digits(n as nat));
    } else {
        push_dec_u64(n / 10, out);
        let ghost mid = out@;
        out.push(0x30 + ((n % 10) as u8));
        proof {
            assert(out@ =~= old(out)@ + (dec_digits(n as nat / 10) + seq![
                (0x30 + n as nat % 10) as u8,
            ]));
        }
    }
}

/// The decimal spelling of `n` as a fresh vector.
pub fn dec_u64(n: u64) -> (r: Vec<u8>)
    ensures
        r@ == dec_digits(n as nat),
{
    let mut out: Vec<u8> = Vec::new();
    push_dec_u64(n, &mut out);
    out
}

/// The numeric value of a digit string, most significant digit first.
pub open spec fn dec_val(d: Seq<u8>) -> int
    decreases d.len(),
{
    if d.len() == 0 {
        0
    } else {
        dec_val(d.take(d.len() - 1)) * 10 + (d.last() - 0x30)
    }
}

/// Whether every byte of `d` is a decimal digit.
pub open spec fn all_digits(d: Seq<u8>) -> bool {
    forall|i: int| 0 <= i < d.len() ==> 0x30 <= #[trigger] d[i] <= 0x39
}

/// Reads a nonempty all-digit byte vector as a `u64`. Fails on other input
/// and on values that do not fit.
pub fn parse_dec_u64(d: &Vec<u8>) -> (r: Option<u64>)
    ensures
        r matches Some(v) ==> d@.len() > 0 && all_digits(d@) && v as int == dec_val(d@),
        r is None ==> d@.len() == 0 || !all_digits(d@) || dec_val(d@) > u64::MAX,
{
    if d.len() == 0 {
        return None;
    }
    let mut acc: u64 = 0;
    let mut i: usize = 0;
    while i < d.len()
        invariant
            0 <= i <= d.len(),
            acc as int == dec_val(d@.take(i as int)),
            forall|j: int| 0 <= j < i ==> 0x30 <= #[trigger] d@[j] <= 0x39,
        decreases d.len() - i,
    {
        let b = d[i];
        if b < 0x30 || b > 0x39 {
            proof {
                assert(!all_digits(d@));
            }
            return None;
        }
        let dig = (b - 0x30) as u64;
        if acc > (u64::MAX - dig) / 10 {
            proof {
                assert(d@.take(i + 1).take(i as int) =~= d@.take(i as int));
                assert(d@.take(i + 1).last() == d@[i as int]);
                assert(dec_val(d@.take(i + 1)) == dec_val(d@.take(i as int)) * 10 + (d@[i as int]
                    - 0x30));
                assert(dec_val(d@.take(i + 1)) > u64::MAX);
                if all_digits(d@) {
                    lemma_dec_val_monotone(d@, i + 1);
                    assert(dec_val(d@) >= dec_val(d@.take(i + 1)));
                }
            }
            return None;
        }
        acc = acc * 10 + dig;
        proof {
            assert(d@.take(i + 1).take(i as int) =~= d@.take(i as int));
            assert(d@.take(i + 1).last() == d@[i as int]);
        }
        i = i + 1;
    }
    proof {
        assert(d@.take(d@.len() as int) =~= d@);
    }
    Some(acc)
}

/// A digit string's value is never negative.
pub proof fn lemma_dec_val_nonneg(d: Seq<u8>)
    requires
        all_digits(d),
    ensures
        dec_val(d) >= 0,
    decreases d.len(),
{
    if d.len() > 0 {
        assert(all_digits(d.take(d.len() - 1)));
        lemma_dec_val_nonneg(d.take(d.len() - 1));
    }
}

/// A longer digit prefix never has a smaller value.
pub proof fn lemma_dec_val_monotone(d: Seq<u8>, k: int)
    requires
        0 <= k <= d.len(),
        all_digits(d),
    ensures
        dec_val(d) >= dec_val(d.take(k)),
    decreases d.len() - k,
{
    if k < d.len() {
        lemma_dec_val_monotone(d, k + 1);
        assert(d.take(k + 1).take(k) =~= d.take(k));
        assert(all_digits(d.take(k)));
        lemma_dec_val_nonneg(d.take(k));
        assert(dec_val(d.take(k + 1)) == dec_val(d.take(k)) * 10 + (d.take(k + 1).last() - 0x30));
        assert(dec_val(d.take(k + 1)) >= dec_val(d.take(k)));
    } else {
        assert(d.take(k) =~= d);
    }
}

/// JSON-style ASCII whitespace, as input trimming counts it.
pub open spec fn is_trim_ws(b: u8) -> bool {
    b == 0x20 || b == 0x09 || b == 0x0a || b == 0x0d
}

/// The input without its leading whitespace.
pub open spec fn spec_trim_left(s: Seq<u8>) -> Seq<u8>
    decreases s.len(),
{
    if s.len() > 0 && is_trim_ws(s[0]) {
        spec_trim_left(s.skip(1))
    } else {
        s
    }
}

/// The input without its trailing whitespace.
pub open spec fn spec_trim_right(s: Seq<u8>) -> Seq<u8>
    decreases s.len(),
{
    if s.len() > 0 && is_trim_ws(s.last()) {
        spec_trim_right(s.drop_last())
    } else {
        s
    }
}

/// The input without leading or trailing whitespace.
pub open spec fn spec_trim(s: Seq<u8>) -> Seq<u8> {
    spec_trim_right(spec_trim_left(s))
}

/// A fresh vector holding the input without leading or trailing
/// whitespace.
#[verifier::loop_isolation(false)]
pub fn trim_bytes(s: &Vec<u8>) -> (r: Vec<u8>)
    ensures
        r@ == spec_trim(s@),
{
    let mut a: usize = 0;
    proof {
        assert(s@.skip(0) =~= s@);
    }
    while a < s.len() && (s[a] == 0x20 || s[a] == 0x09 || s[a] == 0x0a || s[a] == 0x0d)
        invariant
            0 <= a <= s.len(),
            spec_trim_left(s@) == spec_trim_left(s@.skip(a as int)),
        decreases s.len() - a,
    {
        proof {
            assert(s@.skip(a as int)[0] == s@[a as int]);
            assert(s@.skip(a as int).skip(1) =~= s@.skip(a + 1));
        }
        a = a + 1;
    }
    proof {
        if a < s.len() {
            assert(s@.skip(a as int)[0] == s@[a as int]);
        }
        assert(spec_trim_left(s@) == s@.skip(a as int));
    }
    let mut b: usize = s.len();
    proof {
        assert(s@.skip(a as int).take(b - a) =~= s@.skip(a as int));
    }
    while b > a && (s[b - 1] == 0x20 || s[b - 1] == 0x09 || s[b - 1] == 0x0a || s[b - 1] == 0x0d)
        invariant
            a <= b <= s.len(),
            spec_trim_right(s@.skip(a as int)) == spec_trim_right(
                s@.skip(a as int).take(b - a),
            ),
        decreases b,
    {
        proof {
            let x = s@.skip(a as int).take(b - a);
            assert(x.last() == s@[b - 1]);
            assert(x.drop_last() =~= s@.skip(a as int).take(b - 1 - a));
        }
        b = b - 1;
    }
    proof {
        let x = s@.skip(a as int).take(b - a);
        if b > a {
            assert(x.last() == s@[b - 1]);
        }
        assert(spec_trim_right(x) == x);
    }
    let mut out: Vec<u8> = Vec::new();
    let mut i: usize = a;
    while i < b
        invariant
            a <= i <= b <= s.len(),
            out@ == s@.subrange(a as int, i as int),
        decreases b - i,
    {
        out.push(s[i]);
        proof {
            assert(s@.subrange(a as int, i + 1) =~= s@.subrange(a as int, i as int) + seq![
                s@[i as int],
            ]);
        }
        i = i + 1;
    }
    proof {
        assert(s@.subrange(a as int, b as int) =~= s@.skip(a as int).take(b - a));
    }
    out
}

} // verus!
