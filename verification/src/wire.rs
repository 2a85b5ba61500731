//! Byte-level building blocks shared by the wire formats: big-endian
//! integer fields, ASCII decimal numbers and byte-slice comparison.

use vstd::prelude::*;
use vstd::string::StringSliceAdditionalSpecFns;
use vstd::string::StrSliceExecFns;
use vstd::string::StringExecFns;

verus! {

/// Big-endian byte sequence of a `u64` (8 bytes, most significant first).
pub open spec fn spec_u64_to_be_bytes(x: u64) -> Seq<u8> {
    seq![
        ((x >> 56) & 0xff) as u8,
        ((x >> 48) & 0xff) as u8,
        ((x >> 40) & 0xff) as u8,
        ((x >> 32) & 0xff) as u8,
        ((x >> 24) & 0xff) as u8,
        ((x >> 16) & 0xff) as u8,
        ((x >> 8) & 0xff) as u8,
        (x & 0xff) as u8,
    ]
}

/// The `u64` denoted by 8 big-endian bytes.
pub open spec fn spec_u64_from_be_bytes(s: Seq<u8>) -> u64
    recommends
        s.len() == 8,
{
    (((s[0] as u64) << 56) | ((s[1] as u64) << 48) | ((s[2] as u64) << 40) | ((s[3] as u64) << 32)
        | ((s[4] as u64) << 24) | ((s[5] as u64) << 16) | ((s[6] as u64) << 8) | (s[7] as u64)) as u64
}

/// Big-endian byte sequence of a `u32` (4 bytes).
pub open spec fn spec_u32_to_be_bytes(x: u32) -> Seq<u8> {
    seq![
        ((x >> 24) & 0xff) as u8,
        ((x >> 16) & 0xff) as u8,
        ((x >> 8) & 0xff) as u8,
        (x & 0xff) as u8,
    ]
}

/// The `u32` denoted by 4 big-endian bytes.
pub open spec fn spec_u32_from_be_bytes(s: Seq<u8>) -> u32
    recommends
        s.len() == 4,
{
    (((s[0] as u32) << 24) | ((s[1] as u32) << 16) | ((s[2] as u32) << 8) | (s[3] as u32)) as u32
}

/// Big-endian byte sequence of a `u16` (2 bytes).
pub open spec fn spec_u16_to_be_bytes(x: u16) -> Seq<u8> {
    seq![((x >> 8) & 0xff) as u8, (x & 0xff) as u8]
}

/// The `u16` denoted by 2 big-endian bytes.
pub open spec fn spec_u16_from_be_bytes(s: Seq<u8>) -> u16
    recommends
        s.len() == 2,
{
    (((s[0] as u16) << 8) | (s[1] as u16)) as u16
}

/// Reading back the big-endian bytes of `x` yields `x` again.
pub proof fn lemma_u64_be_bytes_invert(x: u64)
    ensures
        spec_u64_to_be_bytes(x).len() == 8,
        spec_u64_from_be_bytes(spec_u64_to_be_bytes(x)) == x,
{
    assert({
        &&& (x >> 56) & 0xff < 256
        &&& (x >> 48) & 0xff < 256
        &&& (x >> 40) & 0xff < 256
        &&& (x >> 32) & 0xff < 256
        &&& (x >> 24) & 0xff < 256
        &&& (x >> 16) & 0xff < 256
        &&& (x >> 8) & 0xff < 256
        &&& x & 0xff < 256
    }) by (bit_vector);
    assert(x == ((((x >> 56) & 0xff) << 56) | (((x >> 48) & 0xff) << 48) | (((x >> 40) & 0xff)
        << 40) | (((x >> 32) & 0xff) << 32) | (((x >> 24) & 0xff) << 24) | (((x >> 16) & 0xff)
        << 16) | (((x >> 8) & 0xff) << 8) | (x & 0xff))) by (bit_vector);
}

/// Two `u64`s with the same big-endian bytes are equal.
pub proof fn lemma_u64_be_bytes_injective(x: u64, y: u64)
    requires
        spec_u64_to_be_bytes(x) == spec_u64_to_be_bytes(y),
    ensures
        x == y,
{
    lemma_u64_be_bytes_invert(x);
    lemma_u64_be_bytes_invert(y);
}

/// Reading back the big-endian bytes of `x` yields `x` again.
pub proof fn lemma_u32_be_bytes_invert(x: u32)
    ensures
        spec_u32_to_be_bytes(x).len() == 4,
        spec_u32_from_be_bytes(spec_u32_to_be_bytes(x)) == x,
{
    assert({
        &&& (x >> 24) & 0xff < 256
        &&& (x >> 16) & 0xff < 256
        &&& (x >> 8) & 0xff < 256
        &&& x & 0xff < 256
    }) by (bit_vector);
    assert(x == ((((x >> 24) & 0xff) << 24) | (((x >> 16) & 0xff) << 16) | (((x >> 8) & 0xff) << 8)
        | (x & 0xff))) by (bit_vector);
}

/// Reading back the big-endian bytes of `x` yields `x` again.
pub proof fn lemma_u16_be_bytes_invert(x: u16)
    ensures
        spec_u16_to_be_bytes(x).len() == 2,
        spec_u16_from_be_bytes(spec_u16_to_be_bytes(x)) == x,
{
    assert({
        &&& (x >> 8) & 0xff < 256
        &&& x & 0xff < 256
    }) by (bit_vector);
    assert(x == ((((x >> 8) & 0xff) << 8) | (x & 0xff))) by (bit_vector);
}

/// Appends the 8 big-endian bytes of `x` to `out`.
pub fn push_u64_be(out: &mut Vec<u8>, x: u64)
    ensures
        final(out)@ == old(out)@ + spec_u64_to_be_bytes(x),
{
    out.push(((x >> 56) & 0xff) as u8);
    out.push(((x >> 48) & 0xff) as u8);
    out.push(((x >> 40) & 0xff) as u8);
    out.push(((x >> 32) & 0xff) as u8);
    out.push(((x >> 24) & 0xff) as u8);
    out.push(((x >> 16) & 0xff) as u8);
    out.push(((x >> 8) & 0xff) as u8);
    out.push((x & 0xff) as u8);
    proof {
        assert(out@ =~= old(out)@ + spec_u64_to_be_bytes(x));
    }
}

/// Appends the 4 big-endian bytes of `x` to `out`.
pub fn push_u32_be(out: &mut Vec<u8>, x: u32)
    ensures
        final(out)@ == old(out)@ + spec_u32_to_be_bytes(x),
{
    out.push(((x >> 24) & 0xff) as u8);
    out.push(((x >> 16) & 0xff) as u8);
    out.push(((x >> 8) & 0xff) as u8);
    out.push((x & 0xff) as u8);
    proof {
        assert(out@ =~= old(out)@ + spec_u32_to_be_bytes(x));
    }
}

/// Appends the 2 big-endian bytes of `x` to `out`.
pub fn push_u16_be(out: &mut Vec<u8>, x: u16)
    ensures
        final(out)@ == old(out)@ + spec_u16_to_be_bytes(x),
{
    out.push(((x >> 8) & 0xff) as u8);
    out.push((x & 0xff) as u8);
    proof {
        assert(out@ =~= old(out)@ + spec_u16_to_be_bytes(x));
    }
}

/// Reads the `u64` stored big-endian at `bytes[at .. at + 8]`.
pub fn read_u64_be(bytes: &[u8], at: usize) -> (r: u64)
    requires
        at + 8 <= bytes@.len(),
    ensures
        r == spec_u64_from_be_bytes(bytes@.subrange(at as int, at + 8)),
{
    let b0: u64 = bytes[at] as u64;
    let b1: u64 = bytes[at + 1] as u64;
    let b2: u64 = bytes[at + 2] as u64;
    let b3: u64 = bytes[at + 3] as u64;
    let b4: u64 = bytes[at + 4] as u64;
    let b5: u64 = bytes[at + 5] as u64;
    let b6: u64 = bytes[at + 6] as u64;
    let b7: u64 = bytes[at + 7] as u64;
    (b0 << 56) | (b1 << 48) | (b2 << 40) | (b3 << 32) | (b4 << 24) | (b5 << 16) | (b6 << 8) | b7
}

/// Reads the `u32` stored big-endian at `bytes[at .. at + 4]`.
pub fn read_u32_be(bytes: &[u8], at: usize) -> (r: u32)
    requires
        at + 4 <= bytes@.len(),
    ensures
        r == spec_u32_from_be_bytes(bytes@.subrange(at as int, at + 4)),
{
    let b0: u32 = bytes[at] as u32;
    let b1: u32 = bytes[at + 1] as u32;
    let b2: u32 = bytes[at + 2] as u32;
    let b3: u32 = bytes[at + 3] as u32;
    (b0 << 24) | (b1 << 16) | (b2 << 8) | b3
}

/// Reads the `u16` stored big-endian at `bytes[at .. at + 2]`.
pub fn read_u16_be(bytes: &[u8], at: usize) -> (r: u16)
    requires
        at + 2 <= bytes@.len(),
    ensures
        r == spec_u16_from_be_bytes(bytes@.subrange(at as int, at + 2)),
{
    let b0: u16 = bytes[at] as u16;
    let b1: u16 = bytes[at + 1] as u16;
    (b0 << 8) | b1
}

/// True when the two byte slices hold the same bytes.
pub fn bytes_eq(a: &[u8], b: &[u8]) -> (r: bool)
    ensures
        r <==> a@ =~= b@,
{
    if a.len() != b.len() {
        return false;
    }
    let mut i: usize = 0;
    while i < a.len()
        invariant
            i <= a@.len(),
            a@.len() == b@.len(),
            forall|j: int| 0 <= j < i ==> a@[j] == b@[j],
        decreases a@.len() - i,
    {
        if a[i] != b[i] {
            return false;
        }
        i = i + 1;
    }
    true
}


/// True when two string slices hold the same characters. Compares the
/// UTF-8 bytes; equal encodings mean equal character sequences.
pub fn str_eq(a: &str, b: &str) -> (r: bool)
    ensures
        r <==> a@ == b@,
{
    let r = bytes_eq(a.as_bytes(), b.as_bytes());
    proof {
        if a.spec_bytes() =~= b.spec_bytes() {
            vstd::utf8::encode_utf8_decode_utf8(a@);
            vstd::utf8::encode_utf8_decode_utf8(b@);
        }
    }
    r
}


/// The ASCII decimal digits of `n`, most significant first.
pub open spec fn spec_dec_u64(n: u64) -> Seq<u8>
    decreases n,
{
    if n < 10 {
        seq![(48 + n) as u8]
    } else {
        spec_dec_u64((n / 10) as u64) + seq![(48 + n % 10) as u8]
    }
}

/// Decimal digits are ASCII digits: between `0` and `9`.
pub proof fn lemma_dec_u64_digits(n: u64)
    ensures
        spec_dec_u64(n).len() >= 1,
        forall|i: int|
            0 <= i < spec_dec_u64(n).len() ==> 48 <= #[trigger] spec_dec_u64(n)[i] <= 57,
    decreases n,
{
    if n >= 10 {
        lemma_dec_u64_digits((n / 10) as u64);
    }
}

/// The `u64` denoted by a string of ASCII decimal digits: `None` on an
/// empty string, a non-digit byte, or overflow.
pub open spec fn spec_parse_dec_u64(s: Seq<u8>) -> Option<u64>
    decreases s.len(),
{
    if s.len() == 0 {
        None
    } else {
        let d = s.last();
        if !(48 <= d <= 57) {
            None
        } else if s.len() == 1 {
            Some((d - 48) as u64)
        } else {
            match spec_parse_dec_u64(s.drop_last()) {
                None => None,
                Some(m) => if m <= (0xffff_ffff_ffff_ffffu64 - (d - 48) as u64) / 10 {
                    Some((m * 10 + (d - 48)) as u64)
                } else {
                    None
                },
            }
        }
    }
}

/// Parsing the decimal digits of `n` yields `n` again.
pub proof fn lemma_dec_u64_round_trip(n: u64)
    ensures
        spec_parse_dec_u64(spec_dec_u64(n)) == Some(n),
    decreases n,
{
    if n < 10 {
        assert(spec_dec_u64(n) == seq![(48 + n) as u8]);
    } else {
        lemma_dec_u64_round_trip((n / 10) as u64);
        let s = spec_dec_u64(n);
        let prefix = spec_dec_u64((n / 10) as u64);
        assert(s.drop_last() =~= prefix);
        assert(s.last() == (48 + n % 10) as u8);
        assert((n / 10) * 10 + n % 10 == n) by {
            vstd::arithmetic::div_mod::lemma_fundamental_div_mod(n as int, 10);
        }
    }
}

/// Writes `n` in ASCII decimal.
pub fn u64_to_dec(n: u64) -> (r: Vec<u8>)
    ensures
        r@ == spec_dec_u64(n),
    decreases n,
{
    if n < 10 {
        let mut r: Vec<u8> = Vec::new();
        r.push(48 + (n as u8));
        proof {
            assert(r@ =~= spec_dec_u64(n));
        }
        r
    } else {
        let mut r = u64_to_dec(n / 10);
        r.push(48 + ((n % 10) as u8));
        proof {
            assert(r@ =~= spec_dec_u64(n));
        }
        r
    }
}

/// Parses ASCII decimal digits as a `u64`.
pub fn parse_dec_u64(s: &[u8]) -> (r: Option<u64>)
    ensures
        r == spec_parse_dec_u64(s@),
{
    if s.len() == 0 {
        return None;
    }
    let mut acc: u64 = 0;
    let mut i: usize = 0;
    while i < s.len()
        invariant
            0 < s@.len(),
            i <= s@.len(),
            i > 0 ==> spec_parse_dec_u64(s@.take(i as int)) == Some(acc),
            i == 0 ==> acc == 0,
        decreases s@.len() - i,
    {
        let d = s[i];
        if !(48 <= d && d <= 57) {
            proof {
                lemma_parse_dec_u64_bad_digit(s@, i as int);
            }
            return None;
        }
        let v: u64 = (d - 48) as u64;
        if i == 0 {
            acc = v;
        } else {
            if acc > (0xffff_ffff_ffff_ffffu64 - v) / 10 {
                proof {
                    lemma_parse_dec_u64_overflow(s@, i as int, acc);
                }
                return None;
            }
            acc = acc * 10 + v;
        }
        proof {
            assert(s@.take(i + 1).drop_last() =~= s@.take(i as int));
            assert(s@.take(i + 1).last() == s@[i as int]);
        }
        i = i + 1;
    }
    proof {
        assert(s@.take(s@.len() as int) =~= s@);
    }
    Some(acc)
}

/// A non-digit anywhere makes the whole string unparsable.
proof fn lemma_parse_dec_u64_bad_digit(s: Seq<u8>, i: int)
    requires
        0 <= i < s.len(),
        !(48 <= s[i] <= 57),
    ensures
        spec_parse_dec_u64(s) is None,
    decreases s.len(),
{
    if s.len() > 0 {
        if i == s.len() - 1 {
        } else {
            lemma_parse_dec_u64_bad_digit(s.drop_last(), i);
        }
    }
}

/// Once the accumulated prefix would overflow, the whole string is
/// unparsable.
proof fn lemma_parse_dec_u64_overflow(s: Seq<u8>, i: int, acc: u64)
    requires
        0 < i < s.len(),
        spec_parse_dec_u64(s.take(i)) == Some(acc),
        48 <= s[i] <= 57,
        acc > (0xffff_ffff_ffff_ffffu64 - ((s[i] - 48) as u64)) / 10,
    ensures
        spec_parse_dec_u64(s) is None,
    decreases s.len() - i,
{
    if i == s.len() - 1 {
        assert(s.take(i) =~= s.drop_last());
    } else {
        assert(spec_parse_dec_u64(s.take(i + 1)) is None) by {
            assert(s.take(i + 1).drop_last() =~= s.take(i));
            assert(s.take(i + 1).last() == s[i]);
        }
        lemma_parse_dec_u64_none_extends(s, i + 1);
    }
}

/// An unparsable prefix keeps every extension unparsable.
proof fn lemma_parse_dec_u64_none_extends(s: Seq<u8>, i: int)
    requires
        0 < i <= s.len(),
        spec_parse_dec_u64(s.take(i)) is None,
    ensures
        spec_parse_dec_u64(s) is None,
    decreases s.len() - i,
{
    if i == s.len() {
        assert(s.take(i) =~= s);
    } else {
        assert(spec_parse_dec_u64(s.take(i + 1)) is None) by {
            assert(s.take(i + 1).drop_last() =~= s.take(i));
        }
        lemma_parse_dec_u64_none_extends(s, i + 1);
    }
}

/// The index of the first occurrence of `b` in `s`, or -1.
pub open spec fn spec_find_byte(s: Seq<u8>, b: u8) -> int
    decreases s.len(),
{
    if s.len() == 0 {
        -1
    } else if s[0] == b {
        0
    } else {
        let r = spec_find_byte(s.drop_first(), b);
        if r == -1 {
            -1
        } else {
            r + 1
        }
    }
}

/// What `spec_find_byte` returns: -1 when the byte does not occur, else
/// the first index holding it.
pub proof fn lemma_find_byte_characterization(s: Seq<u8>, b: u8)
    ensures
        spec_find_byte(s, b) == -1 ==> forall|i: int| 0 <= i < s.len() ==> s[i] != b,
        spec_find_byte(s, b) != -1 ==> {
            let r = spec_find_byte(s, b);
            &&& 0 <= r < s.len()
            &&& s[r] == b
            &&& forall|i: int| 0 <= i < r ==> s[i] != b
        },
    decreases s.len(),
{
    if s.len() > 0 && s[0] != b {
        let t = s.drop_first();
        lemma_find_byte_characterization(t, b);
        let rt = spec_find_byte(t, b);
        assert(forall|i: int| 1 <= i < s.len() ==> s[i] == #[trigger] t[i - 1]);
        if rt == -1 {
            assert forall|i: int| 0 <= i < s.len() implies s[i] != b by {
                if i > 0 {
                    assert(t[i - 1] != b);
                }
            }
        } else {
            assert(s[rt + 1] == t[rt] && t[rt] == b);
            assert forall|i: int| 0 <= i < rt + 1 implies s[i] != b by {
                if i > 0 {
                    assert(t[i - 1] != b);
                }
            }
        }
    }
}

/// A position holding `b` with a clean prefix is the find result.
pub proof fn lemma_find_byte_at(s: Seq<u8>, b: u8, j: int)
    requires
        0 <= j < s.len(),
        s[j] == b,
        forall|i: int| 0 <= i < j ==> s[i] != b,
    ensures
        spec_find_byte(s, b) == j,
{
    lemma_find_byte_characterization(s, b);
    let r = spec_find_byte(s, b);
    if r == -1 {
        assert(s[j] != b);
    } else if r < j {
        assert(s[r] != b);
    } else if r > j {
        assert(s[j] != b);
    }
}

/// Finds the first occurrence of `b` in `s`.
pub fn find_byte(s: &[u8], b: u8) -> (r: Option<usize>)
    ensures
        match r {
            Some(i) => i < s@.len() && s@[i as int] == b && spec_find_byte(s@, b) == i,
            None => spec_find_byte(s@, b) == -1,
        },
{
    let mut i: usize = 0;
    while i < s.len()
        invariant
            i <= s@.len(),
            forall|j: int| 0 <= j < i ==> s@[j] != b,
        decreases s@.len() - i,
    {
        if s[i] == b {
            proof {
                lemma_find_byte_at(s@, b, i as int);
            }
            return Some(i);
        }
        i = i + 1;
    }
    proof {
        lemma_find_byte_characterization(s@, b);
        let r = spec_find_byte(s@, b);
        if r != -1 {
            assert(s@[r] == b);
        }
    }
    None
}


/// The decimal digits of `n` as characters.
pub open spec fn spec_dec_chars(n: u64) -> Seq<char> {
    Seq::new(spec_dec_u64(n).len(), |i: int| spec_dec_u64(n)[i] as char)
}

/// Writes `n` in ASCII decimal as a `String`.
pub fn u64_to_string(n: u64) -> (r: String)
    ensures
        r@ == spec_dec_chars(n),
{
    let digits = u64_to_dec(n);
    let table = "0123456789";
    proof {
        reveal_strlit("0123456789");
        lemma_dec_u64_digits(n);
    }
    let mut out = String::new();
    let mut i: usize = 0;
    while i < digits.len()
        invariant
            i <= digits@.len(),
            digits@ == spec_dec_u64(n),
            forall|j: int| 0 <= j < digits@.len() ==> 48 <= #[trigger] digits@[j] <= 57,
            table@ =~= "0123456789"@,
            table@.len() == 10,
            forall|j: int| 0 <= j < 10 ==> #[trigger] table@[j] == ((48 + j) as u8) as char,
            table.is_ascii(),
            out@ =~= Seq::new(i as nat, |j: int| digits@[j] as char),
        decreases digits@.len() - i,
    {
        let d = (digits[i] - 48) as usize;
        let piece = table.substring_ascii(d, d + 1);
        out.append(piece);
        proof {
            assert(piece@ =~= seq![table@[d as int]]);
            assert(out@ =~= Seq::new((i + 1) as nat, |j: int| digits@[j] as char));
        }
        i = i + 1;
    }
    proof {
        assert(out@ =~= spec_dec_chars(n));
    }
    out
}

} // verus!
