use vstd::prelude::*;
use vstd::utf8::*;
use vstd::string::StringSliceAdditionalSpecFns;
use vstd::string::StringExecFns;

verus! {

broadcast use vstd::utf8::group_utf8_lib;

/// What `String::from_utf8_lossy` makes of a byte sequence that is not valid
/// UTF-8 (each invalid sequence replaced by U+FFFD).
pub uninterp spec fn spec_from_utf8_lossy(bytes: Seq<u8>) -> Seq<char>;

/// The text that a lossy UTF-8 decoding of `bytes` yields: the decoded
/// characters when `bytes` is valid UTF-8.
pub open spec fn lossy_text(bytes: Seq<u8>) -> Seq<char> {
    if valid_utf8(bytes) {
        decode_utf8(bytes)
    } else {
        spec_from_utf8_lossy(bytes)
    }
}

/// Calls `String::from_utf8_lossy` and takes ownership of the result.
/// Trusted: std documents that valid UTF-8 comes back unchanged and that
/// each invalid sequence becomes U+FFFD; the exact text for invalid input is
/// left to the name `spec_from_utf8_lossy`.
#[verifier::external_body]
pub(crate) fn string_from_utf8_lossy(bytes: &[u8]) -> (s: String)
    ensures
        s@ == (if valid_utf8(bytes@) {
            decode_utf8(bytes@)
        } else {
            spec_from_utf8_lossy(bytes@)
        }),
        !valid_utf8(bytes@) ==> s@.contains('\u{FFFD}'),
{
    String::from_utf8_lossy(bytes).into_owned()
}

/// The characters of an ASCII byte sequence.
pub open spec fn ascii_chars(bytes: Seq<u8>) -> Seq<char> {
    Seq::new(bytes.len(), |i: int| bytes[i] as char)
}

/// Every byte is an ASCII code point.
pub open spec fn all_ascii(bytes: Seq<u8>) -> bool {
    forall|i: int| 0 <= i < bytes.len() ==> bytes[i] < 128
}

/// UTF-8 encodes ASCII text byte for byte.
pub proof fn lemma_ascii_encode(bytes: Seq<u8>)
    requires
        all_ascii(bytes),
    ensures
        encode_utf8(ascii_chars(bytes)) == bytes,
        is_ascii_chars(ascii_chars(bytes)),
{
    let c = ascii_chars(bytes);
    assert forall|i: int| 0 <= i < c.len() implies '\0' <= #[trigger] c[i] <= '\u{7f}' by {
        let b = bytes[i];
        assert(b < 128);
        assert((b as char) as u32 == b as u32);
    }
    is_ascii_chars_encode_utf8(c);
    assert forall|i: int| 0 <= i < c.len() implies c[i] as u8 == bytes[i] by {
        let b = bytes[i];
        assert((b as char) as u8 == b);
    }
    assert(encode_utf8(c) =~= bytes);
}

/// Builds a `String` from ASCII bytes.
pub fn ascii_text(bytes: &[u8]) -> (s: String)
    requires
        all_ascii(bytes@),
    ensures
        s@ == ascii_chars(bytes@),
{
    proof {
        lemma_ascii_encode(bytes@);
    }
    string_from_utf8_lossy(bytes)
}

/// The decimal digits of `n`, most significant first, as ASCII bytes.
pub open spec fn spec_decimal(n: nat) -> Seq<u8>
    decreases n,
{
    if n < 10 {
        seq![(48 + n) as u8]
    } else {
        spec_decimal(n / 10).push((48 + n % 10) as u8)
    }
}

pub proof fn lemma_decimal_ascii(n: nat)
    ensures
        all_ascii(spec_decimal(n)),
        spec_decimal(n).len() >= 1,
    decreases n,
{
    if n >= 10 {
        lemma_decimal_ascii(n / 10);
    }
}

/// Writes `n` in decimal.
pub fn decimal_bytes(n: u64) -> (r: Vec<u8>)
    ensures
        r@ == spec_decimal(n as nat),
{
    let mut m = n;
    let mut acc: Vec<u8> = Vec::new();
    loop
        invariant
            spec_decimal(n as nat) == spec_decimal(m as nat) + acc@,
        decreases m,
    {
        if m < 10 {
            let d: u8 = 48 + m as u8;
            acc.insert(0, d);
            assert(acc@ =~= seq![d] + (acc@.drop_first()));
            return acc;
        }
        let d: u8 = 48 + (m % 10) as u8;
        let ghost old_acc = acc@;
        acc.insert(0, d);
        assert(acc@ =~= seq![d] + old_acc);
        assert(spec_decimal(m as nat) == spec_decimal((m / 10) as nat).push(d));
        assert(spec_decimal(m as nat) + old_acc =~= spec_decimal((m / 10) as nat) + acc@);
        m = m / 10;
    }
}

/// `n` in decimal, as text.
pub open spec fn decimal_chars(n: nat) -> Seq<char> {
    ascii_chars(spec_decimal(n))
}

/// Writes `n` in decimal, as text.
pub fn decimal_text(n: u64) -> (s: String)
    ensures
        s@ == decimal_chars(n as nat),
{
    let b = decimal_bytes(n);
    proof {
        lemma_decimal_ascii(n as nat);
    }
    ascii_text(b.as_slice())
}

/// `<prefix><n> exceeds maximum <max>`: the text of a refused length.
pub open spec fn limit_message(prefix: Seq<char>, n: nat, max: nat) -> Seq<char> {
    prefix + decimal_chars(n) + " exceeds maximum "@ + decimal_chars(max)
}

/// Builds `<prefix><n> exceeds maximum <max>`.
pub fn limit_text(prefix: &str, n: u64, max: u64) -> (s: String)
    ensures
        s@ == limit_message(prefix@, n as nat, max as nat),
{
    let mut s = prefix.to_owned();
    let a = decimal_text(n);
    s.append(a.as_str());
    s.append(" exceeds maximum ");
    let b = decimal_text(max);
    s.append(b.as_str());
    s
}

/// Appends the bytes of a string literal.
pub fn push_str_bytes(out: &mut Vec<u8>, s: &str)
    ensures
        final(out)@ == old(out)@ + s.spec_bytes(),
{
    let b = s.as_bytes();
    let mut i: usize = 0;
    while i < b.len()
        invariant
            i <= b@.len(),
            b@ == s.spec_bytes(),
            out@ == old(out)@ + b@.take(i as int),
        decreases b@.len() - i,
    {
        out.push(b[i]);
        i = i + 1;
        assert(b@.take(i as int) =~= b@.take((i - 1) as int).push(b@[i - 1]));
    }
    assert(b@.take(i as int) =~= b@);
}

} // verus!

verus! {

/// An ASCII digit.
pub open spec fn is_digit(b: u8) -> bool {
    48 <= b <= 57
}

pub open spec fn all_digits(d: Seq<u8>) -> bool {
    forall|i: int| 0 <= i < d.len() ==> is_digit(#[trigger] d[i])
}

/// The number that a string of ASCII digits writes in decimal.
pub open spec fn parse_decimal(d: Seq<u8>) -> nat
    decreases d.len(),
{
    if d.len() == 0 {
        0
    } else {
        parse_decimal(d.drop_last()) * 10 + (d.last() - 48) as nat
    }
}

/// Writing a number in decimal and reading it back gives the number.
pub proof fn lemma_decimal_roundtrip(n: nat)
    ensures
        all_digits(spec_decimal(n)),
        parse_decimal(spec_decimal(n)) == n,
    decreases n,
{
    if n < 10 {
        let d = spec_decimal(n);
        assert(d.drop_last() =~= Seq::<u8>::empty());
        assert(d.last() == (48 + n) as u8);
        assert(((48 + n) as u8) as int == 48 + n);
        assert(parse_decimal(d.drop_last()) == 0);
        assert(parse_decimal(d) == parse_decimal(d.drop_last()) * 10 + (d.last() - 48) as nat);
    } else {
        lemma_decimal_roundtrip(n / 10);
        let d = spec_decimal(n);
        assert(d.drop_last() =~= spec_decimal(n / 10));
        assert(d.last() == (48 + n % 10) as u8);
        assert(((48 + n % 10) as u8) as int == 48 + n % 10);
        assert(parse_decimal(d) == parse_decimal(d.drop_last()) * 10 + (d.last() - 48) as nat);
        assert(n == (n / 10) * 10 + n % 10);
    }
}

/// A prefix of a digit string writes a number no larger than the whole.
pub proof fn lemma_parse_prefix_le(d: Seq<u8>, i: int)
    requires
        all_digits(d),
        0 <= i <= d.len(),
    ensures
        parse_decimal(d.take(i)) <= parse_decimal(d),
    decreases d.len() - i,
{
    if i < d.len() {
        let e = d.take(i + 1);
        assert(e.drop_last() =~= d.take(i));
        assert(is_digit(d[i]));
        assert(parse_decimal(e) == parse_decimal(d.take(i)) * 10 + (e.last() - 48) as nat);
        lemma_parse_prefix_le(d, i + 1);
    } else {
        assert(d.take(i) =~= d);
    }
}

/// Reads a decimal number; `None` when `d` holds a non-digit or the number
/// does not fit a `u64`.
pub fn parse_decimal_u64(d: &[u8]) -> (r: Option<u64>)
    ensures
        r matches Some(n) ==> all_digits(d@) && parse_decimal(d@) == n,
        r is None ==> !all_digits(d@) || parse_decimal(d@) > u64::MAX,
{
    let mut acc: u64 = 0;
    let mut i: usize = 0;
    while i < d.len()
        invariant
            i <= d@.len(),
            all_digits(d@.take(i as int)),
            acc == parse_decimal(d@.take(i as int)),
        decreases d@.len() - i,
    {
        let b = d[i];
        let ghost pre = d@.take(i as int);
        let ghost next = d@.take(i + 1);
        assert(next.drop_last() =~= pre);
        if b < 48 || b > 57 {
            assert(!is_digit(d@[i as int]));
            return None;
        }
        let digit = (b - 48) as u64;
        if acc > (u64::MAX - digit) / 10 {
            proof {
                assert(acc * 10 + digit > u64::MAX) by (nonlinear_arith)
                    requires
                        acc > (u64::MAX - digit) / 10,
                        digit <= 9,
                ;
                assert(parse_decimal(next) == acc * 10 + digit);
                if all_digits(d@) {
                    lemma_parse_prefix_le(d@, i + 1);
                }
            }
            return None;
        }
        proof {
            assert(acc * 10 + digit <= u64::MAX) by (nonlinear_arith)
                requires
                    acc <= (u64::MAX - digit) / 10,
                    digit <= 9,
            ;
        }
        acc = acc * 10 + digit;
        i = i + 1;
        assert(all_digits(next)) by {
            assert forall|j: int| 0 <= j < next.len() implies is_digit(#[trigger] next[j]) by {
                if j < pre.len() {
                    assert(next[j] == pre[j]);
                }
            }
        }
    }
    assert(d@.take(i as int) =~= d@);
    Some(acc)
}

} // verus!
