//! Digests, big-endian integers and hexadecimal text.

use sha2::Digest;
use vstd::prelude::*;

verus! {

/// A SHA-256 value, or any other 32-byte identifier.
pub type Digest32 = [u8; 32];

/// What SHA-256 gives for a byte string.
pub uninterp spec fn sha256_value(data: Seq<u8>) -> [u8; 32];

/// The 32 bytes of the SHA-256 of a byte string.
pub open spec fn sha256(data: Seq<u8>) -> Seq<u8> {
    sha256_value(data)@
}

/// Calls `sha2::Sha256::digest`. The result is the named hash of exactly the
/// bytes handed in; nothing is claimed about collisions.
#[verifier::external_body]
pub(crate) fn sha256_digest(data: &[u8]) -> (digest: Digest32)
    ensures
        digest == sha256_value(data@),
{
    sha2::Sha256::digest(data).into()
}

/// The identifier made of zero bytes only. It never names anything.
pub open spec fn is_zero(digest: Seq<u8>) -> bool {
    forall|i: int| 0 <= i < digest.len() ==> digest[i] == 0u8
}

/// The identifier made of zero bytes.
pub open spec fn zero_digest() -> Digest32 {
    vstd::array::spec_array_fill_for_copy_type::<u8, 32>(0u8)
}

/// Two digests are one value exactly when their bytes agree.
pub proof fn lemma_digest_view(a: Digest32, b: Digest32)
    ensures
        (a == b) == (a@ == b@),
{
    if a@ == b@ {
        assert forall|i: int| 0 <= i < 32 implies a[i] == b[i] by {
            assert(a@[i] == b@[i]);
        }
        assert(a =~= b);
    }
}

pub fn bytes_equal(a: &[u8], b: &[u8]) -> (same: bool)
    ensures
        same == (a@ == b@),
{
    if a.len() != b.len() {
        return false;
    }
    let mut i: usize = 0;
    while i < a.len()
        invariant
            a.len() == b.len(),
            i <= a.len(),
            forall|j: int| 0 <= j < i ==> a@[j] == b@[j],
        decreases a.len() - i,
    {
        if a[i] != b[i] {
            assert(a@[i as int] != b@[i as int]);
            return false;
        }
        i += 1;
    }
    assert(a@ =~= b@);
    true
}

pub fn digest_equal(a: &Digest32, b: &Digest32) -> (same: bool)
    ensures
        same == (a@ == b@),
        same == (*a == *b),
{
    let mut i: usize = 0;
    proof {
        lemma_digest_view(*a, *b);
    }
    while i < 32
        invariant
            i <= 32,
            (*a == *b) == (a@ == b@),
            forall|j: int| 0 <= j < i ==> a@[j] == b@[j],
        decreases 32 - i,
    {
        if a[i] != b[i] {
            assert(a@[i as int] != b@[i as int]);
            return false;
        }
        i += 1;
    }
    assert(a@ =~= b@);
    true
}

pub fn digest_is_zero(digest: &Digest32) -> (zero: bool)
    ensures
        zero == is_zero(digest@),
{
    let mut i: usize = 0;
    while i < 32
        invariant
            i <= 32,
            forall|j: int| 0 <= j < i ==> digest@[j] == 0u8,
        decreases 32 - i,
    {
        if digest[i] != 0u8 {
            assert(digest@[i as int] != 0u8);
            return false;
        }
        i += 1;
    }
    true
}

/// The `count` low-order base-256 digits of `value`, most significant first.
pub open spec fn big_endian(value: nat, count: nat) -> Seq<u8>
    decreases count,
{
    if count == 0 {
        Seq::empty()
    } else {
        big_endian(value / 256, (count - 1) as nat).push((value % 256) as u8)
    }
}

/// The number that a byte string spells in base 256.
pub open spec fn big_endian_value(bytes: Seq<u8>) -> nat
    decreases bytes.len(),
{
    if bytes.len() == 0 {
        0
    } else {
        big_endian_value(bytes.drop_last()) * 256 + bytes.last() as nat
    }
}

pub open spec fn pow256(count: nat) -> nat
    decreases count,
{
    if count == 0 {
        1
    } else {
        256 * pow256((count - 1) as nat)
    }
}

/// Writing a number with enough bytes and reading it back gives it again.
pub proof fn lemma_big_endian_round_trip(value: nat, count: nat)
    requires
        value < pow256(count),
    ensures
        big_endian(value, count).len() == count,
        big_endian_value(big_endian(value, count)) == value,
    decreases count,
{
    if count > 0 {
        let rest = (count - 1) as nat;
        assert(value / 256 < pow256(rest)) by (nonlinear_arith)
            requires
                value < 256 * pow256(rest),
        ;
        lemma_big_endian_round_trip(value / 256, rest);
        let all = big_endian(value, count);
        assert(all.drop_last() =~= big_endian(value / 256, rest));
        assert(all.last() == (value % 256) as u8);
        assert((value % 256) as u8 as nat == value % 256);
    }
}

/// Reading a byte string and writing the number with as many bytes gives the
/// byte string again.
pub proof fn lemma_big_endian_value_round_trip(bytes: Seq<u8>)
    ensures
        big_endian_value(bytes) < pow256(bytes.len()),
        big_endian(big_endian_value(bytes), bytes.len()) == bytes,
    decreases bytes.len(),
{
    if bytes.len() > 0 {
        let front = bytes.drop_last();
        lemma_big_endian_value_round_trip(front);
        let high = big_endian_value(front);
        let low = bytes.last() as nat;
        assert(big_endian_value(bytes) == high * 256 + low);
        assert((high * 256 + low) / 256 == high);
        assert((high * 256 + low) % 256 == low);
        assert(front.push(bytes.last()) =~= bytes);
    } else {
        assert(bytes =~= Seq::<u8>::empty());
    }
}

pub proof fn lemma_pow256_small()
    ensures
        pow256(2) == 0x1_0000,
        pow256(4) == 0x1_0000_0000,
        pow256(8) == 0x1_0000_0000_0000_0000,
{
    reveal_with_fuel(pow256, 9);
    assert(pow256(1) == 256);
    assert(pow256(2) == 65536);
    assert(pow256(3) == 16777216);
    assert(pow256(4) == 4294967296);
    assert(pow256(5) == 1099511627776);
    assert(pow256(6) == 281474976710656);
    assert(pow256(7) == 72057594037927936);
}

pub proof fn lemma_u64_big_endian(value: u64)
    ensures
        big_endian(value as nat, 8).len() == 8,
        big_endian_value(big_endian(value as nat, 8)) == value,
{
    lemma_pow256_small();
    lemma_big_endian_round_trip(value as nat, 8);
}

pub proof fn lemma_u32_big_endian(value: u32)
    ensures
        big_endian(value as nat, 4).len() == 4,
        big_endian_value(big_endian(value as nat, 4)) == value,
{
    lemma_pow256_small();
    lemma_big_endian_round_trip(value as nat, 4);
}

/// Appends the `count` low-order base-256 digits of `value`.
pub fn push_big_endian(out: &mut Vec<u8>, value: u64, count: usize)
    requires
        count <= 8,
    ensures
        final(out)@ == old(out)@ + big_endian(value as nat, count as nat),
    decreases count,
{
    if count == 0 {
        assert(out@ =~= old(out)@ + big_endian(value as nat, 0));
        return;
    }
    push_big_endian(out, value / 256, count - 1);
    let ghost middle = out@;
    out.push((value % 256) as u8);
    assert(out@ =~= old(out)@ + big_endian(value as nat, count as nat));
}

pub fn push_u64(out: &mut Vec<u8>, value: u64)
    ensures
        final(out)@ == old(out)@ + big_endian(value as nat, 8),
{
    push_big_endian(out, value, 8);
}

pub fn push_u32(out: &mut Vec<u8>, value: u32)
    ensures
        final(out)@ == old(out)@ + big_endian(value as nat, 4),
{
    push_big_endian(out, value as u64, 4);
}

pub fn push_u16(out: &mut Vec<u8>, value: u16)
    ensures
        final(out)@ == old(out)@ + big_endian(value as nat, 2),
{
    push_big_endian(out, value as u64, 2);
}

pub fn push_all(out: &mut Vec<u8>, data: &[u8])
    ensures
        final(out)@ == old(out)@ + data@,
{
    let mut i: usize = 0;
    while i < data.len()
        invariant
            i <= data.len(),
            out@ == old(out)@ + data@.take(i as int),
        decreases data.len() - i,
    {
        out.push(data[i]);
        i += 1;
        assert(data@.take(i as int) =~= data@.take(i - 1).push(data@[i - 1]));
        assert(out@ =~= old(out)@ + data@.take(i as int));
    }
    assert(data@.take(i as int) =~= data@);
}

/// The UTF-8 bytes of a text.
pub open spec fn text_bytes(text: Seq<char>) -> Seq<u8> {
    vstd::utf8::encode_utf8(text)
}

pub fn push_text(out: &mut Vec<u8>, text: &str)
    ensures
        final(out)@ == old(out)@ + text_bytes(text@),
{
    push_all(out, text.as_bytes());
}

/// A byte string behind its length, as eight big-endian bytes.
pub open spec fn length_prefixed(data: Seq<u8>) -> Seq<u8> {
    big_endian(data.len(), 8) + data
}

/// Appends a byte string behind its length.
pub fn put_bytes(out: &mut Vec<u8>, data: &[u8])
    ensures
        final(out)@ == old(out)@ + length_prefixed(data@),
{
    push_u64(out, data.len() as u64);
    push_all(out, data);
    assert(out@ =~= old(out)@ + length_prefixed(data@));
}

pub open spec fn ends_with(text: Seq<u8>, suffix: Seq<u8>) -> bool {
    suffix.len() <= text.len() && text.skip(text.len() - suffix.len()) == suffix
}

pub open spec fn starts_with(text: Seq<u8>, prefix: Seq<u8>) -> bool {
    prefix.len() <= text.len() && text.take(prefix.len() as int) == prefix
}

pub fn bytes_end_with(text: &[u8], suffix: &[u8]) -> (found: bool)
    ensures
        found == ends_with(text@, suffix@),
{
    if suffix.len() > text.len() {
        return false;
    }
    let start: usize = text.len() - suffix.len();
    let mut i: usize = 0;
    while i < suffix.len()
        invariant
            i <= suffix.len() <= text.len(),
            start == text.len() - suffix.len(),
            forall|j: int| 0 <= j < i ==> text@[start + j] == suffix@[j],
        decreases suffix.len() - i,
    {
        if text[start + i] != suffix[i] {
            assert(text@.skip(start as int)[i as int] != suffix@[i as int]);
            return false;
        }
        i += 1;
    }
    assert(text@.skip(start as int) =~= suffix@);
    true
}

pub fn bytes_start_with(text: &[u8], prefix: &[u8]) -> (found: bool)
    ensures
        found == starts_with(text@, prefix@),
{
    if prefix.len() > text.len() {
        return false;
    }
    let mut i: usize = 0;
    while i < prefix.len()
        invariant
            i <= prefix.len() <= text.len(),
            forall|j: int| 0 <= j < i ==> text@[j] == prefix@[j],
        decreases prefix.len() - i,
    {
        if text[i] != prefix[i] {
            assert(text@.take(prefix.len() as int)[i as int] != prefix@[i as int]);
            return false;
        }
        i += 1;
    }
    assert(text@.take(prefix.len() as int) =~= prefix@);
    true
}

/// Decimal digits of a number.
pub open spec fn decimal(value: nat) -> Seq<u8>
    decreases value,
{
    if value < 10 {
        seq![(48 + value) as u8]
    } else {
        decimal(value / 10).push((48 + value % 10) as u8)
    }
}

pub fn push_decimal(out: &mut Vec<u8>, value: u64)
    ensures
        final(out)@ == old(out)@ + decimal(value as nat),
    decreases value,
{
    if value < 10 {
        out.push((48 + value) as u8);
    } else {
        push_decimal(out, value / 10);
        out.push((48 + value % 10) as u8);
    }
    assert(out@ =~= old(out)@ + decimal(value as nat));
}

/// A copy of a byte string.
pub fn copy_bytes(data: &[u8]) -> (copy: Vec<u8>)
    ensures
        copy@ == data@,
{
    let mut copy: Vec<u8> = Vec::new();
    push_all(&mut copy, data);
    assert(copy@ =~= data@);
    copy
}

/// Reads eight bytes as one big-endian number.
pub fn read_u64(data: &[u8], start: usize) -> (value: u64)
    requires
        start + 8 <= data.len(),
    ensures
        value == big_endian_value(data@.subrange(start as int, start + 8)),
{
    read_big_endian(data, start, 8)
}

/// Reads four bytes as one big-endian number.
pub fn read_u32(data: &[u8], start: usize) -> (value: u32)
    requires
        start + 4 <= data.len(),
    ensures
        value == big_endian_value(data@.subrange(start as int, start + 4)),
{
    let value: u64 = read_big_endian(data, start, 4);
    proof {
        lemma_pow256_small();
        lemma_big_endian_value_round_trip(data@.subrange(start as int, start + 4));
    }
    value as u32
}

fn read_big_endian(data: &[u8], start: usize, count: usize) -> (value: u64)
    requires
        count <= 8,
        start + count <= data.len(),
    ensures
        value == big_endian_value(data@.subrange(start as int, start + count)),
    decreases count,
{
    if count == 0 {
        assert(data@.subrange(start as int, start as int) =~= Seq::<u8>::empty());
        return 0;
    }
    let high: u64 = read_big_endian(data, start, count - 1);
    let ghost part = data@.subrange(start as int, start + count);
    proof {
        assert(part.drop_last() =~= data@.subrange(start as int, start + count - 1));
        lemma_big_endian_value_round_trip(part);
        lemma_pow256_grows(part.len(), 8);
        lemma_pow256_small();
        assert(big_endian_value(part) == high as nat * 256 + part.last() as nat);
    }
    high * 256 + data[start + count - 1] as u64
}

proof fn lemma_pow256_grows(small: nat, large: nat)
    requires
        small <= large,
    ensures
        pow256(small) <= pow256(large),
    decreases large,
{
    if small < large {
        lemma_pow256_grows(small, (large - 1) as nat);
    }
}

/// One lower-case hexadecimal digit.
pub open spec fn hex_digit(value: int) -> char {
    if value < 10 {
        (48 + value) as u8 as char
    } else {
        (87 + value) as u8 as char
    }
}

/// Lower-case hexadecimal text, two digits for each byte.
pub open spec fn hex_text(data: Seq<u8>) -> Seq<char> {
    Seq::new(
        data.len() * 2,
        |i: int|
            if i % 2 == 0 {
                hex_digit(data[i / 2] as int / 16)
            } else {
                hex_digit(data[i / 2] as int % 16)
            },
    )
}

/// Calls `hex::encode`, which writes each byte as two lower-case digits, the
/// high half first.
#[verifier::external_body]
pub(crate) fn hex_encode(data: &[u8]) -> (text: String)
    ensures
        text@ == hex_text(data@),
{
    hex::encode(data)
}

/// The value of a hexadecimal digit of either case.
pub open spec fn hex_value(byte: u8) -> Option<u8> {
    if 48 <= byte <= 57 {
        Some((byte - 48) as u8)
    } else if 65 <= byte <= 70 {
        Some((byte - 55) as u8)
    } else if 97 <= byte <= 102 {
        Some((byte - 87) as u8)
    } else {
        None
    }
}

/// Whether a text is hexadecimal: an even number of digits.
pub open spec fn hexadecimal(text: Seq<u8>) -> bool {
    &&& text.len() % 2 == 0
    &&& forall|i: int| 0 <= i < text.len() ==> hex_value(#[trigger] text[i]) is Some
}

/// The bytes that a hexadecimal text spells.
pub open spec fn hex_bytes(text: Seq<u8>) -> Seq<u8> {
    Seq::new(
        text.len() / 2,
        |i: int| (16 * hex_value(text[2 * i])->0 + hex_value(text[2 * i + 1])->0) as u8,
    )
}

/// The text of the error that `hex::decode` gives for a text that is not
/// hexadecimal. It tells of an odd length, or of the first character that is no
/// digit.
pub uninterp spec fn hex_error(text: Seq<char>) -> Seq<char>;

/// Calls `hex::decode`, which accepts an even number of hexadecimal digits of
/// either case and reads two of them as one byte, the high half first. The text
/// of its error depends on the text alone, and for an odd length it is fixed.
#[verifier::external_body]
pub(crate) fn hex_decode(text: &str) -> (data: Result<Vec<u8>, String>)
    ensures
        data is Ok == hexadecimal(text_bytes(text@)),
        data matches Ok(bytes) ==> bytes@ == hex_bytes(text_bytes(text@)),
        data matches Err(e) ==> e@ == hex_error(text@) && (text_bytes(text@).len() % 2 == 1 ==> e@
            == "Odd number of digits"@),
{
    hex::decode(text).map_err(|error| error.to_string())
}

/// What is written in hexadecimal is read back.
pub proof fn lemma_hex_round_trip(data: Seq<u8>)
    ensures
        hexadecimal(text_bytes(hex_text(data))),
        hex_bytes(text_bytes(hex_text(data))) == data,
{
    let text = hex_text(data);
    assert forall|i: int| 0 <= i < text.len() implies '\0' <= #[trigger] text[i] <= '\u{7f}' by {
        lemma_hex_digit(if i % 2 == 0 {
            data[i / 2] as int / 16
        } else {
            data[i / 2] as int % 16
        });
    }
    vstd::utf8::is_ascii_chars_encode_utf8(text);
    let bytes = text_bytes(text);
    assert forall|i: int| 0 <= i < bytes.len() implies hex_value(#[trigger] bytes[i]) is Some by {
        assert(text[i] as u8 == bytes[i]);
        lemma_hex_digit(if i % 2 == 0 {
            data[i / 2] as int / 16
        } else {
            data[i / 2] as int % 16
        });
    }
    assert(hex_bytes(bytes) =~= data) by {
        assert forall|i: int| 0 <= i < data.len() implies hex_bytes(bytes)[i] == data[i] by {
            assert(text[2 * i] as u8 == bytes[2 * i]);
            assert(text[2 * i + 1] as u8 == bytes[2 * i + 1]);
            assert((2 * i) % 2 == 0 && (2 * i) / 2 == i);
            assert((2 * i + 1) % 2 == 1 && (2 * i + 1) / 2 == i);
            lemma_hex_digit(data[i] as int / 16);
            lemma_hex_digit(data[i] as int % 16);
        }
    }
}

proof fn lemma_hex_digit(value: int)
    requires
        0 <= value < 16,
    ensures
        '\0' <= hex_digit(value) <= '\u{7f}',
        hex_value(hex_digit(value) as u8) == Some(value as u8),
{
}

/// The digest that a byte string is, if it has the length of one.
pub fn to_digest(data: &Vec<u8>) -> (digest: Option<Digest32>)
    ensures
        digest is Some == (data@.len() == 32),
        digest matches Some(value) ==> value@ == data@,
{
    if data.len() != 32 {
        return None;
    }
    let mut digest: Digest32 = [0u8;32];
    let mut i: usize = 0;
    while i < 32
        invariant
            data@.len() == 32,
            i <= 32,
            forall|j: int| 0 <= j < i ==> digest@[j] == data@[j],
        decreases 32 - i,
    {
        digest[i] = data[i];
        i += 1;
    }
    assert(digest@ =~= data@);
    Some(digest)
}

proof fn lemma_hex_digit_injective(a: int, b: int)
    requires
        0 <= a < 16,
        0 <= b < 16,
        hex_digit(a) == hex_digit(b),
    ensures
        a == b,
{
    let x: u8 = if a < 10 { (48 + a) as u8 } else { (87 + a) as u8 };
    let y: u8 = if b < 10 { (48 + b) as u8 } else { (87 + b) as u8 };
    assert(hex_digit(a) == x as char);
    assert(hex_digit(b) == y as char);
    assert((x as char) as u32 == x as u32);
    assert((y as char) as u32 == y as u32);
}

/// Different byte strings have different hexadecimal texts.
pub proof fn lemma_hex_text_injective(a: Seq<u8>, b: Seq<u8>)
    ensures
        (hex_text(a) == hex_text(b)) == (a == b),
{
    if hex_text(a) == hex_text(b) {
        assert(hex_text(a).len() == hex_text(b).len());
        assert(a.len() == b.len());
        assert forall|i: int| 0 <= i < a.len() implies a[i] == b[i] by {
            assert(hex_text(a)[2 * i] == hex_digit(a[i] as int / 16));
            assert(hex_text(b)[2 * i] == hex_digit(b[i] as int / 16));
            assert(hex_text(a)[2 * i + 1] == hex_digit(a[i] as int % 16));
            assert(hex_text(b)[2 * i + 1] == hex_digit(b[i] as int % 16));
            lemma_hex_digit_injective(a[i] as int / 16, b[i] as int / 16);
            lemma_hex_digit_injective(a[i] as int % 16, b[i] as int % 16);
        }
        assert(a =~= b);
    }
}

} // verus!
