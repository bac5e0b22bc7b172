//! How single fields are laid out in bytes: integers in little-endian order,
//! strings as UTF-8 behind a four-byte length. The bytes themselves are produced
//! and read by `borsh`; this module states what they are.

use vstd::prelude::*;
use vstd::slice::slice_subrange;
use vstd::utf8::*;
use crate::error::LedgerError;

verus! {

/// The `width` lowest base-256 digits of `value`, lowest first.
pub open spec fn le_bytes(value: nat, width: nat) -> Seq<u8>
    decreases width,
{
    if width == 0 {
        Seq::empty()
    } else {
        seq![(value % 256) as u8] + le_bytes(value / 256, (width - 1) as nat)
    }
}

/// The number whose base-256 digits, lowest first, are `bytes`.
pub open spec fn le_value(bytes: Seq<u8>) -> nat
    decreases bytes.len(),
{
    if bytes.len() == 0 {
        0
    } else {
        bytes[0] as nat + 256 * le_value(bytes.drop_first())
    }
}

/// The first number that `width` digits cannot hold.
pub open spec fn le_limit(width: nat) -> nat
    decreases width,
{
    if width == 0 {
        1
    } else {
        256 * le_limit((width - 1) as nat)
    }
}

/// A signed 64-bit integer as the unsigned number with the same bits.
pub open spec fn i64_bits(value: i64) -> nat {
    if value >= 0 {
        value as nat
    } else {
        (value + 0x1_0000_0000_0000_0000) as nat
    }
}

/// The signed 64-bit integer with the bits of `bits`.
pub open spec fn i64_of_bits(bits: nat) -> i64 {
    if bits < 0x8000_0000_0000_0000 {
        bits as i64
    } else {
        (bits - 0x1_0000_0000_0000_0000) as i64
    }
}

/// A string can be encoded if the length of its UTF-8 form fits the length prefix.
pub open spec fn string_fits(text: Seq<char>) -> bool {
    encode_utf8(text).len() <= u32::MAX
}

/// The encoding of a string: the byte length of its UTF-8 form, then that form.
pub open spec fn string_wire(text: Seq<char>) -> Seq<u8> {
    le_bytes(encode_utf8(text).len(), 4) + encode_utf8(text)
}

/// The string encoded at position `at` of `input`, with the position that
/// follows it; `None` if the input ends too early or the bytes are not UTF-8.
pub open spec fn string_at(input: Seq<u8>, at: int) -> Option<(Seq<char>, int)> {
    if 0 <= at && at + 4 <= input.len() {
        let end = at + 4 + le_value(input.subrange(at, at + 4));
        if end <= input.len() && valid_utf8(input.subrange(at + 4, end)) {
            Some((decode_utf8(input.subrange(at + 4, end)), end))
        } else {
            None
        }
    } else {
        None
    }
}

/// `data` after `bytes` has been written over its start.
pub open spec fn overwritten(data: Seq<u8>, bytes: Seq<u8>) -> Seq<u8> {
    bytes + data.subrange(bytes.len() as int, data.len() as int)
}

pub proof fn lemma_le_limits()
    ensures
        le_limit(4) == 0x1_0000_0000,
        le_limit(8) == 0x1_0000_0000_0000_0000,
{
    reveal_with_fuel(le_limit, 9);
}

pub proof fn lemma_le_bytes_len(value: nat, width: nat)
    ensures
        le_bytes(value, width).len() == width,
    decreases width,
{
    if width > 0 {
        lemma_le_bytes_len(value / 256, (width - 1) as nat);
    }
}

pub proof fn lemma_le_value_bound(bytes: Seq<u8>)
    ensures
        le_value(bytes) < le_limit(bytes.len()),
    decreases bytes.len(),
{
    if bytes.len() > 0 {
        lemma_le_value_bound(bytes.drop_first());
    }
}

/// Reading the digits of a number that fits gives the number back.
pub proof fn lemma_le_value_of_bytes(value: nat, width: nat)
    requires
        value < le_limit(width),
    ensures
        le_value(le_bytes(value, width)) == value,
    decreases width,
{
    if width > 0 {
        let digits = le_bytes(value, width);
        lemma_le_value_of_bytes(value / 256, (width - 1) as nat);
        assert(digits.drop_first() =~= le_bytes(value / 256, (width - 1) as nat));
        assert(digits[0] == (value % 256) as u8);
    }
}

/// Writing the number that digits stand for gives the digits back.
pub proof fn lemma_le_bytes_of_value(bytes: Seq<u8>)
    ensures
        le_bytes(le_value(bytes), bytes.len()) == bytes,
    decreases bytes.len(),
{
    if bytes.len() > 0 {
        let rest = bytes.drop_first();
        lemma_le_bytes_of_value(rest);
        let value = le_value(bytes);
        assert(value % 256 == bytes[0] as nat);
        assert(value / 256 == le_value(rest));
        assert(le_bytes(value, bytes.len()) =~= bytes);
    } else {
        assert(le_bytes(0, 0) =~= bytes);
    }
}

pub proof fn lemma_i64_bits(value: i64)
    ensures
        i64_bits(value) < 0x1_0000_0000_0000_0000,
        i64_of_bits(i64_bits(value)) == value,
{
}

pub proof fn lemma_i64_of_bits(bits: nat)
    requires
        bits < 0x1_0000_0000_0000_0000,
    ensures
        i64_bits(i64_of_bits(bits)) == bits,
{
}

/// A string that was encoded at `at` is read back from there, whatever follows it.
pub proof fn lemma_string_at_wire(before: Seq<u8>, text: Seq<char>, after: Seq<u8>)
    requires
        string_fits(text),
    ensures
        string_at(before + string_wire(text) + after, before.len() as int) == Some(
            (text, (before.len() + string_wire(text).len()) as int),
        ),
        string_wire(text).len() == 4 + encode_utf8(text).len(),
{
    let body = encode_utf8(text);
    let input = before + string_wire(text) + after;
    let at = before.len() as int;
    lemma_le_bytes_len(body.len(), 4);
    lemma_le_limits();
    lemma_le_value_of_bytes(body.len(), 4);
    assert(input.subrange(at, at + 4) =~= le_bytes(body.len(), 4));
    assert(input.subrange(at + 4, at + 4 + body.len()) =~= body);
    encode_utf8_valid_utf8(text);
    encode_utf8_decode_utf8(text);
}

/// A string that is read at `at` is one whose encoding stands at `at`.
pub proof fn lemma_string_at_inverse(input: Seq<u8>, at: int)
    requires
        string_at(input, at) is Some,
    ensures
        string_fits(string_at(input, at)->Some_0.0),
        at < string_at(input, at)->Some_0.1 <= input.len(),
        input.subrange(at, string_at(input, at)->Some_0.1) == string_wire(
            string_at(input, at)->Some_0.0,
        ),
{
    let size = le_value(input.subrange(at, at + 4));
    let end = at + 4 + size;
    let body = input.subrange(at + 4, end);
    decode_utf8_encode_utf8(body);
    lemma_le_value_bound(input.subrange(at, at + 4));
    lemma_le_limits();
    lemma_le_bytes_of_value(input.subrange(at, at + 4));
    assert(input.subrange(at, end) =~= input.subrange(at, at + 4) + body);
}

/// `std::io::Error`, the error that `borsh` reports. Nothing is known of a
/// value of it but that it is an error.
#[verifier::external_type_specification]
#[verifier::external_body]
pub struct ExIoError(std::io::Error);

/// `borsh::to_vec` on a `u32`: the four bytes of the value, lowest first.
/// Writing into a vector cannot fail.
#[verifier::external_body]
fn borsh_u32(value: u32) -> (out: Result<Vec<u8>, std::io::Error>)
    ensures
        out is Ok,
        out matches Ok(bytes) ==> bytes@ == le_bytes(value as nat, 4),
{
    borsh::to_vec(&value)
}

/// `borsh::to_vec` on a `u64`: the eight bytes of the value, lowest first.
/// Writing into a vector cannot fail.
#[verifier::external_body]
fn borsh_u64(value: u64) -> (out: Result<Vec<u8>, std::io::Error>)
    ensures
        out is Ok,
        out matches Ok(bytes) ==> bytes@ == le_bytes(value as nat, 8),
{
    borsh::to_vec(&value)
}

/// `borsh::to_vec` on an `i64`: the eight bytes of its two's complement form,
/// lowest first. Writing into a vector cannot fail.
#[verifier::external_body]
fn borsh_i64(value: i64) -> (out: Result<Vec<u8>, std::io::Error>)
    ensures
        out is Ok,
        out matches Ok(bytes) ==> bytes@ == le_bytes(i64_bits(value), 8),
{
    borsh::to_vec(&value)
}

/// `borsh::to_vec` on a `String`: the byte length of the UTF-8 form in four
/// bytes, lowest first, then the UTF-8 form; an error if and only if that
/// length does not fit into a `u32`.
#[verifier::external_body]
fn borsh_string(text: &String) -> (out: Result<Vec<u8>, std::io::Error>)
    ensures
        out is Ok <==> string_fits(text@),
        out matches Ok(bytes) ==> bytes@ == string_wire(text@),
{
    borsh::to_vec(text)
}

/// `borsh::from_slice::<u32>`: succeeds on exactly four bytes, with the number
/// they are the digits of.
#[verifier::external_body]
fn borsh_read_u32(bytes: &[u8]) -> (out: Result<u32, std::io::Error>)
    ensures
        out is Ok <==> bytes@.len() == 4,
        out matches Ok(value) ==> value as nat == le_value(bytes@),
{
    borsh::from_slice::<u32>(bytes)
}

/// `borsh::from_slice::<u64>`: succeeds on exactly eight bytes, with the number
/// they are the digits of.
#[verifier::external_body]
fn borsh_read_u64(bytes: &[u8]) -> (out: Result<u64, std::io::Error>)
    ensures
        out is Ok <==> bytes@.len() == 8,
        out matches Ok(value) ==> value as nat == le_value(bytes@),
{
    borsh::from_slice::<u64>(bytes)
}

/// `borsh::from_slice::<i64>`: succeeds on exactly eight bytes, with the
/// integer whose two's complement form they are.
#[verifier::external_body]
fn borsh_read_i64(bytes: &[u8]) -> (out: Result<i64, std::io::Error>)
    ensures
        out is Ok <==> bytes@.len() == 8,
        out matches Ok(value) ==> i64_bits(value) == le_value(bytes@),
{
    borsh::from_slice::<i64>(bytes)
}

/// `borsh::from_slice::<String>`: succeeds if and only if the input is a
/// four-byte length followed by exactly that many bytes which are valid UTF-8,
/// and then returns the string they encode.
#[verifier::external_body]
fn borsh_read_string(bytes: &[u8]) -> (out: Result<String, std::io::Error>)
    ensures
        out is Ok <==> (string_at(bytes@, 0) is Some && string_at(bytes@, 0)->Some_0.1
            == bytes@.len()),
        out matches Ok(text) ==> text@ == string_at(bytes@, 0)->Some_0.0,
{
    borsh::from_slice::<String>(bytes)
}

/// Appends `bytes` as they are.
pub fn put_bytes(out: &mut Vec<u8>, bytes: &[u8])
    ensures
        final(out)@ == old(out)@ + bytes@,
{
    let mut i: usize = 0;
    while i < bytes.len()
        invariant
            i <= bytes@.len(),
            out@ == old(out)@ + bytes@.subrange(0, i as int),
        decreases bytes@.len() - i,
    {
        out.push(bytes[i]);
        i += 1;
        assert(out@ =~= old(out)@ + bytes@.subrange(0, i as int));
    }
    assert(bytes@.subrange(0, i as int) =~= bytes@);
}

/// Reads the 32 bytes at position `at`.
pub fn read_bytes32(input: &[u8], at: usize) -> (r: Result<[u8; 32], LedgerError>)
    ensures
        r is Ok <==> at + 32 <= input@.len(),
        r matches Ok(bytes) ==> bytes@ == input@.subrange(at as int, at + 32),
        r matches Err(e) ==> e == LedgerError::DecodeError,
{
    if at > input.len() || input.len() - at < 32 {
        return Err(LedgerError::DecodeError);
    }
    let total = input.len();
    let mut bytes = [0u8; 32];
    let mut i: usize = 0;
    while i < 32
        invariant
            i <= 32,
            at + 32 <= input@.len() == total,
            forall|j: int| 0 <= j < i ==> bytes@[j] == input@[at + j],
        decreases 32 - i,
    {
        bytes[i] = input[at + i];
        i += 1;
    }
    assert(bytes@ =~= input@.subrange(at as int, at + 32));
    Ok(bytes)
}

/// Writes `bytes` over the start of `data`, whose length stays as it is; if
/// `data` is the shorter of the two, nothing is written.
pub fn overwrite(data: &mut Vec<u8>, bytes: &[u8]) -> (done: Result<(), LedgerError>)
    ensures
        done is Ok <==> bytes@.len() <= old(data)@.len(),
        done is Ok ==> final(data)@ == overwritten(old(data)@, bytes@),
        done matches Err(e) ==> e == LedgerError::BufferTooSmall && final(data)@ == old(data)@,
{
    if bytes.len() > data.len() {
        return Err(LedgerError::BufferTooSmall);
    }
    let mut i: usize = 0;
    while i < bytes.len()
        invariant
            i <= bytes@.len() <= data@.len(),
            data@.len() == old(data)@.len(),
            forall|j: int| 0 <= j < i ==> data@[j] == bytes@[j],
            forall|j: int| i <= j < data@.len() ==> data@[j] == old(data)@[j],
        decreases bytes@.len() - i,
    {
        data.set(i, bytes[i]);
        i += 1;
    }
    assert(data@ =~= overwritten(old(data)@, bytes@));
    Ok(())
}

/// Appends the encoding of a `u32`.
pub fn put_u32(out: &mut Vec<u8>, value: u32)
    ensures
        final(out)@ == old(out)@ + le_bytes(value as nat, 4),
{
    let mut bytes = borsh_u32(value).unwrap();
    out.append(&mut bytes);
}

/// Appends the encoding of a `u64`.
pub fn put_u64(out: &mut Vec<u8>, value: u64)
    ensures
        final(out)@ == old(out)@ + le_bytes(value as nat, 8),
{
    let mut bytes = borsh_u64(value).unwrap();
    out.append(&mut bytes);
}

/// Appends the encoding of an `i64`.
pub fn put_i64(out: &mut Vec<u8>, value: i64)
    ensures
        final(out)@ == old(out)@ + le_bytes(i64_bits(value), 8),
{
    let mut bytes = borsh_i64(value).unwrap();
    out.append(&mut bytes);
}

/// Appends the encoding of a string, or leaves `out` alone if the string has none.
pub fn put_string(out: &mut Vec<u8>, text: &String) -> (done: Result<(), LedgerError>)
    ensures
        done is Ok <==> string_fits(text@),
        done is Ok ==> final(out)@ == old(out)@ + string_wire(text@),
        done matches Err(e) ==> e == LedgerError::BufferTooSmall && final(out)@ == old(out)@,
{
    match borsh_string(text) {
        Ok(mut bytes) => {
            out.append(&mut bytes);
            Ok(())
        },
        Err(_) => Err(LedgerError::BufferTooSmall),
    }
}

/// Reads the `u32` encoded at position `at`.
pub fn read_u32(input: &[u8], at: usize) -> (r: Result<u32, LedgerError>)
    ensures
        r is Ok <==> at + 4 <= input@.len(),
        r matches Ok(value) ==> value as nat == le_value(input@.subrange(at as int, at + 4)),
        r matches Err(e) ==> e == LedgerError::DecodeError,
{
    if at > input.len() || input.len() - at < 4 {
        return Err(LedgerError::DecodeError);
    }
    match borsh_read_u32(slice_subrange(input, at, at + 4)) {
        Ok(value) => Ok(value),
        Err(_) => Err(LedgerError::DecodeError),
    }
}

/// Reads the `u64` encoded at position `at`.
pub fn read_u64(input: &[u8], at: usize) -> (r: Result<u64, LedgerError>)
    ensures
        r is Ok <==> at + 8 <= input@.len(),
        r matches Ok(value) ==> value as nat == le_value(input@.subrange(at as int, at + 8)),
        r matches Err(e) ==> e == LedgerError::DecodeError,
{
    if at > input.len() || input.len() - at < 8 {
        return Err(LedgerError::DecodeError);
    }
    match borsh_read_u64(slice_subrange(input, at, at + 8)) {
        Ok(value) => Ok(value),
        Err(_) => Err(LedgerError::DecodeError),
    }
}

/// Reads the `i64` encoded at position `at`.
pub fn read_i64(input: &[u8], at: usize) -> (r: Result<i64, LedgerError>)
    ensures
        r is Ok <==> at + 8 <= input@.len(),
        r matches Ok(value) ==> value == i64_of_bits(
            le_value(input@.subrange(at as int, at + 8)),
        ),
        r matches Err(e) ==> e == LedgerError::DecodeError,
{
    if at > input.len() || input.len() - at < 8 {
        return Err(LedgerError::DecodeError);
    }
    match borsh_read_i64(slice_subrange(input, at, at + 8)) {
        Ok(value) => {
            proof {
                lemma_i64_bits(value);
            }
            Ok(value)
        },
        Err(_) => Err(LedgerError::DecodeError),
    }
}

/// Reads the string encoded at position `at`, and says where it ends.
pub fn read_string(input: &[u8], at: usize) -> (r: Result<(String, usize), LedgerError>)
    ensures
        r is Ok <==> string_at(input@, at as int) is Some,
        r matches Ok((text, end)) ==> string_at(input@, at as int) == Some((text@, end as int)),
        r matches Err(e) ==> e == LedgerError::DecodeError,
{
    let size = match read_u32(input, at) {
        Ok(size) => size as usize,
        Err(e) => {
            return Err(e);
        },
    };
    if input.len() - at - 4 < size {
        return Err(LedgerError::DecodeError);
    }
    let end = at + 4 + size;
    let window = slice_subrange(input, at, end);
    proof {
        assert(window@.subrange(0, 4) =~= input@.subrange(at as int, at + 4));
        assert(window@.subrange(4, 4 + size as int) =~= input@.subrange(at + 4, end as int));
    }
    match borsh_read_string(window) {
        Ok(text) => Ok((text, end)),
        Err(_) => Err(LedgerError::DecodeError),
    }
}

} // verus!
