//! Fields in the Borsh encoding, read from the front of a byte slice.
use borsh::BorshDeserialize;
use vstd::prelude::*;
use vstd::utf8;

use crate::bytes;
use crate::decimal;

verus! {

/// What reading a field comes to: the field and the bytes behind it, or why there is none.
pub type Read<T> = Result<(T, Seq<u8>), Seq<char>>;

/// The complaint about data that ends too early.
pub open spec fn too_short() -> Seq<char> {
    "Unexpected length of input"@
}

/// The complaint about a byte that is no truth value.
pub open spec fn no_flag(n: u8) -> Seq<char> {
    "Invalid bool representation: "@ + decimal::decimal(n as nat)
}

/// The complaint about a byte that does not tell whether a field is missing.
pub open spec fn no_option(n: u8) -> Seq<char> {
    "Invalid Option representation: "@ + decimal::decimal(n as nat)
        + ". The first byte must be 0 or 1"@
}

/// A byte in front of `data`.
pub open spec fn byte(data: Seq<u8>) -> Read<u8> {
    if data.len() >= 1 {
        Ok((data[0], data.skip(1)))
    } else {
        Err(too_short())
    }
}

/// A 16-bit number in front of `data`.
pub open spec fn short(data: Seq<u8>) -> Read<u16> {
    if data.len() >= 2 {
        Ok((bytes::little_endian(data.take(2)) as u16, data.skip(2)))
    } else {
        Err(too_short())
    }
}

/// A truth value in front of `data`: a byte 0 or 1.
pub open spec fn flag(data: Seq<u8>) -> Read<bool> {
    if data.len() == 0 {
        Err(too_short())
    } else if data[0] <= 1 {
        Ok((data[0] == 1, data.skip(1)))
    } else {
        Err(no_flag(data[0]))
    }
}

/// A public key in front of `data`.
pub open spec fn key(data: Seq<u8>) -> Read<Seq<u8>> {
    if data.len() >= 32 {
        Ok((data.take(32), data.skip(32)))
    } else {
        Err(too_short())
    }
}

/// The size of the string in front of `data`, in bytes, which stands in four bytes before it.
pub open spec fn string_len(data: Seq<u8>) -> int {
    bytes::little_endian(data.take(4)) as int
}

/// The bytes of the string in front of `data`.
pub open spec fn string_bytes(data: Seq<u8>) -> Seq<u8> {
    data.subrange(4, 4 + string_len(data))
}

/// Whether the string in front of `data` is cut off.
pub open spec fn string_is_cut(data: Seq<u8>) -> bool {
    data.len() < 4 || data.len() < 4 + string_len(data)
}

/// The complaint of `String::from_utf8` about bytes that are not UTF-8.
pub uninterp spec fn utf8_complaint(data: Seq<u8>) -> Seq<char>;

/// A string in front of `data`: the number of its bytes, then its UTF-8.
pub open spec fn string(data: Seq<u8>) -> Read<Seq<char>> {
    if string_is_cut(data) {
        Err(too_short())
    } else if utf8::valid_utf8(string_bytes(data)) {
        Ok((utf8::decode_utf8(string_bytes(data)), data.skip(4 + string_len(data))))
    } else {
        Err(utf8_complaint(string_bytes(data)))
    }
}

/// A creator's entry: an address, whether the creator has signed, and a share.
pub type CreatorEntry = (Seq<u8>, bool, u8);

/// The size of a creator's entry, in bytes.
pub open spec fn entry_len() -> int {
    34
}

/// How many creators the list that stands behind the first byte of `data` announces.
pub open spec fn creator_count(data: Seq<u8>) -> int {
    bytes::little_endian(data.subrange(1, 5)) as int
}

/// Where the entry of creator `i` starts.
pub open spec fn entry_start(i: int) -> int {
    5 + entry_len() * i
}

/// The entry of creator `i`.
pub open spec fn creator_entry(data: Seq<u8>, i: int) -> CreatorEntry {
    let at = entry_start(i);
    (data.subrange(at, at + 32), data[at + 32] == 1, data[at + 33])
}

/// Whether a whole list of creators, with a valid truth value in each entry, stands behind
/// the first byte of `data`.
pub open spec fn creators_fit(data: Seq<u8>) -> bool {
    &&& data.len() >= 5
    &&& data.len() >= entry_start(creator_count(data))
    &&& forall|i: int|
        #![trigger entry_start(i)]
        0 <= i < creator_count(data) ==> data[entry_start(i) + 32] <= 1
}

/// Whether the entry of creator `i` is whole, with a valid truth value.
pub open spec fn entry_fits(data: Seq<u8>, i: int) -> bool {
    &&& data.len() >= entry_start(i) + entry_len()
    &&& data[entry_start(i) + 32] <= 1
}

/// The complaint about the first entry, from that of creator `i` on, that does not fit: a
/// truth value that is there and is none, or else an entry that is cut off.
pub open spec fn entry_complaint(data: Seq<u8>, i: int) -> Seq<char>
    decreases creator_count(data) - i,
{
    let at = entry_start(i);
    if i < creator_count(data) && entry_fits(data, i) {
        entry_complaint(data, i + 1)
    } else if data.len() > at + 32 && data[at + 32] > 1 {
        no_flag(data[at + 32])
    } else {
        too_short()
    }
}

/// The complaint about bytes that are not a list of creators.
pub open spec fn creators_complaint(data: Seq<u8>) -> Seq<char> {
    if data.len() == 0 {
        too_short()
    } else if data[0] > 1 {
        no_option(data[0])
    } else if data.len() < 5 {
        too_short()
    } else {
        entry_complaint(data, 0)
    }
}

/// A list of creators in front of `data`, which may be missing: a byte 0 if it is, else a
/// byte 1, the number of creators, and their entries.
pub open spec fn creators(data: Seq<u8>) -> Read<Option<Seq<CreatorEntry>>> {
    if data.len() > 0 && data[0] == 0 {
        Ok((None, data.skip(1)))
    } else if data.len() > 0 && data[0] == 1 && creators_fit(data) {
        let n = creator_count(data);
        Ok((Some(Seq::new(n as nat, |i: int| creator_entry(data, i))), data.skip(entry_start(n))))
    } else {
        Err(creators_complaint(data))
    }
}

/// A byte in front of `data` that may be missing. Nothing, where the data has another form.
pub open spec fn optional_byte(data: Seq<u8>) -> Option<(Option<u8>, Seq<u8>)> {
    if data.len() >= 1 && data[0] == 0 {
        Some((None, data.skip(1)))
    } else if data.len() >= 2 && data[0] == 1 {
        Some((Some(data[1]), data.skip(2)))
    } else {
        None
    }
}

/// A truth value and a key in front of `data` that may be missing. Nothing, where the data
/// has another form.
pub open spec fn optional_flag_and_key(data: Seq<u8>) -> Option<
    (Option<(bool, Seq<u8>)>, Seq<u8>),
> {
    if data.len() >= 1 && data[0] == 0 {
        Some((None, data.skip(1)))
    } else if data.len() >= 34 && data[0] == 1 && data[1] <= 1 {
        Some((Some((data[1] == 1, data.subrange(2, 34))), data.skip(34)))
    } else {
        None
    }
}

/// A byte and two 64-bit numbers in front of `data` that may be missing. Nothing, where the
/// data has another form.
pub open spec fn optional_byte_and_numbers(data: Seq<u8>) -> Option<
    (Option<(u8, u64, u64)>, Seq<u8>),
> {
    if data.len() >= 1 && data[0] == 0 {
        Some((None, data.skip(1)))
    } else if data.len() >= 18 && data[0] == 1 {
        Some(
            (
                Some(
                    (
                        data[1],
                        bytes::little_endian(data.subrange(2, 10)) as u64,
                        bytes::little_endian(data.subrange(10, 18)) as u64,
                    ),
                ),
                data.skip(18),
            ),
        )
    } else {
        None
    }
}

/// Reads a byte with `<u8 as BorshDeserialize>::deserialize`.
///
/// Trusted: it takes one byte, and fails only where there is none.
#[verifier::external_body]
pub(crate) fn read_byte(data: &[u8]) -> (r: Result<(u8, &[u8]), String>)
    ensures
        match r {
            Ok((n, rest)) => byte(data@) == Read::<u8>::Ok((n, rest@)),
            Err(e) => byte(data@) == Read::<u8>::Err(e@),
        },
{
    let mut rest = data;
    match u8::deserialize(&mut rest) {
        Ok(n) => Ok((n, rest)),
        Err(e) => Err(e.to_string()),
    }
}

/// Reads a 16-bit number with `<u16 as BorshDeserialize>::deserialize`.
///
/// Trusted: it takes two bytes, the low one first, and fails only where there are fewer.
#[verifier::external_body]
pub(crate) fn read_short(data: &[u8]) -> (r: Result<(u16, &[u8]), String>)
    ensures
        match r {
            Ok((n, rest)) => short(data@) == Read::<u16>::Ok((n, rest@)),
            Err(e) => short(data@) == Read::<u16>::Err(e@),
        },
{
    let mut rest = data;
    match u16::deserialize(&mut rest) {
        Ok(n) => Ok((n, rest)),
        Err(e) => Err(e.to_string()),
    }
}

/// Reads a truth value with `<bool as BorshDeserialize>::deserialize`.
///
/// Trusted: it takes one byte, 0 or 1, and fails where there is none or another one, with
/// these complaints.
#[verifier::external_body]
pub(crate) fn read_flag(data: &[u8]) -> (r: Result<(bool, &[u8]), String>)
    ensures
        match r {
            Ok((b, rest)) => flag(data@) == Read::<bool>::Ok((b, rest@)),
            Err(e) => flag(data@) == Read::<bool>::Err(e@),
        },
{
    let mut rest = data;
    match bool::deserialize(&mut rest) {
        Ok(b) => Ok((b, rest)),
        Err(e) => Err(e.to_string()),
    }
}

/// Reads a public key with `<[u8; 32] as BorshDeserialize>::deserialize`.
///
/// Trusted: it takes 32 bytes, and fails only where there are fewer.
#[verifier::external_body]
pub(crate) fn read_key(data: &[u8]) -> (r: Result<([u8; 32], &[u8]), String>)
    ensures
        match r {
            Ok((k, rest)) => key(data@) == Read::<Seq<u8>>::Ok((k@, rest@)),
            Err(e) => key(data@) == Read::<Seq<u8>>::Err(e@),
        },
{
    let mut rest = data;
    match <[u8; 32]>::deserialize(&mut rest) {
        Ok(k) => Ok((k, rest)),
        Err(e) => Err(e.to_string()),
    }
}

/// Reads a string with `<String as BorshDeserialize>::deserialize`.
///
/// Trusted: it takes four bytes and as many as they count, low byte first, and fails where
/// there are fewer or where those bytes are not UTF-8. The text of the second complaint is
/// named and not spelled out.
#[verifier::external_body]
pub(crate) fn read_string(data: &[u8]) -> (r: Result<(String, &[u8]), String>)
    ensures
        match r {
            Ok((s, rest)) => string(data@) == Read::<Seq<char>>::Ok((s@, rest@)),
            Err(e) => string(data@) is Err && e@ == (if string_is_cut(data@) {
                too_short()
            } else {
                utf8_complaint(string_bytes(data@))
            }),
        },
{
    let mut rest = data;
    match String::deserialize(&mut rest) {
        Ok(s) => Ok((s, rest)),
        Err(e) => Err(e.to_string()),
    }
}

/// The bytes of a list of creators' entries that may be missing.
pub open spec fn entries(list: Option<Vec<([u8; 32], bool, u8)>>) -> Option<Seq<CreatorEntry>> {
    match list {
        Some(v) => Some(v@.map_values(|entry: ([u8; 32], bool, u8)| (entry.0@, entry.1, entry.2))),
        None => None,
    }
}

/// Reads a list of creators with
/// `<Option<Vec<([u8; 32], bool, u8)>> as BorshDeserialize>::deserialize`.
///
/// Trusted: it takes what [`creators`] describes, and fails on anything else, with the
/// complaint about the first byte that is missing or wrong.
#[verifier::external_body]
pub(crate) fn read_creators(data: &[u8]) -> (r: Result<
    (Option<Vec<([u8; 32], bool, u8)>>, &[u8]),
    String,
>)
    ensures
        match r {
            Ok((list, rest)) => creators(data@) == Read::<Option<Seq<CreatorEntry>>>::Ok(
                (entries(list), rest@),
            ),
            Err(e) => creators(data@) == Read::<Option<Seq<CreatorEntry>>>::Err(e@),
        },
{
    let mut rest = data;
    match Option::<Vec<([u8; 32], bool, u8)>>::deserialize(&mut rest) {
        Ok(list) => Ok((list, rest)),
        Err(e) => Err(e.to_string()),
    }
}

/// Reads a byte that may be missing with `<Option<u8> as BorshDeserialize>::deserialize`.
///
/// Trusted: it takes what [`optional_byte`] describes, and fails on anything else. Why it
/// failed is not kept.
#[verifier::external_body]
pub(crate) fn read_optional_byte(data: &[u8]) -> (r: Option<(Option<u8>, &[u8])>)
    ensures
        optional_byte(data@) == (match r {
            Some((n, rest)) => Some((n, rest@)),
            None => None,
        }),
{
    let mut rest = data;
    match Option::<u8>::deserialize(&mut rest) {
        Ok(n) => Some((n, rest)),
        Err(_) => None,
    }
}

/// The bytes of a truth value and a key that may be missing.
pub open spec fn flag_and_key(pair: Option<(bool, [u8; 32])>) -> Option<(bool, Seq<u8>)> {
    match pair {
        Some((b, k)) => Some((b, k@)),
        None => None,
    }
}

/// Reads a truth value and a key that may be missing with
/// `<Option<(bool, [u8; 32])> as BorshDeserialize>::deserialize`.
///
/// Trusted: it takes what [`optional_flag_and_key`] describes, and fails on anything else.
/// Why it failed is not kept.
#[verifier::external_body]
pub(crate) fn read_optional_flag_and_key(data: &[u8]) -> (r: Option<
    (Option<(bool, [u8; 32])>, &[u8]),
>)
    ensures
        optional_flag_and_key(data@) == (match r {
            Some((pair, rest)) => Some((flag_and_key(pair), rest@)),
            None => None,
        }),
{
    let mut rest = data;
    match Option::<(bool, [u8; 32])>::deserialize(&mut rest) {
        Ok(pair) => Some((pair, rest)),
        Err(_) => None,
    }
}

/// Reads a byte and two numbers that may be missing with
/// `<Option<(u8, u64, u64)> as BorshDeserialize>::deserialize`.
///
/// Trusted: it takes what [`optional_byte_and_numbers`] describes, and fails on anything
/// else. Why it failed is not kept.
#[verifier::external_body]
pub(crate) fn read_optional_byte_and_numbers(data: &[u8]) -> (r: Option<
    (Option<(u8, u64, u64)>, &[u8]),
>)
    ensures
        optional_byte_and_numbers(data@) == (match r {
            Some((triple, rest)) => Some((triple, rest@)),
            None => None,
        }),
{
    let mut rest = data;
    match Option::<(u8, u64, u64)>::deserialize(&mut rest) {
        Ok(triple) => Some((triple, rest)),
        Err(_) => None,
    }
}

} // verus!
