//! How the fields of an account are written as bytes, and that they are read as what was
//! written.
use vstd::prelude::*;
use vstd::utf8;

use crate::borsh_fields;
use crate::borsh_fields::{CreatorEntry, Read};
use crate::bytes;
use crate::decimal;

verus! {

/// The lowest `width` bytes of a number, least significant byte first.
pub open spec fn number_bytes(n: nat, width: nat) -> Seq<u8>
    decreases width,
{
    if width == 0 {
        Seq::empty()
    } else {
        seq![(n % 256) as u8] + number_bytes(n / 256, (width - 1) as nat)
    }
}

/// How many numbers fit into `width` bytes.
pub open spec fn numbers_in(width: nat) -> nat
    decreases width,
{
    if width == 0 {
        1
    } else {
        256 * numbers_in((width - 1) as nat)
    }
}

/// How many numbers fit into two, four and eight bytes.
pub proof fn lemma_numbers_in()
    ensures
        numbers_in(2) == 0x1_0000,
        numbers_in(4) == 0x1_0000_0000,
        numbers_in(8) == 0x1_0000_0000_0000_0000,
{
    reveal_with_fuel(numbers_in, 9);
}

/// A number that fits is read from its bytes.
pub proof fn law_number_round_trip(n: nat, width: nat)
    requires
        n < numbers_in(width),
    ensures
        number_bytes(n, width).len() == width,
        bytes::little_endian(number_bytes(n, width)) == n,
    decreases width,
{
    if width > 0 {
        let written = number_bytes(n, width);
        law_number_round_trip(n / 256, (width - 1) as nat);
        assert(written.skip(1) =~= number_bytes(n / 256, (width - 1) as nat));
        assert(written[0] == (n % 256) as u8);
    }
}

/// A number is read from its own bytes only.
pub proof fn law_number_has_one_writing(data: Seq<u8>)
    ensures
        bytes::little_endian(data) < numbers_in(data.len()),
        number_bytes(bytes::little_endian(data), data.len()) == data,
    decreases data.len(),
{
    if data.len() > 0 {
        law_number_has_one_writing(data.skip(1));
        let n = bytes::little_endian(data);
        assert(n / 256 == bytes::little_endian(data.skip(1)));
        assert(n % 256 == data[0]);
        assert(number_bytes(n, data.len()) =~= data);
    } else {
        assert(number_bytes(0, 0) =~= data);
    }
}

/// A truth value as a byte.
pub open spec fn flag_bytes(b: bool) -> Seq<u8> {
    if b {
        seq![1u8]
    } else {
        seq![0u8]
    }
}

/// A text as the number of its bytes in UTF-8, and those bytes.
pub open spec fn text_bytes(s: Seq<char>) -> Seq<u8> {
    number_bytes(utf8::encode_utf8(s).len(), 4) + utf8::encode_utf8(s)
}

/// Whether a text is short enough to be written.
pub open spec fn text_fits(s: Seq<char>) -> bool {
    utf8::encode_utf8(s).len() < 0x1_0000_0000
}

/// The complaint about data that ends too early, in words.
pub open spec fn ends_too_early() -> Seq<char> {
    "Unexpected length of input"@
}

/// A truth value is read from its byte, and any other byte is complained about.
pub proof fn law_flags(tail: Seq<u8>, n: u8)
    ensures
        borsh_fields::flag(flag_bytes(true) + tail) == Read::<bool>::Ok((true, tail)),
        borsh_fields::flag(flag_bytes(false) + tail) == Read::<bool>::Ok((false, tail)),
        borsh_fields::flag(Seq::empty()) == Read::<bool>::Err(ends_too_early()),
        n > 1 ==> borsh_fields::flag(seq![n] + tail) == Read::<bool>::Err(
            "Invalid bool representation: "@ + decimal::decimal(n as nat),
        ),
{
    assert((flag_bytes(true) + tail).skip(1) =~= tail);
    assert((flag_bytes(false) + tail).skip(1) =~= tail);
}

/// A truth value is read from its own byte only.
pub(crate) proof fn lemma_flag_read(data: Seq<u8>)
    ensures
        borsh_fields::flag(data) matches Ok((b, rest)) ==> data == flag_bytes(b) + rest,
{
    if let Ok((b, rest)) = borsh_fields::flag(data) {
        assert(data =~= flag_bytes(b) + rest);
    }
}

/// A key is read from its 32 bytes, and from fewer it is not.
pub(crate) proof fn lemma_key(key: Seq<u8>, tail: Seq<u8>, cut: int)
    requires
        key.len() == 32,
        0 <= cut < 32,
    ensures
        borsh_fields::key(key + tail) == Read::<Seq<u8>>::Ok((key, tail)),
        borsh_fields::key(key.take(cut)) == Read::<Seq<u8>>::Err(ends_too_early()),
{
    assert((key + tail).take(32) =~= key);
    assert((key + tail).skip(32) =~= tail);
}

pub(crate) proof fn lemma_key_read(data: Seq<u8>)
    ensures
        borsh_fields::key(data) matches Ok((key, rest)) ==> key.len() == 32 && data == key + rest,
{
    if let Ok((key, rest)) = borsh_fields::key(data) {
        assert(data =~= key + rest);
    }
}

/// A 16-bit number is read from its two bytes, and from fewer it is not.
pub(crate) proof fn lemma_short(n: u16, tail: Seq<u8>, cut: int)
    requires
        0 <= cut < 2,
    ensures
        number_bytes(n as nat, 2).len() == 2,
        borsh_fields::short(number_bytes(n as nat, 2) + tail) == Read::<u16>::Ok((n, tail)),
        borsh_fields::short(number_bytes(n as nat, 2).take(cut)) == Read::<u16>::Err(
            ends_too_early(),
        ),
{
    let written = number_bytes(n as nat, 2);
    lemma_numbers_in();
    law_number_round_trip(n as nat, 2);
    assert((written + tail).take(2) =~= written);
    assert((written + tail).skip(2) =~= tail);
}

pub(crate) proof fn lemma_short_read(data: Seq<u8>)
    ensures
        borsh_fields::short(data) matches Ok((n, rest)) ==> data == number_bytes(n as nat, 2)
            + rest,
{
    if let Ok((n, rest)) = borsh_fields::short(data) {
        lemma_numbers_in();
        law_number_has_one_writing(data.take(2));
        assert(data =~= data.take(2) + rest);
    }
}

/// A text is read from its bytes, and from a part of them it is not.
pub proof fn law_text_round_trip(s: Seq<char>, tail: Seq<u8>, cut: int)
    requires
        text_fits(s),
    ensures
        borsh_fields::string(text_bytes(s) + tail) == Read::<Seq<char>>::Ok((s, tail)),
        0 <= cut < text_bytes(s).len() ==> borsh_fields::string(text_bytes(s).take(cut)) == Read::<
            Seq<char>,
        >::Err(ends_too_early()),
{
    let written = text_bytes(s);
    let inner = utf8::encode_utf8(s);
    let data = written + tail;
    lemma_numbers_in();
    law_number_round_trip(inner.len(), 4);
    assert(data.take(4) =~= number_bytes(inner.len(), 4));
    assert(borsh_fields::string_bytes(data) =~= inner);
    assert(data.skip(4 + inner.len() as int) =~= tail);
    utf8::encode_utf8_valid_utf8(s);
    utf8::encode_utf8_decode_utf8(s);
    if 4 <= cut < written.len() {
        assert(written.take(cut).take(4) =~= number_bytes(inner.len(), 4));
    }
}

/// Bytes that are not UTF-8 are no text, and that is complained about.
pub proof fn law_text_is_utf8(inner: Seq<u8>, tail: Seq<u8>)
    requires
        inner.len() < 0x1_0000_0000,
        !utf8::valid_utf8(inner),
    ensures
        borsh_fields::string(number_bytes(inner.len(), 4) + inner + tail) == Read::<
            Seq<char>,
        >::Err(borsh_fields::utf8_complaint(inner)),
{
    let data = number_bytes(inner.len(), 4) + inner + tail;
    lemma_numbers_in();
    law_number_round_trip(inner.len(), 4);
    assert(data.take(4) =~= number_bytes(inner.len(), 4));
    assert(borsh_fields::string_bytes(data) =~= inner);
}

pub(crate) proof fn lemma_text_read(data: Seq<u8>)
    ensures
        borsh_fields::string(data) matches Ok((s, rest)) ==> text_fits(s) && data == text_bytes(s)
            + rest,
{
    if let Ok((s, rest)) = borsh_fields::string(data) {
        lemma_numbers_in();
        law_number_has_one_writing(data.take(4));
        utf8::decode_utf8_encode_utf8(borsh_fields::string_bytes(data));
        assert(data =~= data.take(4) + borsh_fields::string_bytes(data) + rest);
    }
}

/// A creator's entry as an address, a truth value and a share.
pub open spec fn entry_bytes(entry: CreatorEntry) -> Seq<u8> {
    entry.0 + flag_bytes(entry.1) + seq![entry.2]
}

/// Creators' entries, one after the other.
pub open spec fn entries_bytes(list: Seq<CreatorEntry>) -> Seq<u8>
    decreases list.len(),
{
    if list.len() == 0 {
        Seq::empty()
    } else {
        entries_bytes(list.drop_last()) + entry_bytes(list.last())
    }
}

/// A list of creators that may be missing: a byte 0 if it is, else a byte 1, the number of
/// creators in four bytes, and their entries.
pub open spec fn creators_bytes(creators: Option<Seq<CreatorEntry>>) -> Seq<u8> {
    match creators {
        None => seq![0u8],
        Some(list) => seq![1u8] + number_bytes(list.len(), 4) + entries_bytes(list),
    }
}

/// Whether a list of creators can be written: few enough, with addresses of 32 bytes.
pub open spec fn creators_can_be_written(creators: Option<Seq<CreatorEntry>>) -> bool {
    match creators {
        None => true,
        Some(list) => {
            &&& list.len() < 0x1_0000_0000
            &&& forall|i: int| 0 <= i < list.len() ==> (#[trigger] list[i]).0.len() == 32
        },
    }
}

/// Where the entries of a list stand among its bytes.
proof fn lemma_entries(list: Seq<CreatorEntry>)
    requires
        forall|i: int| 0 <= i < list.len() ==> (#[trigger] list[i]).0.len() == 32,
    ensures
        entries_bytes(list).len() == 34 * list.len(),
        forall|i: int|
            #![trigger list[i]]
            0 <= i < list.len() ==> entries_bytes(list).subrange(34 * i, 34 * i + 34)
                == entry_bytes(list[i]),
    decreases list.len(),
{
    if list.len() > 0 {
        let before = list.drop_last();
        assert forall|i: int| 0 <= i < before.len() implies (#[trigger] before[i]).0.len()
            == 32 by {
            assert(before[i] == list[i]);
        }
        lemma_entries(before);
        let last = list[list.len() - 1];
        assert(last.0.len() == 32);
        assert(entry_bytes(last).len() == 34);
        let all = entries_bytes(list);
        assert forall|i: int| #![trigger list[i]] 0 <= i < list.len() implies all.subrange(
            34 * i,
            34 * i + 34,
        ) == entry_bytes(list[i]) by {
            if i < before.len() {
                assert(before[i] == list[i]);
                assert(all.subrange(34 * i, 34 * i + 34) =~= entries_bytes(before).subrange(
                    34 * i,
                    34 * i + 34,
                ));
            } else {
                assert(all.subrange(34 * i, 34 * i + 34) =~= entry_bytes(last));
            }
        }
    }
}

/// Whether the entry of creator `i` is whole, and is this one.
spec fn stands_at(data: Seq<u8>, i: int, entry: CreatorEntry) -> bool {
    &&& borsh_fields::entry_fits(data, i)
    &&& borsh_fields::creator_entry(data, i) == entry
}

/// What stands in data that starts like a list of `count` creators with these entries.
proof fn lemma_list_start(list: Seq<CreatorEntry>, count: nat, data: Seq<u8>)
    requires
        count < 0x1_0000_0000,
        forall|i: int| 0 <= i < list.len() ==> (#[trigger] list[i]).0.len() == 32,
        (seq![1u8] + number_bytes(count, 4) + entries_bytes(list)).is_prefix_of(data),
    ensures
        entries_bytes(list).len() == 34 * list.len(),
        data.len() >= 5 + 34 * list.len(),
        data[0] == 1,
        borsh_fields::creator_count(data) == count,
        forall|i: int|
            #![trigger list[i]]
            0 <= i < list.len() ==> stands_at(data, i, list[i]),
{
    let start = seq![1u8] + number_bytes(count, 4) + entries_bytes(list);
    lemma_numbers_in();
    law_number_round_trip(count, 4);
    lemma_entries(list);
    assert forall|j: int| 0 <= j < start.len() implies #[trigger] data[j] == start[j] by {
        assert(start[j] == data.subrange(0, start.len() as int)[j]);
    }
    assert(data.subrange(1, 5) =~= number_bytes(count, 4));
    assert forall|i: int| #![trigger list[i]] 0 <= i < list.len() implies stands_at(
        data,
        i,
        list[i],
    ) by {
        let at = 5 + 34 * i;
        let entry = entry_bytes(list[i]);
        assert(data.subrange(at, at + 34) =~= entries_bytes(list).subrange(34 * i, 34 * i + 34));
        assert(entry == data.subrange(at, at + 34));
        assert(data[at + 32] == entry[32]);
        assert(data[at + 33] == entry[33]);
        assert(data.subrange(at, at + 32) =~= list[i].0) by {
            assert forall|j: int| 0 <= j < 32 implies data[at + j] == list[i].0[j] by {
                assert(data[at + j] == entry[j]);
            }
        }
        assert(borsh_fields::entry_start(i) == at);
        assert(borsh_fields::creator_entry(data, i).0 == list[i].0);
        assert(borsh_fields::creator_entry(data, i).1 == list[i].1);
        assert(borsh_fields::creator_entry(data, i).2 == list[i].2);
    }
}

/// A list of creators is read from its bytes.
pub(crate) proof fn lemma_creators(creators: Option<Seq<CreatorEntry>>, tail: Seq<u8>)
    requires
        creators_can_be_written(creators),
    ensures
        borsh_fields::creators(creators_bytes(creators) + tail) == Read::<
            Option<Seq<CreatorEntry>>,
        >::Ok((creators, tail)),
{
    let data = creators_bytes(creators) + tail;
    match creators {
        None => {
            assert(data.skip(1) =~= tail);
        },
        Some(list) => {
            lemma_numbers_in();
            law_number_round_trip(list.len(), 4);
            lemma_list_start(list, list.len(), data);
            assert forall|i: int|
                #![trigger borsh_fields::entry_start(i)]
                0 <= i < list.len() implies data[borsh_fields::entry_start(i) + 32] <= 1 by {
                assert(list[i] == list[i]);
            }
            assert(Seq::new(list.len(), |i: int| borsh_fields::creator_entry(data, i)) =~= list);
            assert(data.skip(5 + 34 * list.len() as int) =~= tail);
        },
    }
}

/// Where all entries up to one that is cut off fit, the data ends too early.
proof fn lemma_cut_entries(data: Seq<u8>, n: int, i: int)
    requires
        0 <= i <= n,
        borsh_fields::creator_count(data) == n,
        5 <= data.len() < 5 + 34 * n,
        forall|j: int|
            #![trigger borsh_fields::entry_start(j)]
            0 <= j < n && borsh_fields::entry_start(j) + 32 < data.len()
                ==> data[borsh_fields::entry_start(j) + 32] <= 1,
        data.len() >= 5 + 34 * i,
    ensures
        borsh_fields::entry_complaint(data, i) == ends_too_early(),
    decreases n - i,
{
    assert(borsh_fields::entry_start(i) == 5 + 34 * i);
    if borsh_fields::entry_fits(data, i) {
        lemma_cut_entries(data, n, i + 1);
    }
}

/// A list of creators is not read from a part of its bytes.
pub(crate) proof fn lemma_cut_creators(creators: Option<Seq<CreatorEntry>>, cut: int)
    requires
        creators_can_be_written(creators),
        0 <= cut < creators_bytes(creators).len(),
    ensures
        borsh_fields::creators(creators_bytes(creators).take(cut)) == Read::<
            Option<Seq<CreatorEntry>>,
        >::Err(ends_too_early()),
{
    let all = creators_bytes(creators);
    let data = all.take(cut);
    if let Some(list) = creators {
        lemma_numbers_in();
        law_number_round_trip(list.len(), 4);
        lemma_list_start(list, list.len(), all);
        if cut >= 5 {
            assert(data.subrange(1, 5) =~= all.subrange(1, 5));
            assert forall|j: int|
                #![trigger borsh_fields::entry_start(j)]
                0 <= j < list.len() && borsh_fields::entry_start(j) + 32 < data.len() implies data[
            borsh_fields::entry_start(j) + 32] <= 1 by {
                assert(list[j] == list[j]);
                assert(borsh_fields::entry_fits(all, j));
            }
            lemma_cut_entries(data, list.len() as int, 0);
        }
    }
}

/// A list of creators is read from its own bytes only.
pub(crate) proof fn lemma_creators_read(data: Seq<u8>)
    ensures
        borsh_fields::creators(data) matches Ok((creators, rest)) ==> creators_can_be_written(
            creators,
        ) && data == creators_bytes(creators) + rest,
{
    if let Ok((creators, rest)) = borsh_fields::creators(data) {
        if let Some(list) = creators {
            let n = borsh_fields::creator_count(data);
            lemma_numbers_in();
            law_number_has_one_writing(data.subrange(1, 5));
            assert forall|i: int| 0 <= i < list.len() implies (#[trigger] list[i]).0.len()
                == 32 by {
                assert(borsh_fields::entry_start(i) + 34 <= borsh_fields::entry_start(n));
            }
            lemma_entries(list);
            let written = entries_bytes(list);
            assert(written =~= data.subrange(5, 5 + 34 * n)) by {
                assert forall|j: int| 0 <= j < written.len() implies written[j] == data[5 + j] by {
                    let i = j / 34;
                    let entry = entry_bytes(list[i]);
                    assert(written.subrange(34 * i, 34 * i + 34) == entry);
                    assert(written[j] == entry[j - 34 * i]);
                    assert(borsh_fields::entry_start(i) == 5 + 34 * i);
                    assert(data[borsh_fields::entry_start(i) + 32] <= 1);
                    assert(list[i] == borsh_fields::creator_entry(data, i));
                }
            }
            assert(data =~= creators_bytes(creators) + rest);
        } else {
            assert(data =~= creators_bytes(creators) + rest);
        }
    }
}

/// Where the entries before one fit, and its truth value is none, that is complained about.
proof fn lemma_bad_entry(data: Seq<u8>, bad: int, i: int)
    requires
        0 <= i <= bad < borsh_fields::creator_count(data),
        forall|j: int| i <= j < bad ==> #[trigger] borsh_fields::entry_fits(data, j),
        data.len() > 5 + 34 * bad + 32,
        data[5 + 34 * bad + 32] > 1,
    ensures
        borsh_fields::entry_complaint(data, i) == "Invalid bool representation: "@
            + decimal::decimal(data[5 + 34 * bad + 32] as nat),
    decreases bad - i,
{
    if i < bad {
        assert(borsh_fields::entry_fits(data, i));
        lemma_bad_entry(data, bad, i + 1);
    }
}

/// What is wrong with a list of creators is told by the first byte that is wrong: that it
/// is neither there nor missing, or that an entry has no truth value.
pub proof fn law_bad_creators(
    list: Seq<CreatorEntry>,
    count: nat,
    key: Seq<u8>,
    n: u8,
    tail: Seq<u8>,
)
    requires
        n > 1,
        list.len() < count < 0x1_0000_0000,
        forall|i: int| 0 <= i < list.len() ==> (#[trigger] list[i]).0.len() == 32,
        key.len() == 32,
    ensures
        borsh_fields::creators(seq![n] + tail) == Read::<Option<Seq<CreatorEntry>>>::Err(
            "Invalid Option representation: "@ + decimal::decimal(n as nat)
                + ". The first byte must be 0 or 1"@,
        ),
        borsh_fields::creators(
            seq![1u8] + number_bytes(count, 4) + entries_bytes(list) + key + seq![n] + tail,
        ) == Read::<Option<Seq<CreatorEntry>>>::Err(
            "Invalid bool representation: "@ + decimal::decimal(n as nat),
        ),
{
    let start = seq![1u8] + number_bytes(count, 4) + entries_bytes(list);
    let data = start + key + seq![n] + tail;
    lemma_numbers_in();
    law_number_round_trip(count, 4);
    assert(start.is_prefix_of(data));
    lemma_list_start(list, count, data);
    assert forall|j: int| 0 <= j < list.len() implies #[trigger] borsh_fields::entry_fits(
        data,
        j,
    ) by {
        assert(list[j] == list[j]);
    }
    let bad = list.len() as int;
    assert(data[5 + 34 * bad + 32] == n);
    assert(borsh_fields::entry_start(bad) == 5 + 34 * bad);
    lemma_bad_entry(data, bad, 0);
}

} // verus!
