//! The full name of a face in a font file.
//!
//! The font parser decodes this name as big-endian UTF-16 without looking at it first,
//! so a file is checked before it is handed over: [`name_is_sound`] finds the name as
//! the parser does and tells whether it can be decoded. Everything else in a file is
//! left to the parser.

use vstd::prelude::*;

verus! {

/// The number at a place: two bytes, the higher one first.
pub open spec fn number16(data: Seq<u8>, at: int) -> int {
    data[at] * 0x100 + data[at + 1]
}

/// The number at a place: four bytes, the highest one first.
pub open spec fn number32(data: Seq<u8>, at: int) -> int {
    number16(data, at) * 0x1_0000 + number16(data, at + 2)
}

/// What a file with several faces begins with.
pub const COLLECTION: u128 = 0x7474_6366;

/// The tag of the naming table.
pub const NAME_TABLE: u128 = 0x6e61_6d65;

/// The number of the full name among the names of a face.
pub const FULL_NAME: u128 = 4;

/// Whether a face begins with this number.
pub open spec fn begins_face(magic: int) -> bool {
    magic == 0x0001_0000 || magic == 0x7472_7565 || magic == 0x4f54_544f
}

/// The place behind the number that a face begins with.
pub open spec fn face_start(data: Seq<u8>, index: u32) -> Option<int> {
    if data.len() < 4 {
        None
    } else if number32(data, 0) == COLLECTION {
        if data.len() < 12 || 12 + 4 * number32(data, 8) > data.len() || index >= number32(data, 8) {
            None
        } else {
            let at = number32(data, 12 + 4 * index);
            if at < 12 + 4 * number32(data, 8) || at + 4 > data.len() || !begins_face(
                number32(data, at),
            ) {
                None
            } else {
                Some(at + 4)
            }
        }
    } else if begins_face(number32(data, 0)) && index == 0 {
        Some(4)
    } else {
        None
    }
}

/// Where the table records of a face begin, and how many there are.
pub open spec fn table_records(data: Seq<u8>, index: u32) -> Option<(int, int)> {
    match face_start(data, index) {
        Some(at) if at + 2 <= data.len() && at + 8 + 16 * number16(data, at) <= data.len() => Some(
            (at + 8, number16(data, at)),
        ),
        _ => None,
    }
}

/// Where the naming table begins and ends: the last record with its tag counts, and a
/// table that does not lie within the file is none.
pub open spec fn name_table(data: Seq<u8>, first: int, count: int) -> Option<(int, int)>
    decreases count,
{
    if count <= 0 {
        None
    } else {
        let record = first + 16 * (count - 1);
        let start = number32(data, record + 8);
        let end = start + number32(data, record + 12);
        if number32(data, record) != NAME_TABLE || end > usize::MAX {
            name_table(data, first, count - 1)
        } else if end <= data.len() {
            Some((start, end))
        } else {
            None
        }
    }
}

/// The names of a face: where their records begin and how many there are, and where
/// the texts begin and end.
pub open spec fn name_records(data: Seq<u8>, start: int, end: int) -> Option<(int, int, int, int)> {
    if start + 6 > end {
        None
    } else {
        let version = number16(data, start);
        let count = number16(data, start + 2);
        if version > 1 || version == 1 && (start + 8 > end || 4 * number16(data, start + 6)
            > u16::MAX) {
            None
        } else {
            let first = if version == 0 {
                start + 6
            } else {
                start + 8 + 4 * number16(data, start + 6)
            };
            let behind = first + 12 * count;
            let texts = if behind < start + number16(data, start + 4) {
                start + number16(data, start + 4)
            } else {
                behind
            };
            if behind > end || texts > end {
                None
            } else {
                Some((first, count, texts, end))
            }
        }
    }
}

/// Whether the texts of a platform in an encoding are UTF-16.
pub open spec fn is_unicode(platform: int, encoding: int) -> bool {
    platform == 0 || platform == 3 && encoding <= 1
}

/// Where the full name begins and ends: the first one in UTF-16 among the records from
/// the `i`th on. A record of an unknown platform, or whose text does not lie among the
/// texts, ends the search.
pub open spec fn full_name(
    data: Seq<u8>,
    first: int,
    count: int,
    texts: int,
    end: int,
    i: int,
) -> Option<(int, int)>
    decreases count - i,
{
    if i >= count {
        None
    } else {
        let record = first + 12 * i;
        let from = texts + number16(data, record + 10);
        let to = from + number16(data, record + 8);
        if number16(data, record) > 4 || to > end {
            None
        } else if number16(data, record + 6) == FULL_NAME && is_unicode(
            number16(data, record),
            number16(data, record + 2),
        ) {
            Some((from, to))
        } else {
            full_name(data, first, count, texts, end, i + 1)
        }
    }
}

/// Whether the bytes decode: each unit is a character, or a leading surrogate that a
/// unit of at least 0xDC00 follows.
pub open spec fn decodes(data: Seq<u8>, from: int, to: int) -> bool
    decreases to - from,
{
    if from >= to {
        true
    } else if from + 2 > to {
        false
    } else if number16(data, from) < 0xd800 || number16(data, from) > 0xdfff {
        decodes(data, from + 2, to)
    } else {
        from + 4 <= to && number16(data, from) < 0xdc00 && number16(data, from + 2) >= 0xdc00
            && decodes(data, from + 4, to)
    }
}

/// Whether the full name of a face, where it has one, decodes.
pub open spec fn name_decodes(data: Seq<u8>, index: u32) -> bool {
    match table_records(data, index) {
        Some((records, tables)) => match name_table(data, records, tables) {
            Some((start, end)) => match name_records(data, start, end) {
                Some((first, count, texts, limit)) => match full_name(
                    data,
                    first,
                    count,
                    texts,
                    limit,
                    0,
                ) {
                    Some((from, to)) => decodes(data, from, to),
                    None => true,
                },
                None => true,
            },
            None => true,
        },
        None => true,
    }
}

fn read16(data: &Vec<u8>, at: u128) -> (r: u128)
    requires
        at + 2 <= data@.len() <= usize::MAX,
    ensures
        r == number16(data@, at as int),
        r <= 0xffff,
{
    data[at as usize] as u128 * 0x100 + data[at as usize + 1] as u128
}

fn read32(data: &Vec<u8>, at: u128) -> (r: u128)
    requires
        at + 4 <= data@.len() <= usize::MAX,
    ensures
        r == number32(data@, at as int),
        r <= 0xffff_ffff,
{
    read16(data, at) * 0x1_0000 + read16(data, at + 2)
}

fn find_face(data: &Vec<u8>, index: u32) -> (r: Option<u128>)
    ensures
        match r {
            Some(at) => face_start(data@, index) == Some(at as int) && at <= data@.len(),
            None => face_start(data@, index) is None,
        },
{
    let len: u128 = data.len() as u128;
    if len < 4 {
        return None;
    }
    let magic: u128 = read32(data, 0);
    if magic == COLLECTION {
        if len < 12 {
            return None;
        }
        let faces: u128 = read32(data, 8);
        if 12 + 4 * faces > len || index as u128 >= faces {
            return None;
        }
        let at: u128 = read32(data, 12 + 4 * index as u128);
        if at < 12 + 4 * faces || at + 4 > len {
            return None;
        }
        let magic: u128 = read32(data, at);
        if magic == 0x0001_0000 || magic == 0x7472_7565 || magic == 0x4f54_544f {
            Some(at + 4)
        } else {
            None
        }
    } else if (magic == 0x0001_0000 || magic == 0x7472_7565 || magic == 0x4f54_544f) && index == 0 {
        Some(4)
    } else {
        None
    }
}

fn find_name_table(data: &Vec<u8>, first: u128, count: u128) -> (r: Option<(u128, u128)>)
    requires
        first + 16 * count <= data@.len(),
        data@.len() <= usize::MAX,
    ensures
        match r {
            Some((start, end)) => {
                &&& name_table(data@, first as int, count as int) == Some((start as int, end as int))
                &&& start <= end <= data@.len()
            },
            None => name_table(data@, first as int, count as int) is None,
        },
{
    let mut left: u128 = count;
    while left > 0
        invariant
            left <= count,
            first + 16 * count <= data@.len(),
            data@.len() <= usize::MAX,
            name_table(data@, first as int, count as int) == name_table(
                data@,
                first as int,
                left as int,
            ),
        decreases left,
    {
        let record: u128 = first + 16 * (left - 1);
        let start: u128 = read32(data, record + 8);
        let end: u128 = start + read32(data, record + 12);
        if read32(data, record) == NAME_TABLE && end <= usize::MAX as u128 {
            if end <= data.len() as u128 {
                return Some((start, end));
            }
            return None;
        }
        left = left - 1;
    }
    None
}

fn find_names(data: &Vec<u8>, start: u128, end: u128) -> (r: Option<(u128, u128, u128)>)
    requires
        start <= end <= data@.len(),
        data@.len() <= usize::MAX,
    ensures
        match r {
            Some((first, count, texts)) => {
                &&& name_records(data@, start as int, end as int) == Some(
                    (first as int, count as int, texts as int, end as int),
                )
                &&& first + 12 * count <= end
                &&& texts <= end
                &&& count <= 0xffff
            },
            None => name_records(data@, start as int, end as int) is None,
        },
{
    if start + 6 > end {
        return None;
    }
    let version: u128 = read16(data, start);
    let count: u128 = read16(data, start + 2);
    let offset: u128 = read16(data, start + 4);
    let mut first: u128 = start + 6;
    if version > 1 {
        return None;
    }
    if version == 1 {
        if start + 8 > end {
            return None;
        }
        let tags: u128 = read16(data, start + 6);
        if 4 * tags > u16::MAX as u128 {
            return None;
        }
        first = start + 8 + 4 * tags;
    }
    let behind: u128 = first + 12 * count;
    let texts: u128 = if behind < start + offset {
        start + offset
    } else {
        behind
    };
    if behind > end || texts > end {
        None
    } else {
        Some((first, count, texts))
    }
}

fn find_full_name(data: &Vec<u8>, first: u128, count: u128, texts: u128, end: u128) -> (r: Option<
    (u128, u128),
>)
    requires
        first + 12 * count <= end,
        texts <= end <= data@.len(),
        data@.len() <= usize::MAX,
    ensures
        match r {
            Some((from, to)) => {
                &&& full_name(data@, first as int, count as int, texts as int, end as int, 0)
                    == Some((from as int, to as int))
                &&& from <= to <= end
            },
            None => full_name(
                data@,
                first as int,
                count as int,
                texts as int,
                end as int,
                0,
            ) is None,
        },
{
    let mut i: u128 = 0;
    while i < count
        invariant
            i <= count,
            first + 12 * count <= end,
            texts <= end <= data@.len(),
            data@.len() <= usize::MAX,
            full_name(data@, first as int, count as int, texts as int, end as int, 0) == full_name(
                data@,
                first as int,
                count as int,
                texts as int,
                end as int,
                i as int,
            ),
        decreases count - i,
    {
        let record: u128 = first + 12 * i;
        let platform: u128 = read16(data, record);
        let encoding: u128 = read16(data, record + 2);
        let from: u128 = texts + read16(data, record + 10);
        let to: u128 = from + read16(data, record + 8);
        if platform > 4 || to > end {
            return None;
        }
        if read16(data, record + 6) == FULL_NAME && (platform == 0 || platform == 3 && encoding
            <= 1) {
            return Some((from, to));
        }
        i = i + 1;
    }
    None
}

fn text_decodes(data: &Vec<u8>, from: u128, to: u128) -> (r: bool)
    requires
        from <= to <= data@.len(),
        data@.len() <= usize::MAX,
    ensures
        r == decodes(data@, from as int, to as int),
{
    let mut at: u128 = from;
    while at < to
        invariant
            at <= to <= data@.len(),
            data@.len() <= usize::MAX,
            decodes(data@, from as int, to as int) == decodes(data@, at as int, to as int),
        decreases to - at,
    {
        if at + 2 > to {
            return false;
        }
        let unit: u128 = read16(data, at);
        if unit < 0xd800 || unit > 0xdfff {
            at = at + 2;
        } else {
            if at + 4 > to || unit >= 0xdc00 || read16(data, at + 2) < 0xdc00 {
                return false;
            }
            at = at + 4;
        }
    }
    true
}

/// Whether the full name of a face, where it has one, decodes.
pub fn name_is_sound(data: &Vec<u8>, index: u32) -> (r: bool)
    ensures
        r == name_decodes(data@, index),
{
    let at: u128 = match find_face(data, index) {
        Some(at) => at,
        None => {
            return true;
        },
    };
    let len: u128 = data.len() as u128;
    if at + 2 > len {
        return true;
    }
    let tables: u128 = read16(data, at);
    if at + 8 + 16 * tables > len {
        return true;
    }
    match find_name_table(data, at + 8, tables) {
        Some((start, end)) => match find_names(data, start, end) {
            Some((first, count, texts)) => match find_full_name(data, first, count, texts, end) {
                Some((from, to)) => text_decodes(data, from, to),
                None => true,
            },
            None => true,
        },
        None => true,
    }
}

/// A font begins with one of three marks, and then has one face; a collection begins with
/// its own, and has as many as it says.
pub proof fn law_face_begins_with_its_mark(data: Seq<u8>, index: u32)
    requires
        data.len() >= 4,
    ensures
        ({
            let mark = number32(data, 0);
            &&& (mark == 0x0001_0000 || mark == 0x7472_7565 || mark == 0x4f54_544f) && index == 0
                ==> face_start(data, index) == Some(4int)
            &&& mark != 0x7474_6366 && index > 0 ==> face_start(data, index) is None
            &&& mark != 0x7474_6366 && mark != 0x0001_0000 && mark != 0x7472_7565 && mark
                != 0x4f54_544f ==> face_start(data, index) is None
            &&& mark == 0x7474_6366 && data.len() >= 12 && index >= number32(data, 8)
                ==> face_start(data, index) is None
        }),
{
}

/// Numbers in a font have their highest byte first.
pub proof fn law_numbers_begin_with_the_highest_byte(data: Seq<u8>, at: int)
    ensures
        number16(data, at) / 0x100 == data[at],
        number16(data, at) % 0x100 == data[at + 1],
        number32(data, at) / 0x1_0000 == number16(data, at),
        number32(data, at) % 0x1_0000 == number16(data, at + 2),
{
}

/// The table of names is the last one that bears its mark; tables with another mark are
/// passed over.
pub proof fn law_name_table_bears_its_mark(data: Seq<u8>, first: int, count: int)
    requires
        count > 0,
        data.len() <= usize::MAX,
    ensures
        ({
            let record = first + 16 * (count - 1);
            let start = number32(data, record + 8);
            let length = number32(data, record + 12);
            &&& number32(data, record) != 0x6e61_6d65 ==> name_table(data, first, count)
                == name_table(data, first, count - 1)
            &&& number32(data, record) == 0x6e61_6d65 && start + length <= data.len()
                ==> name_table(data, first, count) == Some((start, start + length))
        }),
{
}

/// The full name is the first entry of the fourth kind that is written in Unicode: on the
/// platform of that name, or on Windows in one of the two encodings that are.
pub proof fn law_full_name_is_of_the_fourth_kind(
    data: Seq<u8>,
    first: int,
    count: int,
    texts: int,
    end: int,
    i: int,
)
    requires
        0 <= i < count,
        number16(data, first + 12 * i) <= 4,
        texts + number16(data, first + 12 * i + 10) + number16(data, first + 12 * i + 8) <= end,
    ensures
        ({
            let record = first + 12 * i;
            let platform = number16(data, record);
            let encoding = number16(data, record + 2);
            let unicode = platform == 0 || (platform == 3 && (encoding == 0 || encoding == 1));
            let from = texts + number16(data, record + 10);
            let here = number16(data, record + 6) == 4 && unicode;
            &&& here ==> full_name(data, first, count, texts, end, i) == Some(
                (from, from + number16(data, record + 8)),
            )
            &&& !here ==> full_name(data, first, count, texts, end, i) == full_name(
                data,
                first,
                count,
                texts,
                end,
                i + 1,
            )
        }),
{
}

/// A name that encodes a text can be decoded, whatever the text.
pub proof fn law_encoded_text_decodes(data: Seq<u8>, from: int, text: Seq<char>)
    requires
        forall|k: int|
            0 <= k < crate::windows_video::utf16_of(text).len() ==> number16(data, from + 2 * k)
                == #[trigger] crate::windows_video::utf16_of(text)[k],
    ensures
        decodes(data, from, from + 2 * crate::windows_video::utf16_of(text).len()),
    decreases text.len(),
{
    let units = crate::windows_video::utf16_of(text);
    if text.len() > 0 {
        let rest = text.drop_last();
        let before = crate::windows_video::utf16_of(rest);
        let c = text.last();
        crate::windows_video::law_text_is_encoded_character_by_character(rest, seq![c]);
        crate::windows_video::law_character_can_be_read_back(c);
        assert(text =~= rest + seq![c]);
        let own = crate::windows_video::utf16_of(seq![c]);
        assert forall|k: int| 0 <= k < before.len() implies number16(data, from + 2 * k)
            == #[trigger] before[k] by {
            assert(units[k] == before[k]);
        }
        law_encoded_text_decodes(data, from, rest);
        let at = from + 2 * before.len();
        assert(number16(data, from + 2 * before.len()) == units[before.len() as int]);
        reveal_with_fuel(decodes, 3);
        assert(units =~= before + own);
        assert(units[before.len() as int] == own[0]);
        assert(number16(data, at) == own[0]);
        if own.len() == 2 {
            assert(units[before.len() as int + 1] == own[1]);
            assert(number16(data, from + 2 * (before.len() + 1)) == units[before.len() as int + 1]);
            assert(number16(data, at + 2) == own[1]);
            assert(decodes(data, at + 4, at + 4));
        } else {
            assert(decodes(data, at + 2, at + 2));
        }
        assert(decodes(data, at, at + 2 * own.len()));
        lemma_decodes_in_parts(data, from, at, at + 2 * own.len());
    }
}

proof fn lemma_decodes_in_parts(data: Seq<u8>, from: int, at: int, to: int)
    requires
        from <= at <= to,
        decodes(data, from, at),
        decodes(data, at, to),
    ensures
        decodes(data, from, to),
    decreases at - from,
{
    if from < at {
        if number16(data, from) < 0xd800 || number16(data, from) > 0xdfff {
            lemma_decodes_in_parts(data, from + 2, at, to);
        } else {
            lemma_decodes_in_parts(data, from + 4, at, to);
        }
    }
}

/// A name with half a unit at its end, one that begins with the second half of a pair, or
/// one whose first half stands alone cannot be decoded.
pub proof fn law_broken_name_does_not_decode(data: Seq<u8>, from: int, to: int)
    requires
        from < to,
    ensures
        to == from + 1 ==> !decodes(data, from, to),
        0xdc00 <= number16(data, from) <= 0xdfff ==> !decodes(data, from, to),
        0xd800 <= number16(data, from) < 0xdc00 && (to < from + 4 || number16(data, from + 2)
            < 0xdc00) ==> !decodes(data, from, to),
{
}

} // verus!
