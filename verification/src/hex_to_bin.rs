//! Intel-HEX decoding.
//!
//! The text is taken line by line. Colons and spaces are dropped from a
//! line; what remains is a record of hexadecimal digit pairs: a length, a
//! 16-bit offset, a record type, and the payload. Anything behind the
//! payload, the checksum included, is not looked at.

use vstd::prelude::*;
use vstd::string::StringSliceAdditionalSpecFns;

verus! {

/// Byte that fills the gaps between data records.
pub const FILL_BYTE: u8 = 0xFF;

/// Base address of an image that does not say where it belongs.
pub const UNSPECIFIED_BASE: u32 = 0xFFFF_FFFF;

pub const LINE_FEED: u8 = 0x0A;

pub const CARRIAGE_RETURN: u8 = 0x0D;

pub const COLON: u8 = 0x3A;

pub const SPACE: u8 = 0x20;

/// Record type: payload bytes for the open window.
pub const DATA_RECORD: u32 = 0;

/// Record type: nothing follows.
pub const END_RECORD: u32 = 1;

/// Record type: the payload is the upper half of a new base address.
pub const BASE_RECORD: u32 = 4;

/// A run of bytes and the flash address of its first byte.
#[derive(Clone, Debug, PartialEq, Eq)]
pub struct Bin {
    pub address: u32,
    pub data: Vec<u8>,
}

/// A [`Bin`] with its bytes as a sequence.
pub struct Segment {
    pub address: u32,
    pub data: Seq<u8>,
}

impl View for Bin {
    type V = Segment;

    open spec fn view(&self) -> Segment {
        Segment { address: self.address, data: self.data@ }
    }
}

/// The segments that a list of [`Bin`]s stands for.
pub open spec fn segments(bins: Seq<Bin>) -> Seq<Segment> {
    Seq::new(bins.len(), |i: int| bins[i]@)
}

/// Why a text is not Intel-HEX.
#[derive(Clone, Copy, Debug, PartialEq, Eq, Structural)]
pub enum DecodeError {
    /// A line ends before the record it starts is complete.
    Truncated,
    /// A character where a hexadecimal digit belongs.
    NotHex,
}

/// The value of a hexadecimal digit.
pub open spec fn digit_value(byte: u8) -> Option<nat> {
    if 0x30 <= byte <= 0x39 {
        Some((byte - 0x30) as nat)
    } else if 0x41 <= byte <= 0x46 {
        Some((byte - 0x41 + 10) as nat)
    } else if 0x61 <= byte <= 0x66 {
        Some((byte - 0x61 + 10) as nat)
    } else {
        None
    }
}

/// The number that a run of hexadecimal digits spells, most significant
/// digit first; nothing if one of them is no digit.
pub open spec fn hex_value(digits: Seq<u8>) -> Option<nat>
    decreases digits.len(),
{
    if digits.len() == 0 {
        Some(0)
    } else {
        match (hex_value(digits.drop_last()), digit_value(digits.last())) {
            (Some(high), Some(low)) => Some(16 * high + low),
            _ => None,
        }
    }
}

/// The number in the `width` digits of `line` that start at `start`.
pub open spec fn field(line: Seq<u8>, start: int, width: int) -> Result<nat, DecodeError> {
    if line.len() < start + width {
        Err(DecodeError::Truncated)
    } else {
        match hex_value(line.subrange(start, start + width)) {
            Some(value) => Ok(value),
            None => Err(DecodeError::NotHex),
        }
    }
}

/// The first `count` payload bytes of a record, or the error of the first
/// one that cannot be read.
pub open spec fn payload(line: Seq<u8>, count: nat) -> Result<Seq<u8>, DecodeError>
    decreases count,
{
    if count == 0 {
        Ok(Seq::empty())
    } else {
        match payload(line, (count - 1) as nat) {
            Err(e) => Err(e),
            Ok(bytes) => match field(line, 8 + 2 * (count - 1), 2) {
                Err(e) => Err(e),
                Ok(value) => Ok(bytes.push(value as u8)),
            },
        }
    }
}

/// What a line says.
pub enum Record {
    /// Payload bytes that belong at `offset` of the open window.
    Data { offset: nat, bytes: Seq<u8> },
    /// The end of the file.
    End,
    /// A new window whose base address has `upper` as its upper half.
    Base { upper: nat },
    /// Nothing that matters: a record type that is not known, or data
    /// while no window is open.
    Other,
}

/// Reads a line from which colons and spaces are gone. The payload of a
/// data record is read only while a window is open.
pub open spec fn parse_record(line: Seq<u8>, opened: bool) -> Result<Record, DecodeError> {
    match field(line, 0, 2) {
        Err(e) => Err(e),
        Ok(count) => match field(line, 2, 4) {
            Err(e) => Err(e),
            Ok(offset) => match field(line, 6, 2) {
                Err(e) => Err(e),
                Ok(kind) => if kind == DATA_RECORD {
                    if opened {
                        match payload(line, count) {
                            Err(e) => Err(e),
                            Ok(bytes) => Ok(Record::Data { offset, bytes }),
                        }
                    } else {
                        Ok(Record::Other)
                    }
                } else if kind == END_RECORD {
                    Ok(Record::End)
                } else if kind == BASE_RECORD {
                    match field(line, 8, 4) {
                        Err(e) => Err(e),
                        Ok(upper) => Ok(Record::Base { upper }),
                    }
                } else {
                    Ok(Record::Other)
                },
            },
        },
    }
}

/// A line without its colons and spaces.
pub open spec fn squeeze(line: Seq<u8>) -> Seq<u8>
    decreases line.len(),
{
    if line.len() == 0 {
        Seq::empty()
    } else if line.last() == COLON || line.last() == SPACE {
        squeeze(line.drop_last())
    } else {
        squeeze(line.drop_last()).push(line.last())
    }
}

/// Place of the first line feed at or after `from`, or the text's length.
pub open spec fn line_end(text: Seq<u8>, from: int) -> int
    decreases text.len() - from,
{
    if from < 0 || from >= text.len() {
        text.len() as int
    } else if text[from] == LINE_FEED {
        from
    } else {
        line_end(text, from + 1)
    }
}

/// A line ends at or after the place where it starts, within the text.
pub proof fn lemma_line_end_bounds(text: Seq<u8>, from: int)
    requires
        0 <= from <= text.len(),
    ensures
        from <= line_end(text, from) <= text.len(),
        line_end(text, from) < text.len() ==> text[line_end(text, from)] == LINE_FEED,
        forall|k: int| from <= k < line_end(text, from) ==> text[k] != LINE_FEED,
    decreases text.len() - from,
{
    if from < text.len() && text[from] != LINE_FEED {
        lemma_line_end_bounds(text, from + 1);
    }
}

/// The line that starts at `from`, without its line feed and without the
/// carriage return that may stand before the line feed.
pub open spec fn line_at(text: Seq<u8>, from: int) -> Seq<u8> {
    let end = line_end(text, from);
    let raw = text.subrange(from, end);
    if end < text.len() && raw.len() > 0 && raw.last() == CARRIAGE_RETURN {
        raw.drop_last()
    } else {
        raw
    }
}

/// Where the line after the one at `from` starts.
pub open spec fn line_after(text: Seq<u8>, from: int) -> int {
    let end = line_end(text, from);
    if end < text.len() {
        end + 1
    } else {
        end
    }
}

/// `data` brought to `len` bytes: cut where it is longer, filled up with
/// [`FILL_BYTE`] where it is shorter.
pub open spec fn resized(data: Seq<u8>, len: nat) -> Seq<u8> {
    if len <= data.len() {
        data.take(len as int)
    } else {
        data + Seq::new((len - data.len()) as nat, |i: int| FILL_BYTE)
    }
}

/// What the decoder knows between two lines.
pub struct Decoding {
    /// The windows that are closed, in the order they were opened.
    pub closed: Seq<Segment>,
    /// The window that is open, or an empty one at address zero.
    pub current: Segment,
    /// Whether a base record has been seen.
    pub opened: bool,
    /// Number of payload bytes that went into the open window.
    pub cursor: nat,
}

/// The decoder before the first line.
pub open spec fn start() -> Decoding {
    Decoding {
        closed: Seq::empty(),
        current: Segment { address: 0, data: Seq::empty() },
        opened: false,
        cursor: 0,
    }
}

/// The decoder after a record that is not the end record.
///
/// A base record closes the open window, if there is one, and opens an
/// empty one. A data record whose offset lies ahead of the cursor first
/// brings the window to exactly that many bytes; then its payload is
/// appended and the cursor goes forward by its length.
pub open spec fn apply(state: Decoding, record: Record) -> Decoding {
    match record {
        Record::Base { upper } => Decoding {
            closed: if state.opened {
                state.closed.push(state.current)
            } else {
                state.closed
            },
            current: Segment { address: (upper * 0x1_0000) as u32, data: Seq::empty() },
            opened: true,
            cursor: 0,
        },
        Record::Data { offset, bytes } => {
            let kept = if state.cursor < offset {
                resized(state.current.data, offset)
            } else {
                state.current.data
            };
            Decoding {
                closed: state.closed,
                current: Segment { address: state.current.address, data: kept + bytes },
                opened: state.opened,
                cursor: state.cursor + bytes.len(),
            }
        },
        _ => state,
    }
}

/// The image once decoding is over: the closed windows and the open one.
pub open spec fn finish(state: Decoding) -> Seq<Segment> {
    state.closed.push(state.current)
}

/// The image that the lines from place `from` on lead to.
pub open spec fn decode_from(text: Seq<u8>, from: int, state: Decoding) -> Result<
    Seq<Segment>,
    DecodeError,
>
    decreases text.len() - from,
{
    if from < 0 || from >= text.len() {
        Ok(finish(state))
    } else {
        match parse_record(squeeze(line_at(text, from)), state.opened) {
            Err(e) => Err(e),
            Ok(Record::End) => Ok(finish(state)),
            Ok(record) => {
                proof {
                    lemma_line_end_bounds(text, from);
                }
                decode_from(text, line_after(text, from), apply(state, record))
            },
        }
    }
}

/// The image that a text stands for, or the first error in it.
pub open spec fn decode(text: Seq<u8>) -> Result<Seq<Segment>, DecodeError> {
    decode_from(text, 0, start())
}

/// Number of bytes in all segments together.
pub open spec fn total_len(image: Seq<Segment>) -> nat
    decreases image.len(),
{
    if image.len() == 0 {
        0
    } else {
        total_len(image.drop_last()) + image.last().data.len()
    }
}

/// Whether the cursor lies within the open window. It always does.
pub open spec fn cursor_within(state: Decoding) -> bool {
    state.cursor <= state.current.data.len()
}

/// The cursor never leaves the open window.
pub proof fn law_cursor_stays_within(state: Decoding, record: Record)
    requires
        cursor_within(state),
    ensures
        cursor_within(start()),
        cursor_within(apply(state, record)),
{
}

/// A data record whose offset lies beyond the end of the open window
/// leaves what the window held as it was, fills the gap up to the offset
/// with [`FILL_BYTE`], and puts its payload at the offset.
pub proof fn law_gap_is_filled(state: Decoding, offset: nat, bytes: Seq<u8>)
    requires
        cursor_within(state),
        state.current.data.len() < offset,
    ensures
        ({
            let before = state.current.data;
            let after = apply(state, Record::Data { offset, bytes }).current.data;
            &&& after.len() == offset + bytes.len()
            &&& after.subrange(0, before.len() as int) == before
            &&& forall|k: int| before.len() <= k < offset ==> after[k] == FILL_BYTE
            &&& after.subrange(offset as int, (offset + bytes.len()) as int) == bytes
        }),
{
    let before = state.current.data;
    let after = apply(state, Record::Data { offset, bytes }).current.data;
    assert(after.subrange(0, before.len() as int) =~= before);
    assert(after.subrange(offset as int, (offset + bytes.len()) as int) =~= bytes);
}

/// A data record whose offset does not lie ahead of the cursor adds its
/// payload at the end of the open window: records that follow one
/// another give their payloads one after the other, in the order of the
/// lines.
pub proof fn law_record_at_cursor_appends(state: Decoding, offset: nat, bytes: Seq<u8>)
    requires
        offset <= state.cursor,
    ensures
        apply(state, Record::Data { offset, bytes }).current.data == state.current.data + bytes,
        apply(state, Record::Data { offset, bytes }).current.address == state.current.address,
        apply(state, Record::Data { offset, bytes }).closed == state.closed,
{
}

/// While no window is open, no line is taken for a data record: what it
/// holds is not read and goes nowhere.
pub proof fn law_data_needs_a_window(state: Decoding, line: Seq<u8>)
    requires
        !state.opened,
    ensures
        !(parse_record(line, state.opened) matches Ok(Record::Data { .. })),
        parse_record(line, state.opened) matches Ok(Record::Other) ==> apply(state, Record::Other)
            == state,
{
}

proof fn lemma_field_ignores_tail(line: Seq<u8>, tail: Seq<u8>, start: int, width: int)
    requires
        0 <= start,
        0 <= width,
        field(line, start, width) is Ok,
    ensures
        field(line + tail, start, width) == field(line, start, width),
{
    assert((line + tail).subrange(start, start + width) =~= line.subrange(start, start + width));
}

proof fn lemma_payload_ignores_tail(line: Seq<u8>, tail: Seq<u8>, count: nat)
    requires
        payload(line, count) is Ok,
    ensures
        payload(line + tail, count) == payload(line, count),
    decreases count,
{
    if count > 0 {
        lemma_payload_ignores_tail(line, tail, (count - 1) as nat);
        lemma_field_ignores_tail(line, tail, 8 + 2 * (count - 1), 2);
    }
}

/// A record is read no further than its declared length: whatever stands
/// behind a well-formed record, the checksum included, changes nothing.
pub proof fn law_reads_no_further_than_declared(line: Seq<u8>, tail: Seq<u8>, opened: bool)
    requires
        parse_record(line, opened) is Ok,
    ensures
        parse_record(line + tail, opened) == parse_record(line, opened),
{
    lemma_field_ignores_tail(line, tail, 0, 2);
    lemma_field_ignores_tail(line, tail, 2, 4);
    lemma_field_ignores_tail(line, tail, 6, 2);
    let count = field(line, 0, 2)->Ok_0;
    let kind = field(line, 6, 2)->Ok_0;
    if kind == DATA_RECORD && opened {
        lemma_payload_ignores_tail(line, tail, count);
    }
    if kind == BASE_RECORD {
        lemma_field_ignores_tail(line, tail, 8, 4);
    }
}

/// A part of an image has no more bytes than the whole.
pub proof fn lemma_total_len_grows(image: Seq<Segment>, upto: int)
    requires
        0 <= upto <= image.len(),
    ensures
        total_len(image.take(upto)) <= total_len(image),
    decreases image.len() - upto,
{
    if upto < image.len() {
        lemma_total_len_grows(image, upto + 1);
        assert(image.take(upto + 1).drop_last() =~= image.take(upto));
    } else {
        assert(image.take(upto) =~= image);
    }
}

/// Sixteen to the power of `width`: what `width` digits stay below.
pub open spec fn span(width: nat) -> nat
    decreases width,
{
    if width == 0 {
        1
    } else {
        16 * span((width - 1) as nat)
    }
}

proof fn lemma_hex_value_bound(digits: Seq<u8>)
    ensures
        hex_value(digits) matches Some(value) ==> value < span(digits.len()),
    decreases digits.len(),
{
    if digits.len() > 0 {
        lemma_hex_value_bound(digits.drop_last());
    }
}

proof fn lemma_hex_value_none(digits: Seq<u8>, k: int)
    requires
        0 <= k < digits.len(),
        digit_value(digits[k]) is None,
    ensures
        hex_value(digits) is None,
    decreases digits.len(),
{
    if k < digits.len() - 1 {
        lemma_hex_value_none(digits.drop_last(), k);
    }
}

proof fn lemma_payload_error(line: Seq<u8>, upto: nat, count: nat)
    requires
        upto <= count,
        payload(line, upto) is Err,
    ensures
        payload(line, count) == payload(line, upto),
    decreases count,
{
    if upto < count {
        lemma_payload_error(line, upto, (count - 1) as nat);
    }
}

fn digit(byte: u8) -> (value: Option<u8>)
    ensures
        match value {
            Some(v) => digit_value(byte) == Some(v as nat) && v < 16,
            None => digit_value(byte) is None,
        },
{
    if 0x30 <= byte && byte <= 0x39 {
        Some(byte - 0x30)
    } else if 0x41 <= byte && byte <= 0x46 {
        Some(byte - 0x41 + 10)
    } else if 0x61 <= byte && byte <= 0x66 {
        Some(byte - 0x61 + 10)
    } else {
        None
    }
}

fn read_field(line: &[u8], start: usize, width: usize) -> (value: Result<u32, DecodeError>)
    requires
        width <= 4,
        start <= 1024,
    ensures
        match value {
            Ok(v) => field(line@, start as int, width as int) == Ok::<nat, DecodeError>(v as nat)
                && v < span(width as nat),
            Err(e) => field(line@, start as int, width as int) == Err::<nat, DecodeError>(e),
        },
{
    if line.len() < start + width {
        return Err(DecodeError::Truncated);
    }
    let ghost digits = line@.subrange(start as int, start + width);
    let mut acc: u32 = 0;
    let mut i: usize = 0;
    proof {
        reveal_with_fuel(span, 5);
        assert(line@.subrange(start as int, start + 0) =~= Seq::<u8>::empty());
    }
    while i < width
        invariant
            i <= width <= 4,
            start <= 1024,
            start + width <= line@.len(),
            digits == line@.subrange(start as int, start + width),
            hex_value(line@.subrange(start as int, start + i)) == Some(acc as nat),
            acc < span(i as nat),
        decreases width - i,
    {
        proof {
            reveal_with_fuel(span, 5);
        }
        match digit(line[start + i]) {
            None => {
                proof {
                    assert(digits[i as int] == line@[start + i]);
                    lemma_hex_value_none(digits, i as int);
                }
                return Err(DecodeError::NotHex);
            },
            Some(d) => {
                proof {
                    let longer = line@.subrange(start as int, start + i + 1);
                    assert(longer.drop_last() =~= line@.subrange(start as int, start + i));
                    assert(longer.last() == line@[start + i]);
                }
                acc = acc * 16 + d as u32;
                i = i + 1;
            },
        }
    }
    Ok(acc)
}

fn read_payload(line: &[u8], count: usize) -> (bytes: Result<Vec<u8>, DecodeError>)
    requires
        count <= 255,
    ensures
        match bytes {
            Ok(b) => payload(line@, count as nat) == Ok::<Seq<u8>, DecodeError>(b@),
            Err(e) => payload(line@, count as nat) == Err::<Seq<u8>, DecodeError>(e),
        },
{
    let mut bytes: Vec<u8> = Vec::new();
    let mut i: usize = 0;
    while i < count
        invariant
            i <= count <= 255,
            payload(line@, i as nat) == Ok::<Seq<u8>, DecodeError>(bytes@),
        decreases count - i,
    {
        match read_field(line, 8 + 2 * i, 2) {
            Err(e) => {
                proof {
                    assert(payload(line@, (i + 1) as nat) == Err::<Seq<u8>, DecodeError>(e));
                    lemma_payload_error(line@, (i + 1) as nat, count as nat);
                }
                return Err(e);
            },
            Ok(value) => {
                proof {
                    reveal_with_fuel(span, 3);
                }
                bytes.push(value as u8);
                i = i + 1;
            },
        }
    }
    Ok(bytes)
}

/// A record as the decoder holds it.
enum Parsed {
    Data { offset: u32, bytes: Vec<u8> },
    End,
    Base { upper: u32 },
    Other,
}

impl View for Parsed {
    type V = Record;

    closed spec fn view(&self) -> Record {
        match *self {
            Parsed::Data { offset, bytes } => Record::Data { offset: offset as nat, bytes: bytes@ },
            Parsed::End => Record::End,
            Parsed::Base { upper } => Record::Base { upper: upper as nat },
            Parsed::Other => Record::Other,
        }
    }
}

fn parse_line(line: &[u8], opened: bool) -> (record: Result<Parsed, DecodeError>)
    ensures
        match record {
            Ok(r) => parse_record(line@, opened) == Ok::<Record, DecodeError>(r@) && (match r {
                Parsed::Data { offset, bytes } => offset < 0x1_0000 && bytes@.len() <= 255,
                Parsed::Base { upper } => upper < 0x1_0000,
                _ => true,
            }),
            Err(e) => parse_record(line@, opened) == Err::<Record, DecodeError>(e),
        },
{
    proof {
        reveal_with_fuel(span, 5);
    }
    let count: u32 = match read_field(line, 0, 2) {
        Err(e) => { return Err(e); },
        Ok(v) => v,
    };
    let offset: u32 = match read_field(line, 2, 4) {
        Err(e) => { return Err(e); },
        Ok(v) => v,
    };
    let kind: u32 = match read_field(line, 6, 2) {
        Err(e) => { return Err(e); },
        Ok(v) => v,
    };
    if kind == DATA_RECORD {
        if opened {
            match read_payload(line, count as usize) {
                Err(e) => Err(e),
                Ok(bytes) => {
                    proof {
                        lemma_payload_len(line@, count as nat);
                    }
                    Ok(Parsed::Data { offset, bytes })
                },
            }
        } else {
            Ok(Parsed::Other)
        }
    } else if kind == END_RECORD {
        Ok(Parsed::End)
    } else if kind == BASE_RECORD {
        match read_field(line, 8, 4) {
            Err(e) => Err(e),
            Ok(upper) => Ok(Parsed::Base { upper }),
        }
    } else {
        Ok(Parsed::Other)
    }
}

/// A payload that can be read has as many bytes as were asked for.
pub proof fn lemma_payload_len(line: Seq<u8>, count: nat)
    ensures
        payload(line, count) matches Ok(bytes) ==> bytes.len() == count,
    decreases count,
{
    if count > 0 {
        lemma_payload_len(line, (count - 1) as nat);
    }
}

/// Reads the line that starts at `from`: what is left of it without
/// colons and spaces, and where the next line starts.
fn read_line(text: &[u8], from: usize) -> (line: (Vec<u8>, usize))
    requires
        from < text@.len(),
    ensures
        line.0@ == squeeze(line_at(text@, from as int)),
        line.1 == line_after(text@, from as int),
        line.1 > from,
        line.1 <= text@.len(),
{
    let len: usize = text.len();
    let mut end: usize = from;
    while end < len && text[end] != LINE_FEED
        invariant
            from <= end <= len,
            len == text@.len(),
            line_end(text@, from as int) == line_end(text@, end as int),
        decreases len - end,
    {
        end = end + 1;
    }
    let stop: usize = if end < len && end > from && text[end - 1] == CARRIAGE_RETURN {
        end - 1
    } else {
        end
    };
    proof {
        let raw = text@.subrange(from as int, end as int);
        assert(end > from ==> raw.last() == text@[end - 1]);
        assert(end > from ==> raw.drop_last() =~= text@.subrange(from as int, end - 1));
        assert(line_at(text@, from as int) =~= text@.subrange(from as int, stop as int));
    }
    let mut out: Vec<u8> = Vec::new();
    let mut i: usize = from;
    proof {
        assert(text@.subrange(from as int, from as int) =~= Seq::<u8>::empty());
    }
    while i < stop
        invariant
            from <= i <= stop <= len,
            len == text@.len(),
            out@ == squeeze(text@.subrange(from as int, i as int)),
        decreases stop - i,
    {
        let byte: u8 = text[i];
        proof {
            let longer = text@.subrange(from as int, i + 1);
            assert(longer.drop_last() =~= text@.subrange(from as int, i as int));
            assert(longer.last() == byte);
        }
        if byte != COLON && byte != SPACE {
            out.push(byte);
        }
        i = i + 1;
    }
    let next: usize = if end < len {
        end + 1
    } else {
        end
    };
    (out, next)
}

/// Brings `data` to `len` bytes, cutting or filling as needed.
fn bring_to(data: &mut Vec<u8>, len: usize)
    ensures
        final(data)@ == resized(old(data)@, len as nat),
{
    if len <= data.len() {
        data.truncate(len);
        assert(data@ =~= resized(old(data)@, len as nat));
    } else {
        let ghost before = data@;
        while data.len() < len
            invariant
                before.len() <= data@.len() <= len,
                data@ == before + Seq::new((data@.len() - before.len()) as nat, |i: int| FILL_BYTE),
            decreases len - data@.len(),
        {
            data.push(FILL_BYTE);
            assert(data@ =~= before + Seq::new(
                (data@.len() - before.len()) as nat,
                |i: int| FILL_BYTE,
            ));
        }
        assert(before + Seq::new(0nat, |i: int| FILL_BYTE) =~= before);
    }
}

/// Decodes Intel-HEX text, given as bytes.
///
/// Succeeds on every text whose lines, up to the end record or the end of
/// the text, are well-formed records; fails with the error of the first
/// line that is not. The last segment of the result is the window that was
/// open when decoding stopped; a text without a base record gives a single
/// empty segment at address zero.
pub fn decode_bytes(text: &[u8]) -> (image: Result<Vec<Bin>, DecodeError>)
    ensures
        match image {
            Ok(bins) => decode(text@) == Ok::<Seq<Segment>, DecodeError>(segments(bins@)),
            Err(e) => decode(text@) == Err::<Seq<Segment>, DecodeError>(e),
        },
{
    let mut closed: Vec<Bin> = Vec::new();
    let mut address: u32 = 0;
    let mut data: Vec<u8> = Vec::new();
    let mut opened: bool = false;
    let mut capped: u32 = 0;
    let ghost mut cursor: nat = 0;
    let mut pos: usize = 0;
    proof {
        assert(segments(closed@) =~= Seq::<Segment>::empty());
    }
    while pos < text.len()
        invariant
            pos <= text@.len(),
            capped <= 0x1_0000,
            capped == if cursor < 0x1_0000 { cursor } else { 0x1_0000nat },
            decode(text@) == decode_from(
                text@,
                pos as int,
                Decoding {
                    closed: segments(closed@),
                    current: Segment { address, data: data@ },
                    opened,
                    cursor,
                },
            ),
        decreases text@.len() - pos,
    {
        let ghost state = Decoding {
            closed: segments(closed@),
            current: Segment { address, data: data@ },
            opened,
            cursor,
        };
        let step: (Vec<u8>, usize) = read_line(text, pos);
        let line: Vec<u8> = step.0;
        match parse_line(line.as_slice(), opened) {
            Err(e) => {
                return Err(e);
            },
            Ok(Parsed::End) => {
                let last: Bin = Bin { address, data };
                closed.push(last);
                assert(segments(closed@) =~= finish(state));
                return Ok(closed);
            },
            Ok(Parsed::Base { upper }) => {
                if opened {
                    let shut: Bin = Bin { address, data };
                    closed.push(shut);
                }
                address = upper * 0x1_0000;
                data = Vec::new();
                opened = true;
                capped = 0;
                proof {
                    cursor = 0;
                    let after = apply(state, Record::Base { upper: upper as nat });
                    assert(segments(closed@) =~= after.closed);
                }
            },
            Ok(Parsed::Data { offset, bytes }) => {
                let mut bytes: Vec<u8> = bytes;
                let ghost added = bytes@;
                if capped < offset {
                    bring_to(&mut data, offset as usize);
                }
                let grown: u32 = capped + bytes.len() as u32;
                data.append(&mut bytes);
                capped = if grown < 0x1_0000 {
                    grown
                } else {
                    0x1_0000
                };
                proof {
                    cursor = cursor + added.len();
                }
            },
            Ok(Parsed::Other) => {},
        }
        pos = step.1;
    }
    let ghost state = Decoding {
        closed: segments(closed@),
        current: Segment { address, data: data@ },
        opened,
        cursor,
    };
    let last: Bin = Bin { address, data };
    closed.push(last);
    assert(segments(closed@) =~= finish(state));
    Ok(closed)
}

/// Decodes Intel-HEX text; see [`decode_bytes`].
pub fn hex_to_bin(hex: &str) -> (image: Result<Vec<Bin>, DecodeError>)
    ensures
        match image {
            Ok(bins) => decode(hex.spec_bytes()) == Ok::<Seq<Segment>, DecodeError>(
                segments(bins@),
            ),
            Err(e) => decode(hex.spec_bytes()) == Err::<Seq<Segment>, DecodeError>(e),
        },
{
    decode_bytes(hex.as_bytes())
}

} // verus!
