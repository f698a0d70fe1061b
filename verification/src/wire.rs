//! The encoding that the records are written in: the wire format of
//! Protocol Buffers, without groups.
//!
//! A record is a sequence of fields. A field begins with a tag, which holds
//! the field's number and the wire type of its value:
//! `8 * number + wire type`. The value is a number (`WIRE_VARINT`), eight
//! bytes (`WIRE_FIXED64`), a count followed by that many bytes
//! (`WIRE_LEN`), or four bytes (`WIRE_FIXED32`). Tags, numbers and counts
//! are written as varints: seven bits to a byte, the low bits first, and
//! the high bit of each byte but the last set.
//!
//! The reader takes a number in however many bytes it is written, as long
//! as a `u64` holds it. The writer uses no more bytes than are needed.

use vstd::prelude::*;
use vstd::slice::{slice_subrange, slice_to_vec};

verus! {

/// The wire type of a number.
pub const WIRE_VARINT: u64 = 0;

/// The wire type of eight bytes.
pub const WIRE_FIXED64: u64 = 1;

/// The wire type of a count and that many bytes.
pub const WIRE_LEN: u64 = 2;

/// The wire type of four bytes.
pub const WIRE_FIXED32: u64 = 5;

/// The largest field number whose tag fits.
pub const MAX_FIELD_NUMBER: u64 = 0x1fff_ffff_ffff_ffff;

/// The bytes that the number `v` is written in.
pub open spec fn varint(v: nat) -> Seq<u8>
    decreases v,
{
    if v < 128 {
        seq![v as u8]
    } else {
        seq![(v % 128 + 128) as u8] + varint(v / 128)
    }
}

/// The number written at the front of `bytes`, and how many bytes it is
/// written in; nothing where `bytes` ends before the number does.
pub open spec fn varint_at(bytes: Seq<u8>) -> Option<(nat, nat)>
    decreases bytes.len(),
{
    if bytes.len() == 0 {
        None
    } else if bytes[0] < 128 {
        Some((bytes[0] as nat, 1nat))
    } else {
        match varint_at(bytes.drop_first()) {
            Some((v, n)) => Some(((bytes[0] - 128 + 128 * v) as nat, n + 1)),
            None => None,
        }
    }
}

/// The number written at the front of `bytes`, where it is one that a `u64` holds.
pub open spec fn take_varint(bytes: Seq<u8>) -> Option<(u64, nat)> {
    match varint_at(bytes) {
        Some((v, n)) => if v <= u64::MAX {
            Some((v as u64, n))
        } else {
            None
        },
        None => None,
    }
}

/// A number is read back as it was written, whatever follows it.
pub proof fn lemma_varint_round_trip(v: nat, rest: Seq<u8>)
    ensures
        varint_at(varint(v) + rest) == Some((v, varint(v).len())),
        varint(v).len() >= 1,
    decreases v,
{
    if v >= 128 {
        assert((varint(v) + rest).drop_first() =~= varint(v / 128) + rest);
        lemma_varint_round_trip(v / 128, rest);
    }
}

/// Bytes with the high bit set in front of a varint make a longer varint
/// of a number that is no smaller.
proof fn lemma_varint_continued(bytes: Seq<u8>, from: int, to: int)
    requires
        0 <= from <= to <= bytes.len(),
        forall|j: int| from <= j < to ==> bytes[j] >= 128,
    ensures
        match varint_at(bytes.skip(to)) {
            Some((v, n)) => varint_at(bytes.skip(from)) matches Some((w, m)) && w >= v && m == n
                + (to - from),
            None => varint_at(bytes.skip(from)) is None,
        },
    decreases to - from,
{
    if from < to {
        lemma_varint_continued(bytes, from + 1, to);
        assert(bytes.skip(from).drop_first() =~= bytes.skip(from + 1));
    }
}

/// Writes `v` behind what `out` holds.
pub fn write_varint(out: &mut Vec<u8>, v: u64)
    ensures
        final(out)@ == old(out)@ + varint(v as nat),
{
    let mut rest: u64 = v;
    while rest >= 128
        invariant
            out@ + varint(rest as nat) == old(out)@ + varint(v as nat),
        decreases rest,
    {
        out.push((rest % 128 + 128) as u8);
        rest = rest / 128;
    }
    out.push(rest as u8);
}

/// Reads the number written at the front of `bytes`, and says how many
/// bytes it is written in.
pub fn read_varint(bytes: &[u8]) -> (r: Option<(u64, usize)>)
    ensures
        match r {
            Some((v, n)) => 0 < n <= bytes@.len() && take_varint(bytes@) == Some((v, n as nat)),
            None => take_varint(bytes@) is None,
        },
{
    assert(bytes@.skip(0) =~= bytes@);
    varint_from(bytes, 0)
}

/// Reads the number written in `bytes` from `pos` on, and says where the
/// bytes behind it begin.
fn varint_from(bytes: &[u8], pos: usize) -> (r: Option<(u64, usize)>)
    requires
        pos <= bytes@.len(),
    ensures
        match r {
            Some((v, next)) => pos < next <= bytes@.len() && take_varint(bytes@.skip(pos as int))
                == Some((v, (next - pos) as nat)),
            None => take_varint(bytes@.skip(pos as int)) is None,
        },
{
    let mut end: usize = pos;
    while end < bytes.len() && bytes[end] >= 128
        invariant
            pos <= end <= bytes@.len(),
            forall|j: int| pos <= j < end ==> bytes@[j] >= 128,
        decreases bytes@.len() - end,
    {
        end += 1;
    }
    if end == bytes.len() {
        proof {
            lemma_varint_continued(bytes@, pos as int, end as int);
        }
        return None;
    }
    let mut acc: u64 = bytes[end] as u64;
    let mut k: usize = end;
    while k > pos
        invariant
            pos <= k <= end < bytes@.len(),
            forall|j: int| pos <= j < end ==> bytes@[j] >= 128,
            varint_at(bytes@.skip(k as int)) == Some((acc as nat, (end - k + 1) as nat)),
        decreases k - pos,
    {
        let digit: u64 = (bytes[k - 1] - 128) as u64;
        proof {
            assert(bytes@.skip(k - 1).drop_first() =~= bytes@.skip(k as int));
        }
        if acc > (u64::MAX - digit) / 128 {
            proof {
                lemma_varint_continued(bytes@, pos as int, k - 1);
            }
            return None;
        }
        acc = digit + 128 * acc;
        k -= 1;
    }
    Some((acc, end + 1))
}

/// What a field holds.
pub enum WireValue {
    Varint(u64),
    Fixed64,
    Len(Seq<u8>),
    Fixed32,
}

/// A field as it is read: its number and what it holds. Of the values of
/// eight and of four bytes only the wire type is kept.
pub struct WireField {
    pub number: u64,
    pub value: WireValue,
}

/// The field written at the front of `bytes`, and how many bytes it is
/// written in; nothing where `bytes` does not begin with a whole field.
pub open spec fn field_at(bytes: Seq<u8>) -> Option<(WireField, nat)> {
    match take_varint(bytes) {
        None => None,
        Some((tag, n)) => {
            let rest = bytes.skip(n as int);
            let number = tag / 8;
            let wire_type = tag % 8;
            if wire_type == WIRE_VARINT {
                match take_varint(rest) {
                    Some((v, m)) => Some((WireField { number, value: WireValue::Varint(v) }, n + m)),
                    None => None,
                }
            } else if wire_type == WIRE_FIXED64 {
                if rest.len() >= 8 {
                    Some((WireField { number, value: WireValue::Fixed64 }, n + 8))
                } else {
                    None
                }
            } else if wire_type == WIRE_LEN {
                match take_varint(rest) {
                    Some((len, m)) => if m + len <= rest.len() {
                        Some(
                            (
                                WireField {
                                    number,
                                    value: WireValue::Len(rest.subrange(m as int, m + len)),
                                },
                                n + m + len as nat,
                            ),
                        )
                    } else {
                        None
                    },
                    None => None,
                }
            } else if wire_type == WIRE_FIXED32 {
                if rest.len() >= 4 {
                    Some((WireField { number, value: WireValue::Fixed32 }, n + 4))
                } else {
                    None
                }
            } else {
                None
            }
        },
    }
}

/// The fields that `bytes` are made of, in their order; nothing where
/// `bytes` are not a sequence of whole fields.
pub open spec fn fields_of(bytes: Seq<u8>) -> Option<Seq<WireField>>
    decreases bytes.len(),
{
    if bytes.len() == 0 {
        Some(Seq::empty())
    } else {
        match field_at(bytes) {
            Some((field, n)) => if 0 < n <= bytes.len() {
                match fields_of(bytes.skip(n as int)) {
                    Some(fields) => Some(seq![field] + fields),
                    None => None,
                }
            } else {
                None
            },
            None => None,
        }
    }
}

/// The number in the last field numbered `number` that holds a number.
pub open spec fn last_varint(fields: Seq<WireField>, number: u64) -> Option<u64>
    decreases fields.len(),
{
    if fields.len() == 0 {
        None
    } else {
        match fields.last().value {
            WireValue::Varint(v) => if fields.last().number == number {
                Some(v)
            } else {
                last_varint(fields.drop_last(), number)
            },
            _ => last_varint(fields.drop_last(), number),
        }
    }
}

/// The bytes in the last field numbered `number` that holds counted bytes.
pub open spec fn last_len(fields: Seq<WireField>, number: u64) -> Option<Seq<u8>>
    decreases fields.len(),
{
    if fields.len() == 0 {
        None
    } else {
        match fields.last().value {
            WireValue::Len(bytes) => if fields.last().number == number {
                Some(bytes)
            } else {
                last_len(fields.drop_last(), number)
            },
            _ => last_len(fields.drop_last(), number),
        }
    }
}

/// The bytes of a field that holds the number `v`.
pub open spec fn varint_field(number: u64, v: u64) -> Seq<u8> {
    varint((number * 8 + WIRE_VARINT) as nat) + varint(v as nat)
}

/// The bytes of a field that holds the bytes `payload`.
pub open spec fn len_field(number: u64, payload: Seq<u8>) -> Seq<u8> {
    varint((number * 8 + WIRE_LEN) as nat) + varint(payload.len()) + payload
}

/// A field that holds a number is read back as it was written, whatever follows it.
pub proof fn lemma_varint_field_round_trip(number: u64, v: u64, rest: Seq<u8>)
    requires
        number <= MAX_FIELD_NUMBER,
    ensures
        field_at(varint_field(number, v) + rest) == Some(
            (WireField { number, value: WireValue::Varint(v) }, varint_field(number, v).len()),
        ),
        varint_field(number, v).len() >= 2,
{
    let tag = (number * 8 + WIRE_VARINT) as nat;
    let bytes = varint_field(number, v) + rest;
    assert(bytes =~= varint(tag) + (varint(v as nat) + rest));
    lemma_varint_round_trip(tag, varint(v as nat) + rest);
    let n = varint(tag).len();
    assert(bytes.skip(n as int) =~= varint(v as nat) + rest);
    lemma_varint_round_trip(v as nat, rest);
}

/// A field that holds bytes is read back as it was written, whatever follows it.
pub proof fn lemma_len_field_round_trip(number: u64, payload: Seq<u8>, rest: Seq<u8>)
    requires
        number <= MAX_FIELD_NUMBER,
        payload.len() <= u64::MAX,
    ensures
        field_at(len_field(number, payload) + rest) == Some(
            (WireField { number, value: WireValue::Len(payload) }, len_field(number, payload).len()),
        ),
        len_field(number, payload).len() >= 2 + payload.len(),
{
    let tag = (number * 8 + WIRE_LEN) as nat;
    let bytes = len_field(number, payload) + rest;
    assert(bytes =~= varint(tag) + (varint(payload.len()) + payload + rest));
    lemma_varint_round_trip(tag, varint(payload.len()) + payload + rest);
    let n = varint(tag).len();
    let after_tag = bytes.skip(n as int);
    assert(after_tag =~= varint(payload.len()) + (payload + rest));
    lemma_varint_round_trip(payload.len(), payload + rest);
    let m = varint(payload.len()).len();
    assert(after_tag.subrange(m as int, (m + payload.len()) as int) =~= payload);
}

/// A field in front of a sequence of whole fields makes a sequence of whole fields.
pub proof fn lemma_fields_prepend(field: WireField, first: Seq<u8>, rest: Seq<u8>)
    requires
        field_at(first + rest) == Some((field, first.len())),
        first.len() > 0,
        fields_of(rest) is Some,
    ensures
        fields_of(first + rest) == Some(seq![field] + fields_of(rest)->0),
{
    assert((first + rest).skip(first.len() as int) =~= rest);
}

/// The last field counts: what `last_varint` finds after one more field.
pub proof fn lemma_last_varint_push(fields: Seq<WireField>, field: WireField, number: u64)
    ensures
        last_varint(fields.push(field), number) == match field.value {
            WireValue::Varint(v) => if field.number == number {
                Some(v)
            } else {
                last_varint(fields, number)
            },
            _ => last_varint(fields, number),
        },
{
    assert(fields.push(field).drop_last() =~= fields);
}

/// The last field counts: what `last_len` finds after one more field.
pub proof fn lemma_last_len_push(fields: Seq<WireField>, field: WireField, number: u64)
    ensures
        last_len(fields.push(field), number) == match field.value {
            WireValue::Len(bytes) => if field.number == number {
                Some(bytes)
            } else {
                last_len(fields, number)
            },
            _ => last_len(fields, number),
        },
{
    assert(fields.push(field).drop_last() =~= fields);
}

/// What a field that was read holds.
#[derive(Debug, PartialEq)]
pub enum Value {
    Varint(u64),
    Fixed64,
    Len(Vec<u8>),
    Fixed32,
}

/// A field that was read.
#[derive(Debug, PartialEq)]
pub struct Field {
    pub number: u64,
    pub value: Value,
}

impl View for Field {
    type V = WireField;

    open spec fn view(&self) -> WireField {
        WireField {
            number: self.number,
            value: match self.value {
                Value::Varint(v) => WireValue::Varint(v),
                Value::Fixed64 => WireValue::Fixed64,
                Value::Len(bytes) => WireValue::Len(bytes@),
                Value::Fixed32 => WireValue::Fixed32,
            },
        }
    }
}

/// What a sequence of fields that were read stands for.
pub open spec fn fields_view(fields: Seq<Field>) -> Seq<WireField> {
    fields.map_values(|f: Field| f@)
}

/// Writes a field that holds the number `v` behind what `out` holds.
pub fn write_varint_field(out: &mut Vec<u8>, number: u64, v: u64)
    requires
        number <= MAX_FIELD_NUMBER,
    ensures
        final(out)@ == old(out)@ + varint_field(number, v),
{
    write_varint(out, number * 8 + WIRE_VARINT);
    write_varint(out, v);
}

/// Writes a field that holds the bytes `payload` behind what `out` holds.
pub fn write_len_field(out: &mut Vec<u8>, number: u64, payload: &[u8])
    requires
        number <= MAX_FIELD_NUMBER,
    ensures
        final(out)@ == old(out)@ + len_field(number, payload@),
{
    write_varint(out, number * 8 + WIRE_LEN);
    write_varint(out, payload.len() as u64);
    out.extend_from_slice(payload);
}

/// Reads the field written at the front of `bytes`, and says how many
/// bytes it is written in.
pub fn read_field(bytes: &[u8]) -> (r: Option<(Field, usize)>)
    ensures
        match r {
            Some((field, n)) => 0 < n <= bytes@.len() && field_at(bytes@) == Some(
                (field@, n as nat),
            ),
            None => field_at(bytes@) is None,
        },
{
    assert(bytes@.skip(0) =~= bytes@);
    field_from(bytes, 0)
}

/// Reads the field written in `bytes` from `pos` on, and says where the
/// bytes behind it begin.
fn field_from(bytes: &[u8], pos: usize) -> (r: Option<(Field, usize)>)
    requires
        pos <= bytes@.len(),
    ensures
        match r {
            Some((field, next)) => pos < next <= bytes@.len() && field_at(
                bytes@.skip(pos as int),
            ) == Some((field@, (next - pos) as nat)),
            None => field_at(bytes@.skip(pos as int)) is None,
        },
{
    let (tag, at) = match varint_from(bytes, pos) {
        Some(read) => read,
        None => {
            return None;
        },
    };
    let ghost rest = bytes@.skip(at as int);
    assert(rest =~= bytes@.skip(pos as int).skip(at - pos));
    let number = tag / 8;
    let wire_type = tag % 8;
    if wire_type == WIRE_VARINT {
        match varint_from(bytes, at) {
            Some((v, next)) => Some((Field { number, value: Value::Varint(v) }, next)),
            None => None,
        }
    } else if wire_type == WIRE_FIXED64 {
        if bytes.len() - at >= 8 {
            Some((Field { number, value: Value::Fixed64 }, at + 8))
        } else {
            None
        }
    } else if wire_type == WIRE_LEN {
        match varint_from(bytes, at) {
            Some((len, start)) => {
                if len <= (bytes.len() - start) as u64 {
                    let end = start + len as usize;
                    let payload = slice_to_vec(slice_subrange(bytes, start, end));
                    assert(payload@ =~= rest.subrange(start - at, start - at + len));
                    Some((Field { number, value: Value::Len(payload) }, end))
                } else {
                    None
                }
            },
            None => None,
        }
    } else if wire_type == WIRE_FIXED32 {
        if bytes.len() - at >= 4 {
            Some((Field { number, value: Value::Fixed32 }, at + 4))
        } else {
            None
        }
    } else {
        None
    }
}

/// Reads the fields that `bytes` are made of.
pub fn read_fields(bytes: &[u8]) -> (r: Option<Vec<Field>>)
    ensures
        match r {
            Some(fields) => fields_of(bytes@) == Some(fields_view(fields@)),
            None => fields_of(bytes@) is None,
        },
{
    let mut fields: Vec<Field> = Vec::new();
    let mut pos: usize = 0;
    assert(bytes@.skip(0) =~= bytes@);
    while pos < bytes.len()
        invariant
            pos <= bytes@.len(),
            fields_of(bytes@) == match fields_of(bytes@.skip(pos as int)) {
                Some(rest) => Some(fields_view(fields@) + rest),
                None => None,
            },
        decreases bytes@.len() - pos,
    {
        match field_from(bytes, pos) {
            Some((field, next)) => {
                assert(bytes@.skip(pos as int).skip(next - pos) =~= bytes@.skip(next as int));
                fields.push(field);
                pos = next;
            },
            None => {
                return None;
            },
        }
    }
    Some(fields)
}

/// The number in the last of `fields` that is numbered `number` and holds a number.
pub fn find_varint(fields: &Vec<Field>, number: u64) -> (r: Option<u64>)
    ensures
        r == last_varint(fields_view(fields@), number),
{
    let mut found: Option<u64> = None;
    let mut i: usize = 0;
    while i < fields.len()
        invariant
            i <= fields@.len(),
            found == last_varint(fields_view(fields@).take(i as int), number),
        decreases fields@.len() - i,
    {
        proof {
            let all = fields_view(fields@);
            assert(all.take(i + 1).drop_last() =~= all.take(i as int));
        }
        if fields[i].number == number {
            match &fields[i].value {
                Value::Varint(v) => {
                    found = Some(*v);
                },
                _ => {},
            }
        }
        i += 1;
    }
    assert(fields_view(fields@).take(fields@.len() as int) =~= fields_view(fields@));
    found
}

/// The bytes in the last of `fields` that is numbered `number` and holds counted bytes.
pub fn find_len(fields: &Vec<Field>, number: u64) -> (r: Option<&Vec<u8>>)
    ensures
        match r {
            Some(bytes) => last_len(fields_view(fields@), number) == Some(bytes@),
            None => last_len(fields_view(fields@), number) is None,
        },
{
    let mut found: Option<&Vec<u8>> = None;
    let mut i: usize = 0;
    while i < fields.len()
        invariant
            i <= fields@.len(),
            match found {
                Some(bytes) => last_len(fields_view(fields@).take(i as int), number) == Some(
                    bytes@,
                ),
                None => last_len(fields_view(fields@).take(i as int), number) is None,
            },
        decreases fields@.len() - i,
    {
        proof {
            let all = fields_view(fields@);
            assert(all.take(i + 1).drop_last() =~= all.take(i as int));
        }
        if fields[i].number == number {
            match &fields[i].value {
                Value::Len(bytes) => {
                    found = Some(bytes);
                },
                _ => {},
            }
        }
        i += 1;
    }
    assert(fields_view(fields@).take(fields@.len() as int) =~= fields_view(fields@));
    found
}

} // verus!
