//! How the records are written in bytes, and read from them.
//!
//! Each record is a sequence of fields in the encoding of `wire`. A field
//! whose number or kind a reader does not know is passed over. Where a
//! field occurs more than once, the last one counts.
//!
//! A member is written as its identifier (field 1, UTF-8 text), its
//! incarnation (field 2, a number), its address (field 3, UTF-8 text) and
//! whether it is persistent (field 4, 0 or 1). A ping and an
//! acknowledgement are written as the sender (field 1, a member) and, where
//! there is one, the member to forward to (field 2). A request to ping is
//! written as the sender (field 1) and the target (field 2). A datagram
//! holds the kind of the record (field 1: 1 for a ping, 2 for an
//! acknowledgement, 3 for a request to ping) and the record, in field 2, 3
//! or 4 by its kind.

use crate::member::{Member, MemberView};
use crate::message::{
    opt_view, Ack, AckView, Ping, PingReq, PingReqView, PingView, Swim, SwimView,
};
use crate::wire::{
    fields_of, fields_view, find_len, find_varint, last_len, last_varint, lemma_fields_prepend,
    lemma_last_len_push, lemma_last_varint_push, lemma_len_field_round_trip,
    lemma_varint_field_round_trip, len_field, read_fields, varint_field, write_len_field,
    write_varint_field, Field, WireField, WireValue,
};
use vstd::prelude::*;
use vstd::utf8::{decode_utf8, encode_utf8, valid_utf8};

verus! {

pub const MEMBER_ID: u64 = 1;

pub const MEMBER_INCARNATION: u64 = 2;

pub const MEMBER_ADDRESS: u64 = 3;

pub const MEMBER_PERSISTENT: u64 = 4;

pub const FROM: u64 = 1;

pub const FORWARD_TO: u64 = 2;

pub const TARGET: u64 = 2;

pub const SWIM_TYPE: u64 = 1;

pub const SWIM_PING: u64 = 2;

pub const SWIM_ACK: u64 = 3;

pub const SWIM_PINGREQ: u64 = 4;

pub const TYPE_PING: u64 = 1;

pub const TYPE_ACK: u64 = 2;

pub const TYPE_PINGREQ: u64 = 3;

/// The longest datagram that is sent: what the buffer of a receiver holds.
pub const MAX_DATAGRAM_LEN: usize = 1024;

/// Why bytes are not a record.
#[derive(Clone, Copy, Debug, PartialEq, Eq, Structural)]
pub enum DecodeError {
    /// The bytes, or those of a record within them, are not a sequence of whole fields.
    Malformed,
    /// A field that a record must have is not there.
    MissingField,
    /// The kind of the record is none that is known.
    UnknownType,
    /// An identifier or an address is not UTF-8 text.
    InvalidText,
}

/// The bytes that a member is written in.
pub open spec fn member_bytes(m: MemberView) -> Seq<u8> {
    len_field(MEMBER_ID, encode_utf8(m.id)) + varint_field(MEMBER_INCARNATION, m.incarnation)
        + len_field(MEMBER_ADDRESS, encode_utf8(m.address)) + varint_field(
        MEMBER_PERSISTENT,
        if m.persistent {
            1
        } else {
            0
        },
    )
}

/// The bytes that a sender and, where there is one, a second member are written in.
pub open spec fn pair_bytes(from: MemberView, second: Option<MemberView>) -> Seq<u8> {
    len_field(FROM, member_bytes(from)) + match second {
        Some(m) => len_field(FORWARD_TO, member_bytes(m)),
        None => Seq::empty(),
    }
}

/// The bytes that a ping is written in.
pub open spec fn ping_bytes(p: PingView) -> Seq<u8> {
    pair_bytes(p.from, p.forward_to)
}

/// The bytes that an acknowledgement is written in.
pub open spec fn ack_bytes(a: AckView) -> Seq<u8> {
    pair_bytes(a.from, a.forward_to)
}

/// The bytes that a request to ping is written in.
pub open spec fn pingreq_bytes(r: PingReqView) -> Seq<u8> {
    pair_bytes(r.from, Some(r.target))
}

/// The bytes of the datagram that carries `msg`.
pub open spec fn swim_bytes(msg: SwimView) -> Seq<u8> {
    match msg {
        SwimView::Ping(p) => varint_field(SWIM_TYPE, TYPE_PING) + len_field(SWIM_PING, ping_bytes(p)),
        SwimView::Ack(a) => varint_field(SWIM_TYPE, TYPE_ACK) + len_field(SWIM_ACK, ack_bytes(a)),
        SwimView::PingReq(r) => varint_field(SWIM_TYPE, TYPE_PINGREQ) + len_field(
            SWIM_PINGREQ,
            pingreq_bytes(r),
        ),
    }
}

/// The text in the field `number`: empty where there is no such field.
pub open spec fn text_of(fields: Seq<WireField>, number: u64) -> Result<Seq<char>, DecodeError> {
    match last_len(fields, number) {
        None => Ok(Seq::empty()),
        Some(bytes) => if valid_utf8(bytes) {
            Ok(decode_utf8(bytes))
        } else {
            Err(DecodeError::InvalidText)
        },
    }
}

/// The member that `bytes` are read as.
pub open spec fn member_of(bytes: Seq<u8>) -> Result<MemberView, DecodeError> {
    match fields_of(bytes) {
        None => Err(DecodeError::Malformed),
        Some(fields) => match text_of(fields, MEMBER_ID) {
            Err(e) => Err(e),
            Ok(id) => match text_of(fields, MEMBER_ADDRESS) {
                Err(e) => Err(e),
                Ok(address) => Ok(
                    MemberView {
                        id,
                        address,
                        incarnation: match last_varint(fields, MEMBER_INCARNATION) {
                            Some(v) => v,
                            None => 0,
                        },
                        persistent: match last_varint(fields, MEMBER_PERSISTENT) {
                            Some(v) => v != 0,
                            None => false,
                        },
                    },
                ),
            },
        },
    }
}

/// The member in the field `number`, which must be there.
pub open spec fn member_in(fields: Seq<WireField>, number: u64) -> Result<
    MemberView,
    DecodeError,
> {
    match last_len(fields, number) {
        None => Err(DecodeError::MissingField),
        Some(bytes) => member_of(bytes),
    }
}

/// The member in the field `number`, where there is such a field.
pub open spec fn opt_member_in(fields: Seq<WireField>, number: u64) -> Result<
    Option<MemberView>,
    DecodeError,
> {
    match last_len(fields, number) {
        None => Ok(None),
        Some(bytes) => match member_of(bytes) {
            Ok(m) => Ok(Some(m)),
            Err(e) => Err(e),
        },
    }
}

/// The ping that `bytes` are read as.
pub open spec fn ping_of(bytes: Seq<u8>) -> Result<PingView, DecodeError> {
    match fields_of(bytes) {
        None => Err(DecodeError::Malformed),
        Some(fields) => match member_in(fields, FROM) {
            Err(e) => Err(e),
            Ok(from) => match opt_member_in(fields, FORWARD_TO) {
                Err(e) => Err(e),
                Ok(forward_to) => Ok(PingView { from, forward_to }),
            },
        },
    }
}

/// The acknowledgement that `bytes` are read as.
pub open spec fn ack_of(bytes: Seq<u8>) -> Result<AckView, DecodeError> {
    match fields_of(bytes) {
        None => Err(DecodeError::Malformed),
        Some(fields) => match member_in(fields, FROM) {
            Err(e) => Err(e),
            Ok(from) => match opt_member_in(fields, FORWARD_TO) {
                Err(e) => Err(e),
                Ok(forward_to) => Ok(AckView { from, forward_to }),
            },
        },
    }
}

/// The request to ping that `bytes` are read as.
pub open spec fn pingreq_of(bytes: Seq<u8>) -> Result<PingReqView, DecodeError> {
    match fields_of(bytes) {
        None => Err(DecodeError::Malformed),
        Some(fields) => match member_in(fields, FROM) {
            Err(e) => Err(e),
            Ok(from) => match member_in(fields, TARGET) {
                Err(e) => Err(e),
                Ok(target) => Ok(PingReqView { from, target }),
            },
        },
    }
}

/// The record that the datagram `bytes` is read as.
pub open spec fn swim_of(bytes: Seq<u8>) -> Result<SwimView, DecodeError> {
    match fields_of(bytes) {
        None => Err(DecodeError::Malformed),
        Some(fields) => match last_varint(fields, SWIM_TYPE) {
            None => Err(DecodeError::MissingField),
            Some(kind) => if kind == TYPE_PING {
                match last_len(fields, SWIM_PING) {
                    None => Err(DecodeError::MissingField),
                    Some(payload) => match ping_of(payload) {
                        Ok(p) => Ok(SwimView::Ping(p)),
                        Err(e) => Err(e),
                    },
                }
            } else if kind == TYPE_ACK {
                match last_len(fields, SWIM_ACK) {
                    None => Err(DecodeError::MissingField),
                    Some(payload) => match ack_of(payload) {
                        Ok(a) => Ok(SwimView::Ack(a)),
                        Err(e) => Err(e),
                    },
                }
            } else if kind == TYPE_PINGREQ {
                match last_len(fields, SWIM_PINGREQ) {
                    None => Err(DecodeError::MissingField),
                    Some(payload) => match pingreq_of(payload) {
                        Ok(r) => Ok(SwimView::PingReq(r)),
                        Err(e) => Err(e),
                    },
                }
            } else {
                Err(DecodeError::UnknownType)
            },
        },
    }
}

/// Reads `bytes` as text with `std::str::from_utf8`, which turns bytes into
/// a string slice where they are UTF-8 and refuses them where they are not.
/// The string slice is made of the bytes it was given.
#[verifier::external_body]
fn str_from_utf8(bytes: &[u8]) -> (r: Option<&str>)
    ensures
        match r {
            Some(s) => encode_utf8(s@) == bytes@,
            None => !valid_utf8(bytes@),
        },
{
    std::str::from_utf8(bytes).ok()
}

/// Writes `m` behind what `out` holds.
fn write_member(out: &mut Vec<u8>, m: &Member)
    ensures
        final(out)@ == old(out)@ + member_bytes(m@),
{
    write_len_field(out, MEMBER_ID, m.id.as_str().as_bytes());
    write_varint_field(out, MEMBER_INCARNATION, m.incarnation);
    write_len_field(out, MEMBER_ADDRESS, m.address.as_str().as_bytes());
    write_varint_field(
        out,
        MEMBER_PERSISTENT,
        if m.persistent {
            1
        } else {
            0
        },
    );
}

/// Writes `m` as the field `number` behind what `out` holds.
fn write_member_field(out: &mut Vec<u8>, number: u64, m: &Member)
    requires
        number <= 4,
    ensures
        final(out)@ == old(out)@ + len_field(number, member_bytes(m@)),
{
    let mut inner: Vec<u8> = Vec::new();
    write_member(&mut inner, m);
    write_len_field(out, number, inner.as_slice());
}

/// Writes a sender and, where there is one, a second member.
fn write_pair(out: &mut Vec<u8>, from: &Member, second: &Option<Member>)
    ensures
        final(out)@ == old(out)@ + pair_bytes(from@, opt_view(*second)),
{
    write_member_field(out, FROM, from);
    match second {
        Some(m) => {
            write_member_field(out, FORWARD_TO, m);
        },
        None => {},
    }
}

/// The bytes of the datagram that carries `msg`, however long.
pub fn swim_to_bytes(msg: &Swim) -> (bytes: Vec<u8>)
    ensures
        bytes@ == swim_bytes(msg@),
{
    let mut inner: Vec<u8> = Vec::new();
    let mut out: Vec<u8> = Vec::new();
    match msg {
        Swim::Ping(p) => {
            write_pair(&mut inner, &p.from, &p.forward_to);
            write_varint_field(&mut out, SWIM_TYPE, TYPE_PING);
            write_len_field(&mut out, SWIM_PING, inner.as_slice());
        },
        Swim::Ack(a) => {
            write_pair(&mut inner, &a.from, &a.forward_to);
            write_varint_field(&mut out, SWIM_TYPE, TYPE_ACK);
            write_len_field(&mut out, SWIM_ACK, inner.as_slice());
        },
        Swim::PingReq(r) => {
            write_member_field(&mut inner, FROM, &r.from);
            write_member_field(&mut inner, TARGET, &r.target);
            write_varint_field(&mut out, SWIM_TYPE, TYPE_PINGREQ);
            write_len_field(&mut out, SWIM_PINGREQ, inner.as_slice());
        },
    }
    out
}

/// The bytes of the datagram that carries `msg`, where they are no more
/// than a receiver's buffer holds; nothing where they are more.
pub fn encode(msg: &Swim) -> (datagram: Option<Vec<u8>>)
    ensures
        datagram is Some <==> swim_bytes(msg@).len() <= MAX_DATAGRAM_LEN,
        datagram matches Some(bytes) ==> bytes@ == swim_bytes(msg@),
{
    let bytes = swim_to_bytes(msg);
    if bytes.len() <= MAX_DATAGRAM_LEN {
        Some(bytes)
    } else {
        None
    }
}

/// The text in the field `number` of `fields`.
fn read_text(fields: &Vec<Field>, number: u64) -> (r: Result<String, DecodeError>)
    ensures
        match r {
            Ok(s) => text_of(fields_view(fields@), number) == Ok::<Seq<char>, DecodeError>(s@),
            Err(e) => text_of(fields_view(fields@), number) == Err::<Seq<char>, DecodeError>(e),
        },
{
    match find_len(fields, number) {
        None => Ok(String::new()),
        Some(bytes) => match str_from_utf8(bytes.as_slice()) {
            Some(s) => {
                proof {
                    vstd::utf8::encode_utf8_valid_utf8(s@);
                    vstd::utf8::encode_utf8_decode_utf8(s@);
                }
                Ok(s.to_owned())
            },
            None => Err(DecodeError::InvalidText),
        },
    }
}

/// Reads `bytes` as a member.
fn read_member(bytes: &[u8]) -> (r: Result<Member, DecodeError>)
    ensures
        match r {
            Ok(m) => member_of(bytes@) == Ok::<MemberView, DecodeError>(m@),
            Err(e) => member_of(bytes@) == Err::<MemberView, DecodeError>(e),
        },
{
    let fields = match read_fields(bytes) {
        Some(fields) => fields,
        None => {
            return Err(DecodeError::Malformed);
        },
    };
    let id = match read_text(&fields, MEMBER_ID) {
        Ok(id) => id,
        Err(e) => {
            return Err(e);
        },
    };
    let address = match read_text(&fields, MEMBER_ADDRESS) {
        Ok(address) => address,
        Err(e) => {
            return Err(e);
        },
    };
    let incarnation = match find_varint(&fields, MEMBER_INCARNATION) {
        Some(v) => v,
        None => 0,
    };
    let persistent = match find_varint(&fields, MEMBER_PERSISTENT) {
        Some(v) => v != 0,
        None => false,
    };
    Ok(Member { id, address, incarnation, persistent })
}

/// Reads the member in the field `number` of `fields`, which must be there.
fn read_member_in(fields: &Vec<Field>, number: u64) -> (r: Result<Member, DecodeError>)
    ensures
        match r {
            Ok(m) => member_in(fields_view(fields@), number) == Ok::<MemberView, DecodeError>(m@),
            Err(e) => member_in(fields_view(fields@), number) == Err::<MemberView, DecodeError>(
                e,
            ),
        },
{
    match find_len(fields, number) {
        None => Err(DecodeError::MissingField),
        Some(bytes) => read_member(bytes.as_slice()),
    }
}

/// Reads the member in the field `number` of `fields`, where there is such a field.
fn read_opt_member_in(fields: &Vec<Field>, number: u64) -> (r: Result<
    Option<Member>,
    DecodeError,
>)
    ensures
        match r {
            Ok(m) => opt_member_in(fields_view(fields@), number) == Ok::<
                Option<MemberView>,
                DecodeError,
            >(opt_view(m)),
            Err(e) => opt_member_in(fields_view(fields@), number) == Err::<
                Option<MemberView>,
                DecodeError,
            >(e),
        },
{
    match find_len(fields, number) {
        None => Ok(None),
        Some(bytes) => match read_member(bytes.as_slice()) {
            Ok(m) => Ok(Some(m)),
            Err(e) => Err(e),
        },
    }
}

/// Reads `bytes` as a ping.
fn read_ping(bytes: &[u8]) -> (r: Result<Ping, DecodeError>)
    ensures
        match r {
            Ok(p) => ping_of(bytes@) == Ok::<PingView, DecodeError>(p@),
            Err(e) => ping_of(bytes@) == Err::<PingView, DecodeError>(e),
        },
{
    let fields = match read_fields(bytes) {
        Some(fields) => fields,
        None => {
            return Err(DecodeError::Malformed);
        },
    };
    let from = match read_member_in(&fields, FROM) {
        Ok(from) => from,
        Err(e) => {
            return Err(e);
        },
    };
    match read_opt_member_in(&fields, FORWARD_TO) {
        Ok(forward_to) => Ok(Ping { from, forward_to }),
        Err(e) => Err(e),
    }
}

/// Reads `bytes` as an acknowledgement.
fn read_ack(bytes: &[u8]) -> (r: Result<Ack, DecodeError>)
    ensures
        match r {
            Ok(a) => ack_of(bytes@) == Ok::<AckView, DecodeError>(a@),
            Err(e) => ack_of(bytes@) == Err::<AckView, DecodeError>(e),
        },
{
    let fields = match read_fields(bytes) {
        Some(fields) => fields,
        None => {
            return Err(DecodeError::Malformed);
        },
    };
    let from = match read_member_in(&fields, FROM) {
        Ok(from) => from,
        Err(e) => {
            return Err(e);
        },
    };
    match read_opt_member_in(&fields, FORWARD_TO) {
        Ok(forward_to) => Ok(Ack { from, forward_to }),
        Err(e) => Err(e),
    }
}

/// Reads `bytes` as a request to ping.
fn read_pingreq(bytes: &[u8]) -> (r: Result<PingReq, DecodeError>)
    ensures
        match r {
            Ok(p) => pingreq_of(bytes@) == Ok::<PingReqView, DecodeError>(p@),
            Err(e) => pingreq_of(bytes@) == Err::<PingReqView, DecodeError>(e),
        },
{
    let fields = match read_fields(bytes) {
        Some(fields) => fields,
        None => {
            return Err(DecodeError::Malformed);
        },
    };
    let from = match read_member_in(&fields, FROM) {
        Ok(from) => from,
        Err(e) => {
            return Err(e);
        },
    };
    match read_member_in(&fields, TARGET) {
        Ok(target) => Ok(PingReq { from, target }),
        Err(e) => Err(e),
    }
}

/// Reads the datagram `bytes` as a record.
pub fn decode(bytes: &[u8]) -> (r: Result<Swim, DecodeError>)
    ensures
        match r {
            Ok(msg) => swim_of(bytes@) == Ok::<SwimView, DecodeError>(msg@),
            Err(e) => swim_of(bytes@) == Err::<SwimView, DecodeError>(e),
        },
{
    let fields = match read_fields(bytes) {
        Some(fields) => fields,
        None => {
            return Err(DecodeError::Malformed);
        },
    };
    let kind = match find_varint(&fields, SWIM_TYPE) {
        Some(kind) => kind,
        None => {
            return Err(DecodeError::MissingField);
        },
    };
    if kind == TYPE_PING {
        match find_len(&fields, SWIM_PING) {
            None => Err(DecodeError::MissingField),
            Some(payload) => match read_ping(payload.as_slice()) {
                Ok(p) => Ok(Swim::Ping(p)),
                Err(e) => Err(e),
            },
        }
    } else if kind == TYPE_ACK {
        match find_len(&fields, SWIM_ACK) {
            None => Err(DecodeError::MissingField),
            Some(payload) => match read_ack(payload.as_slice()) {
                Ok(a) => Ok(Swim::Ack(a)),
                Err(e) => Err(e),
            },
        }
    } else if kind == TYPE_PINGREQ {
        match find_len(&fields, SWIM_PINGREQ) {
            None => Err(DecodeError::MissingField),
            Some(payload) => match read_pingreq(payload.as_slice()) {
                Ok(r) => Ok(Swim::PingReq(r)),
                Err(e) => Err(e),
            },
        }
    } else {
        Err(DecodeError::UnknownType)
    }
}

/// A member is read back as it was written.
pub proof fn lemma_member_round_trip(m: MemberView)
    requires
        member_bytes(m).len() <= u64::MAX,
    ensures
        member_of(member_bytes(m)) == Ok::<MemberView, DecodeError>(m),
{
    let id = encode_utf8(m.id);
    let address = encode_utf8(m.address);
    let flag: u64 = if m.persistent {
        1
    } else {
        0
    };
    let b1 = len_field(MEMBER_ID, id);
    let b2 = varint_field(MEMBER_INCARNATION, m.incarnation);
    let b3 = len_field(MEMBER_ADDRESS, address);
    let b4 = varint_field(MEMBER_PERSISTENT, flag);
    let f1 = WireField { number: MEMBER_ID, value: WireValue::Len(id) };
    let f2 = WireField { number: MEMBER_INCARNATION, value: WireValue::Varint(m.incarnation) };
    let f3 = WireField { number: MEMBER_ADDRESS, value: WireValue::Len(address) };
    let f4 = WireField { number: MEMBER_PERSISTENT, value: WireValue::Varint(flag) };
    let none = Seq::<u8>::empty();
    let e = Seq::<WireField>::empty();

    lemma_varint_field_round_trip(MEMBER_PERSISTENT, flag, none);
    lemma_fields_prepend(f4, b4, none);
    let t4 = b4 + none;
    lemma_len_field_round_trip(MEMBER_ADDRESS, address, t4);
    lemma_fields_prepend(f3, b3, t4);
    let t3 = b3 + t4;
    lemma_varint_field_round_trip(MEMBER_INCARNATION, m.incarnation, t3);
    lemma_fields_prepend(f2, b2, t3);
    let t2 = b2 + t3;
    lemma_len_field_round_trip(MEMBER_ID, id, t2);
    lemma_fields_prepend(f1, b1, t2);
    assert(b1 + t2 =~= member_bytes(m));

    let fields = e.push(f1).push(f2).push(f3).push(f4);
    assert(seq![f1] + (seq![f2] + (seq![f3] + (seq![f4] + e))) =~= fields);

    lemma_last_len_push(e, f1, MEMBER_ID);
    lemma_last_len_push(e.push(f1), f2, MEMBER_ID);
    lemma_last_len_push(e.push(f1).push(f2), f3, MEMBER_ID);
    lemma_last_len_push(e.push(f1).push(f2).push(f3), f4, MEMBER_ID);

    lemma_last_len_push(e.push(f1).push(f2), f3, MEMBER_ADDRESS);
    lemma_last_len_push(e.push(f1).push(f2).push(f3), f4, MEMBER_ADDRESS);

    lemma_last_varint_push(e.push(f1), f2, MEMBER_INCARNATION);
    lemma_last_varint_push(e.push(f1).push(f2), f3, MEMBER_INCARNATION);
    lemma_last_varint_push(e.push(f1).push(f2).push(f3), f4, MEMBER_INCARNATION);

    lemma_last_varint_push(e.push(f1).push(f2).push(f3), f4, MEMBER_PERSISTENT);

    vstd::utf8::encode_utf8_valid_utf8(m.id);
    vstd::utf8::encode_utf8_decode_utf8(m.id);
    vstd::utf8::encode_utf8_valid_utf8(m.address);
    vstd::utf8::encode_utf8_decode_utf8(m.address);
}

/// A sender and a second member, where there is one, are read back as they were written.
pub proof fn lemma_pair_round_trip(from: MemberView, second: Option<MemberView>)
    requires
        pair_bytes(from, second).len() <= u64::MAX,
    ensures
        fields_of(pair_bytes(from, second)) matches Some(fields) && member_in(fields, FROM) == Ok::<
            MemberView,
            DecodeError,
        >(from) && opt_member_in(fields, FORWARD_TO) == Ok::<Option<MemberView>, DecodeError>(
            second,
        ) && (second matches Some(m) ==> member_in(fields, TARGET) == Ok::<
            MemberView,
            DecodeError,
        >(m)),
{
    let none = Seq::<u8>::empty();
    let e = Seq::<WireField>::empty();
    let b1 = len_field(FROM, member_bytes(from));
    let f1 = WireField { number: FROM, value: WireValue::Len(member_bytes(from)) };
    lemma_member_round_trip(from);
    match second {
        Some(m) => {
            let b2 = len_field(FORWARD_TO, member_bytes(m));
            let f2 = WireField { number: FORWARD_TO, value: WireValue::Len(member_bytes(m)) };
            lemma_member_round_trip(m);
            lemma_len_field_round_trip(FORWARD_TO, member_bytes(m), none);
            lemma_fields_prepend(f2, b2, none);
            let t2 = b2 + none;
            lemma_len_field_round_trip(FROM, member_bytes(from), t2);
            lemma_fields_prepend(f1, b1, t2);
            let fields = e.push(f1).push(f2);
            assert(seq![f1] + (seq![f2] + e) =~= fields);
            lemma_last_len_push(e, f1, FROM);
            lemma_last_len_push(e.push(f1), f2, FROM);
            lemma_last_len_push(e.push(f1), f2, FORWARD_TO);
        },
        None => {
            lemma_len_field_round_trip(FROM, member_bytes(from), none);
            lemma_fields_prepend(f1, b1, none);
            lemma_last_len_push(e, f1, FROM);
            lemma_last_len_push(e, f1, FORWARD_TO);
        },
    }
}

/// A record is read back as it was written: reading undoes writing.
pub proof fn law_decode_encode(msg: SwimView)
    requires
        swim_bytes(msg).len() <= u64::MAX,
    ensures
        swim_of(swim_bytes(msg)) == Ok::<SwimView, DecodeError>(msg),
{
    let none = Seq::<u8>::empty();
    let e = Seq::<WireField>::empty();
    let (kind, number, payload) = match msg {
        SwimView::Ping(p) => (TYPE_PING, SWIM_PING, ping_bytes(p)),
        SwimView::Ack(a) => (TYPE_ACK, SWIM_ACK, ack_bytes(a)),
        SwimView::PingReq(r) => (TYPE_PINGREQ, SWIM_PINGREQ, pingreq_bytes(r)),
    };
    let b1 = varint_field(SWIM_TYPE, kind);
    let b2 = len_field(number, payload);
    let f1 = WireField { number: SWIM_TYPE, value: WireValue::Varint(kind) };
    let f2 = WireField { number, value: WireValue::Len(payload) };
    assert(swim_bytes(msg) == b1 + b2);
    lemma_len_field_round_trip(number, payload, none);
    lemma_fields_prepend(f2, b2, none);
    let t2 = b2 + none;
    lemma_varint_field_round_trip(SWIM_TYPE, kind, t2);
    lemma_fields_prepend(f1, b1, t2);
    let fields = e.push(f1).push(f2);
    assert(seq![f1] + (seq![f2] + e) =~= fields);
    lemma_last_varint_push(e, f1, SWIM_TYPE);
    lemma_last_varint_push(e.push(f1), f2, SWIM_TYPE);
    lemma_last_len_push(e.push(f1), f2, number);
    match msg {
        SwimView::Ping(p) => {
            lemma_pair_round_trip(p.from, p.forward_to);
        },
        SwimView::Ack(a) => {
            lemma_pair_round_trip(a.from, a.forward_to);
        },
        SwimView::PingReq(r) => {
            lemma_pair_round_trip(r.from, Some(r.target));
        },
    }
}

} // verus!
