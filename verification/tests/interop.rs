use habitat_swim::codec::{decode, swim_to_bytes};
use habitat_swim::member::Member;
use habitat_swim::message::{Ack, Ping, PingReq, Swim};
use habitat_swim::wire::{read_varint, write_varint};
use protobuf::wire_format::WireType;
use protobuf::{CodedInputStream, CodedOutputStream};

fn member(id: &str, address: &str, incarnation: u64, persistent: bool) -> Member {
    Member { id: id.to_string(), address: address.to_string(), incarnation, persistent }
}

/// The member as the Protocol Buffers library writes its four fields.
fn written_member(m: &Member) -> Vec<u8> {
    let mut bytes = Vec::new();
    {
        let mut os = CodedOutputStream::vec(&mut bytes);
        os.write_string(1, m.get_id()).unwrap();
        os.write_uint64(2, m.get_incarnation()).unwrap();
        os.write_string(3, m.get_address()).unwrap();
        os.write_bool(4, m.get_persistent()).unwrap();
        os.flush().unwrap();
    }
    bytes
}

fn written_pair(first: &Member, second: Option<&Member>) -> Vec<u8> {
    let mut bytes = Vec::new();
    {
        let mut os = CodedOutputStream::vec(&mut bytes);
        os.write_bytes(1, &written_member(first)).unwrap();
        if let Some(second) = second {
            os.write_bytes(2, &written_member(second)).unwrap();
        }
        os.flush().unwrap();
    }
    bytes
}

fn written_swim(msg: &Swim) -> Vec<u8> {
    let (kind, field, inner) = match msg {
        Swim::Ping(p) => (1, 2, written_pair(&p.from, p.forward_to.as_ref())),
        Swim::Ack(a) => (2, 3, written_pair(&a.from, a.forward_to.as_ref())),
        Swim::PingReq(r) => (3, 4, written_pair(&r.from, Some(&r.target))),
    };
    let mut bytes = Vec::new();
    {
        let mut os = CodedOutputStream::vec(&mut bytes);
        os.write_enum(1, kind).unwrap();
        os.write_bytes(field, &inner).unwrap();
        os.flush().unwrap();
    }
    bytes
}

/// The member as the Protocol Buffers library reads it.
fn read_member(bytes: &[u8]) -> Member {
    let mut m = member("", "", 0, false);
    let mut is = CodedInputStream::from_bytes(bytes);
    while !is.eof().unwrap() {
        let (number, wire_type) = is.read_tag_unpack().unwrap();
        match number {
            1 => m.set_id(is.read_string().unwrap()),
            2 => m.set_incarnation(is.read_uint64().unwrap()),
            3 => m.set_address(is.read_string().unwrap()),
            4 => m.set_persistent(is.read_bool().unwrap()),
            _ => is.skip_field(wire_type).unwrap(),
        }
    }
    m
}

fn read_pair(bytes: &[u8]) -> (Option<Member>, Option<Member>) {
    let mut first = None;
    let mut second = None;
    let mut is = CodedInputStream::from_bytes(bytes);
    while !is.eof().unwrap() {
        let (number, wire_type) = is.read_tag_unpack().unwrap();
        match number {
            1 => first = Some(read_member(&is.read_bytes().unwrap())),
            2 => second = Some(read_member(&is.read_bytes().unwrap())),
            _ => is.skip_field(wire_type).unwrap(),
        }
    }
    (first, second)
}

fn read_swim(bytes: &[u8]) -> Swim {
    let mut kind = 0;
    let mut payload: Vec<(u32, Vec<u8>)> = Vec::new();
    let mut is = CodedInputStream::from_bytes(bytes);
    while !is.eof().unwrap() {
        let (number, wire_type) = is.read_tag_unpack().unwrap();
        match (number, wire_type) {
            (1, WireType::WireTypeVarint) => kind = is.read_int32().unwrap(),
            (2..=4, WireType::WireTypeLengthDelimited) => {
                payload.push((number, is.read_bytes().unwrap()))
            }
            _ => is.skip_field(wire_type).unwrap(),
        }
    }
    let inner = |field: u32| -> (Option<Member>, Option<Member>) {
        read_pair(&payload.iter().rev().find(|(number, _)| *number == field).unwrap().1)
    };
    match kind {
        1 => {
            let (from, forward_to) = inner(2);
            Swim::Ping(Ping { from: from.unwrap(), forward_to })
        }
        2 => {
            let (from, forward_to) = inner(3);
            Swim::Ack(Ack { from: from.unwrap(), forward_to })
        }
        3 => {
            let (from, target) = inner(4);
            Swim::PingReq(PingReq { from: from.unwrap(), target: target.unwrap() })
        }
        other => panic!("unknown kind {}", other),
    }
}

fn messages() -> Vec<Swim> {
    let a = member("d6d9b2e94f4f4d7e8a2e0b7a3f1c9e55", "127.0.0.1:9634", 0, false);
    let b = member("0f1e2d3c4b5a69788796a5b4c3d2e1f0", "[::1]:9635", u64::MAX, true);
    let c = member("h\u{e9}llo \u{1f600}", &"x".repeat(300), 128, false);
    vec![
        Swim::Ping(Ping { from: a.clone(), forward_to: None }),
        Swim::Ping(Ping { from: a.clone(), forward_to: Some(b.clone()) }),
        Swim::Ack(Ack { from: b.clone(), forward_to: None }),
        Swim::Ack(Ack { from: b.clone(), forward_to: Some(c.clone()) }),
        Swim::PingReq(PingReq { from: c.clone(), target: a.clone() }),
        Swim::PingReq(PingReq { from: Member::new(), target: Member::new() }),
    ]
}

#[test]
fn bytes_are_those_of_protocol_buffers() {
    for msg in messages() {
        assert_eq!(swim_to_bytes(&msg), written_swim(&msg));
    }
}

#[test]
fn reads_what_protocol_buffers_writes() {
    for msg in messages() {
        assert_eq!(decode(&written_swim(&msg)), Ok(msg));
    }
}

#[test]
fn protocol_buffers_reads_what_is_written() {
    for msg in messages() {
        assert_eq!(read_swim(&swim_to_bytes(&msg)), msg);
    }
}

#[test]
fn reads_fields_that_protocol_buffers_leaves_out() {
    // a member with nothing but an identifier, as a writer that skips what is not set writes it
    let mut from = Vec::new();
    {
        let mut os = CodedOutputStream::vec(&mut from);
        os.write_string(1, "a").unwrap();
        os.flush().unwrap();
    }
    let mut ping = Vec::new();
    {
        let mut os = CodedOutputStream::vec(&mut ping);
        os.write_bytes(1, &from).unwrap();
        os.flush().unwrap();
    }
    let mut bytes = Vec::new();
    {
        let mut os = CodedOutputStream::vec(&mut bytes);
        os.write_enum(1, 1).unwrap();
        os.write_bytes(2, &ping).unwrap();
        os.write_fixed64(9, 7).unwrap();
        os.write_fixed32(10, 7).unwrap();
        os.write_string(11, "more").unwrap();
        os.flush().unwrap();
    }
    let expected = Swim::Ping(Ping { from: member("a", "", 0, false), forward_to: None });
    assert_eq!(decode(&bytes), Ok(expected));
}

#[test]
fn varints_are_those_of_protocol_buffers() {
    let mut v: u64 = 0;
    for step in 0..200u64 {
        let mut mine = Vec::new();
        write_varint(&mut mine, v);
        let mut theirs = Vec::new();
        {
            let mut os = CodedOutputStream::vec(&mut theirs);
            os.write_raw_varint64(v).unwrap();
            os.flush().unwrap();
        }
        assert_eq!(mine, theirs);
        assert_eq!(read_varint(&theirs), Some((v, theirs.len())));
        let mut is = CodedInputStream::from_bytes(&mine);
        assert_eq!(is.read_raw_varint64().unwrap(), v);
        v = v.wrapping_mul(6364136223846793005).wrapping_add(1442695040888963407 + step);
        if step % 3 == 0 {
            v >>= step % 64;
        }
    }
    for v in [127u64, 128, 16383, 16384, u64::MAX] {
        let mut mine = Vec::new();
        write_varint(&mut mine, v);
        let mut is = CodedInputStream::from_bytes(&mine);
        assert_eq!(is.read_raw_varint64().unwrap(), v);
    }
}
