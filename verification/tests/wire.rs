use habitat_swim::wire::{
    find_len, find_varint, read_field, read_fields, read_varint, write_len_field, write_varint,
    write_varint_field, Field, Value,
};

fn varint(v: u64) -> Vec<u8> {
    let mut out = Vec::new();
    write_varint(&mut out, v);
    out
}

#[test]
fn varint_exact_bytes() {
    assert_eq!(varint(0), vec![0x00]);
    assert_eq!(varint(1), vec![0x01]);
    assert_eq!(varint(127), vec![0x7f]);
    assert_eq!(varint(128), vec![0x80, 0x01]);
    assert_eq!(varint(300), vec![0xac, 0x02]);
    assert_eq!(varint(16384), vec![0x80, 0x80, 0x01]);
    assert_eq!(
        varint(u64::MAX),
        vec![0xff, 0xff, 0xff, 0xff, 0xff, 0xff, 0xff, 0xff, 0xff, 0x01]
    );
}

#[test]
fn write_varint_appends() {
    let mut out = vec![9u8, 9];
    write_varint(&mut out, 300);
    assert_eq!(out, vec![9, 9, 0xac, 0x02]);
}

#[test]
fn read_varint_reads_what_was_written() {
    for v in [0u64, 1, 127, 128, 255, 300, 16383, 16384, 1 << 32, u64::MAX - 1, u64::MAX] {
        let mut bytes = Vec::new();
        write_varint(&mut bytes, v);
        let end = bytes.len();
        bytes.push(0x55);
        assert_eq!(read_varint(&bytes), Some((v, end)));
    }
}

#[test]
fn read_varint_unfinished() {
    assert_eq!(read_varint(&[]), None);
    assert_eq!(read_varint(&[0x80]), None);
    assert_eq!(read_varint(&[0x80, 0x80]), None);
}

#[test]
fn read_varint_too_large() {
    let too_large = [0xff, 0xff, 0xff, 0xff, 0xff, 0xff, 0xff, 0xff, 0xff, 0x02];
    assert_eq!(read_varint(&too_large), None);
    let longer = [0x80, 0x80, 0x80, 0x80, 0x80, 0x80, 0x80, 0x80, 0x80, 0x80, 0x01];
    assert_eq!(read_varint(&longer), None);
}

#[test]
fn read_varint_with_padding() {
    assert_eq!(read_varint(&[0x81, 0x80, 0x00]), Some((1, 3)));
}

#[test]
fn field_exact_bytes() {
    let mut out = Vec::new();
    write_varint_field(&mut out, 1, 150);
    assert_eq!(out, vec![0x08, 0x96, 0x01]);
    let mut out = Vec::new();
    write_len_field(&mut out, 2, b"testing");
    assert_eq!(out, vec![0x12, 0x07, 0x74, 0x65, 0x73, 0x74, 0x69, 0x6e, 0x67]);
}

#[test]
fn read_field_of_each_kind() {
    assert_eq!(
        read_field(&[0x08, 0x96, 0x01, 0xff]),
        Some((Field { number: 1, value: Value::Varint(150) }, 3))
    );
    assert_eq!(
        read_field(&[0x12, 0x02, 0x61, 0x62, 0xff]),
        Some((Field { number: 2, value: Value::Len(vec![0x61, 0x62]) }, 4))
    );
    assert_eq!(
        read_field(&[0x49, 1, 2, 3, 4, 5, 6, 7, 8, 0xff]),
        Some((Field { number: 9, value: Value::Fixed64 }, 9))
    );
    assert_eq!(
        read_field(&[0x4d, 1, 2, 3, 4, 0xff]),
        Some((Field { number: 9, value: Value::Fixed32 }, 5))
    );
}

#[test]
fn read_field_refuses() {
    // a tag and nothing behind it
    assert_eq!(read_field(&[0x08]), None);
    // fewer bytes than counted
    assert_eq!(read_field(&[0x12, 0x03, 0x61, 0x62]), None);
    // fewer than eight and than four bytes
    assert_eq!(read_field(&[0x49, 1, 2, 3, 4, 5, 6, 7]), None);
    assert_eq!(read_field(&[0x4d, 1, 2, 3]), None);
    // wire types that are not known
    assert_eq!(read_field(&[0x0b, 0x00]), None);
    assert_eq!(read_field(&[0x0c, 0x00]), None);
    assert_eq!(read_field(&[0x0e, 0x00]), None);
    assert_eq!(read_field(&[0x0f, 0x00]), None);
}

#[test]
fn read_fields_in_order() {
    let bytes = [0x08, 0x01, 0x12, 0x01, 0x61, 0x08, 0x02];
    assert_eq!(
        read_fields(&bytes),
        Some(vec![
            Field { number: 1, value: Value::Varint(1) },
            Field { number: 2, value: Value::Len(vec![0x61]) },
            Field { number: 1, value: Value::Varint(2) },
        ])
    );
    assert_eq!(read_fields(&[]), Some(vec![]));
    assert_eq!(read_fields(&[0x08, 0x01, 0x12]), None);
}

#[test]
fn the_last_field_counts() {
    let fields = vec![
        Field { number: 1, value: Value::Varint(1) },
        Field { number: 2, value: Value::Len(vec![0x61]) },
        Field { number: 1, value: Value::Varint(2) },
        Field { number: 2, value: Value::Varint(7) },
        Field { number: 1, value: Value::Len(vec![0x62]) },
    ];
    assert_eq!(find_varint(&fields, 1), Some(2));
    assert_eq!(find_varint(&fields, 2), Some(7));
    assert_eq!(find_varint(&fields, 3), None);
    assert_eq!(find_len(&fields, 1), Some(&vec![0x62]));
    assert_eq!(find_len(&fields, 2), Some(&vec![0x61]));
    assert_eq!(find_len(&fields, 3), None);
}
