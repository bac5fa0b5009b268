use bytes::Bytes;
use pgoutput_decode::{DecodeError, LogicalReplicationMessage, ReplicaIdentity, TupleData};

fn parse(v: Vec<u8>) -> Result<LogicalReplicationMessage, DecodeError> {
    LogicalReplicationMessage::parse(&Bytes::from(v))
}

fn begin_payload() -> Vec<u8> {
    let mut v = vec![b'B'];
    v.extend_from_slice(&1u64.to_be_bytes());
    v.extend_from_slice(&2i64.to_be_bytes());
    v.extend_from_slice(&3i32.to_be_bytes());
    v
}

fn relation_payload() -> Vec<u8> {
    let mut v = vec![b'R'];
    v.extend_from_slice(&16384u32.to_be_bytes());
    v.extend_from_slice(b"public\0users\0");
    v.push(b'd');
    v.extend_from_slice(&2i16.to_be_bytes());
    v.push(1);
    v.extend_from_slice(b"id\0");
    v.extend_from_slice(&23i32.to_be_bytes());
    v.extend_from_slice(&(-1i32).to_be_bytes());
    v.push(0);
    v.extend_from_slice(b"name\0");
    v.extend_from_slice(&25i32.to_be_bytes());
    v.extend_from_slice(&(-1i32).to_be_bytes());
    v
}

fn tuple_bytes() -> Vec<u8> {
    let mut v = Vec::new();
    v.extend_from_slice(&3i16.to_be_bytes());
    v.push(b'n');
    v.push(b'u');
    v.push(b't');
    v.extend_from_slice(&3i32.to_be_bytes());
    v.extend_from_slice(b"foo");
    v
}

fn insert_payload() -> Vec<u8> {
    let mut v = vec![b'I'];
    v.extend_from_slice(&7u32.to_be_bytes());
    v.push(b'N');
    v.extend(tuple_bytes());
    v
}

fn update_payload(first: u8, second: u8) -> Vec<u8> {
    let mut v = vec![b'U'];
    v.extend_from_slice(&7u32.to_be_bytes());
    v.push(first);
    v.extend(tuple_bytes());
    if first != b'N' {
        v.push(second);
        v.extend(tuple_bytes());
    }
    v
}

fn delete_payload(tag: u8) -> Vec<u8> {
    let mut v = vec![b'D'];
    v.extend_from_slice(&7u32.to_be_bytes());
    v.push(tag);
    v.extend(tuple_bytes());
    v
}

fn truncate_payload() -> Vec<u8> {
    let mut v = vec![b'T'];
    v.extend_from_slice(&2i32.to_be_bytes());
    v.push(1);
    v.extend_from_slice(&10u32.to_be_bytes());
    v.extend_from_slice(&11u32.to_be_bytes());
    v
}

fn assert_sample_tuple(data: &[TupleData]) {
    assert_eq!(data.len(), 3);
    assert!(matches!(data[0], TupleData::Null));
    assert!(matches!(data[1], TupleData::Toast));
    match &data[2] {
        TupleData::Text(b) => assert_eq!(&b[..], b"foo"),
        _ => panic!("expected text"),
    }
}

#[test]
fn begin_decodes() {
    match parse(begin_payload()).unwrap() {
        LogicalReplicationMessage::Begin(b) => {
            assert_eq!(b.final_lsn(), 1);
            assert_eq!(b.timestamp(), 2);
            assert_eq!(b.xid(), 3);
        }
        _ => panic!("expected begin"),
    }
}

#[test]
fn commit_decodes() {
    let mut v = vec![b'C', 0];
    v.extend_from_slice(&0x0102030405060708u64.to_be_bytes());
    v.extend_from_slice(&9u64.to_be_bytes());
    v.extend_from_slice(&(-5i64).to_be_bytes());
    match parse(v).unwrap() {
        LogicalReplicationMessage::Commit(c) => {
            assert_eq!(c.flags(), 0);
            assert_eq!(c.commit_lsn(), 0x0102030405060708);
            assert_eq!(c.end_lsn(), 9);
            assert_eq!(c.timestamp(), -5);
        }
        _ => panic!("expected commit"),
    }
}

#[test]
fn origin_decodes_with_terminator_kept() {
    let mut v = vec![b'O'];
    v.extend_from_slice(&42u64.to_be_bytes());
    v.extend_from_slice(b"node1\0");
    match parse(v).unwrap() {
        LogicalReplicationMessage::Origin(o) => {
            assert_eq!(o.commit_lsn(), 42);
            assert_eq!(o.name().unwrap(), "node1\0");
        }
        _ => panic!("expected origin"),
    }
}

#[test]
fn relation_decodes() {
    match parse(relation_payload()).unwrap() {
        LogicalReplicationMessage::Relation(r) => {
            assert_eq!(r.rel_id(), 16384);
            assert_eq!(r.namespace().unwrap(), "public\0");
            assert_eq!(r.name().unwrap(), "users\0");
            assert_eq!(*r.replica_identity(), ReplicaIdentity::Default);
            let cols = r.columns();
            assert_eq!(cols.len(), 2);
            assert_eq!(cols[0].flags(), 1);
            assert_eq!(cols[0].name().unwrap(), "id\0");
            assert_eq!(cols[0].type_id(), 23);
            assert_eq!(cols[0].type_modifier(), -1);
            assert_eq!(cols[1].flags(), 0);
            assert_eq!(cols[1].name().unwrap(), "name\0");
            assert_eq!(cols[1].type_id(), 25);
        }
        _ => panic!("expected relation"),
    }
}

#[test]
fn relation_replica_identities() {
    for (tag, ri) in [
        (b'd', ReplicaIdentity::Default),
        (b'n', ReplicaIdentity::Nothing),
        (b'f', ReplicaIdentity::Full),
        (b'i', ReplicaIdentity::Index),
    ] {
        let mut v = vec![b'R'];
        v.extend_from_slice(&1u32.to_be_bytes());
        v.extend_from_slice(b"a\0b\0");
        v.push(tag);
        v.extend_from_slice(&0i16.to_be_bytes());
        match parse(v).unwrap() {
            LogicalReplicationMessage::Relation(r) => assert_eq!(*r.replica_identity(), ri),
            _ => panic!("expected relation"),
        }
    }
}

#[test]
fn relation_unknown_replica_identity() {
    let mut v = vec![b'R'];
    v.extend_from_slice(&1u32.to_be_bytes());
    v.extend_from_slice(b"a\0b\0");
    v.push(b'x');
    v.extend_from_slice(&0i16.to_be_bytes());
    let e = parse(v).err().unwrap();
    assert_eq!(e, DecodeError::UnknownReplicaIdentity(b'x'));
    assert!(e.is_invalid_input());
}

#[test]
fn relation_with_no_columns() {
    let mut v = vec![b'R'];
    v.extend_from_slice(&5u32.to_be_bytes());
    v.extend_from_slice(b"s\0t\0");
    v.push(b'f');
    v.extend_from_slice(&0i16.to_be_bytes());
    match parse(v).unwrap() {
        LogicalReplicationMessage::Relation(r) => {
            assert_eq!(r.rel_id(), 5);
            assert!(r.columns().is_empty());
        }
        _ => panic!("expected relation"),
    }
}

#[test]
fn type_decodes() {
    let mut v = vec![b'Y'];
    v.extend_from_slice(&600u32.to_be_bytes());
    v.extend_from_slice(b"pg_catalog\0point\0");
    match parse(v).unwrap() {
        LogicalReplicationMessage::Type(t) => {
            assert_eq!(t.id(), 600);
            assert_eq!(t.namespace().unwrap(), "pg_catalog\0");
            assert_eq!(t.name().unwrap(), "point\0");
        }
        _ => panic!("expected type"),
    }
}

#[test]
fn insert_decodes() {
    match parse(insert_payload()).unwrap() {
        LogicalReplicationMessage::Insert(i) => {
            assert_eq!(i.rel_id(), 7);
            assert_sample_tuple(i.tuple().tuple_data());
        }
        _ => panic!("expected insert"),
    }
}

#[test]
fn insert_requires_new_marker() {
    let mut v = insert_payload();
    v[5] = b'K';
    assert_eq!(parse(v).err().unwrap(), DecodeError::UnexpectedTupleTag(b'K'));
}

#[test]
fn update_with_new_only() {
    match parse(update_payload(b'N', 0)).unwrap() {
        LogicalReplicationMessage::Update(u) => {
            assert_eq!(u.rel_id(), 7);
            assert!(u.old_tuple().is_none());
            assert!(u.key_tuple().is_none());
            assert_sample_tuple(u.new_tuple().tuple_data());
        }
        _ => panic!("expected update"),
    }
}

#[test]
fn update_with_old_row() {
    match parse(update_payload(b'O', b'N')).unwrap() {
        LogicalReplicationMessage::Update(u) => {
            assert!(u.key_tuple().is_none());
            assert_sample_tuple(u.old_tuple().unwrap().tuple_data());
            assert_sample_tuple(u.new_tuple().tuple_data());
        }
        _ => panic!("expected update"),
    }
}

#[test]
fn update_with_key() {
    match parse(update_payload(b'K', b'N')).unwrap() {
        LogicalReplicationMessage::Update(u) => {
            assert!(u.old_tuple().is_none());
            assert_sample_tuple(u.key_tuple().unwrap().tuple_data());
        }
        _ => panic!("expected update"),
    }
}

#[test]
fn update_old_then_key_is_invalid() {
    let e = parse(update_payload(b'O', b'K')).err().unwrap();
    assert_eq!(e, DecodeError::UnexpectedTupleTag(b'K'));
    assert!(e.is_invalid_input());
}

#[test]
fn update_unknown_leading_tag() {
    assert_eq!(parse(update_payload(b'X', b'N')).err().unwrap(), DecodeError::UnexpectedTupleTag(b'X'));
}

#[test]
fn delete_with_old_row() {
    match parse(delete_payload(b'O')).unwrap() {
        LogicalReplicationMessage::Delete(d) => {
            assert_eq!(d.rel_id(), 7);
            assert!(d.key_tuple().is_none());
            assert_sample_tuple(d.old_tuple().unwrap().tuple_data());
        }
        _ => panic!("expected delete"),
    }
}

#[test]
fn delete_with_key() {
    match parse(delete_payload(b'K')).unwrap() {
        LogicalReplicationMessage::Delete(d) => {
            assert!(d.old_tuple().is_none());
            assert_sample_tuple(d.key_tuple().unwrap().tuple_data());
        }
        _ => panic!("expected delete"),
    }
}

#[test]
fn delete_rejects_new_marker() {
    assert_eq!(parse(delete_payload(b'N')).err().unwrap(), DecodeError::UnexpectedTupleTag(b'N'));
}

#[test]
fn truncate_decodes() {
    match parse(truncate_payload()).unwrap() {
        LogicalReplicationMessage::Truncate(t) => {
            assert_eq!(t.options(), 1);
            assert_eq!(t.rel_ids(), &[10, 11]);
        }
        _ => panic!("expected truncate"),
    }
}

#[test]
fn unknown_message_tag() {
    let e = parse(vec![0x5A, 1, 2, 3]).err().unwrap();
    assert_eq!(e, DecodeError::UnknownMessageTag(0x5A));
    assert!(e.is_invalid_input());
}

#[test]
fn empty_payload_is_unexpected_end() {
    assert_eq!(parse(Vec::new()).err().unwrap(), DecodeError::UnexpectedEnd);
}

#[test]
fn every_truncation_is_unexpected_end() {
    let payloads = vec![
        begin_payload(),
        relation_payload(),
        insert_payload(),
        update_payload(b'O', b'N'),
        update_payload(b'K', b'N'),
        delete_payload(b'K'),
        truncate_payload(),
    ];
    for p in payloads {
        assert!(parse(p.clone()).is_ok());
        for k in 0..p.len() {
            let e = parse(p[..k].to_vec()).err().unwrap();
            assert_eq!(e, DecodeError::UnexpectedEnd);
            assert!(!e.is_invalid_input());
        }
    }
}

#[test]
fn trailing_bytes_are_ignored() {
    let mut v = begin_payload();
    v.extend_from_slice(b"extra");
    assert!(matches!(parse(v).unwrap(), LogicalReplicationMessage::Begin(_)));
}

#[test]
fn null_value_consumes_no_bytes() {
    let mut v = vec![b'I'];
    v.extend_from_slice(&7u32.to_be_bytes());
    v.push(b'N');
    v.extend_from_slice(&2i16.to_be_bytes());
    v.push(b'n');
    v.push(b'n');
    match parse(v).unwrap() {
        LogicalReplicationMessage::Insert(i) => {
            let d = i.tuple().tuple_data();
            assert_eq!(d.len(), 2);
            assert!(matches!(d[0], TupleData::Null));
            assert!(matches!(d[1], TupleData::Null));
        }
        _ => panic!("expected insert"),
    }
}

#[test]
fn negative_text_length_is_rejected() {
    let mut v = vec![b'I'];
    v.extend_from_slice(&7u32.to_be_bytes());
    v.push(b'N');
    v.extend_from_slice(&1i16.to_be_bytes());
    v.push(b't');
    v.extend_from_slice(&[0xFF, 0xFF, 0xFF, 0xFF]);
    let e = parse(v).err().unwrap();
    assert_eq!(e, DecodeError::NegativeLength(-1));
    assert!(e.is_invalid_input());
}

#[test]
fn unknown_tuple_data_tag() {
    let mut v = vec![b'I'];
    v.extend_from_slice(&7u32.to_be_bytes());
    v.push(b'N');
    v.extend_from_slice(&1i16.to_be_bytes());
    v.push(b'q');
    assert_eq!(parse(v).err().unwrap(), DecodeError::UnknownTupleDataTag(b'q'));
}

#[test]
fn negative_counts_read_nothing() {
    let mut v = vec![b'T'];
    v.extend_from_slice(&(-3i32).to_be_bytes());
    v.push(0);
    match parse(v).unwrap() {
        LogicalReplicationMessage::Truncate(t) => assert!(t.rel_ids().is_empty()),
        _ => panic!("expected truncate"),
    }
}

#[test]
fn non_utf8_name_fails_on_access_only() {
    let mut v = vec![b'O'];
    v.extend_from_slice(&1u64.to_be_bytes());
    v.extend_from_slice(&[0xFF, 0xFE, 0]);
    match parse(v).unwrap() {
        LogicalReplicationMessage::Origin(o) => {
            let e = o.name().err().unwrap();
            assert_eq!(e, DecodeError::InvalidUtf8);
            assert!(e.is_invalid_input());
        }
        _ => panic!("expected origin"),
    }
}

#[test]
fn text_value_shares_the_buffer() {
    let buf = Bytes::from(insert_payload());
    let m = LogicalReplicationMessage::parse(&buf).unwrap();
    match m {
        LogicalReplicationMessage::Insert(i) => match &i.tuple().tuple_data()[2] {
            TupleData::Text(b) => {
                let start = buf.as_ptr() as usize;
                let at = b.as_ptr() as usize;
                assert!(at >= start && at + 3 <= start + buf.len());
            }
            _ => panic!("expected text"),
        },
        _ => panic!("expected insert"),
    }
}

#[test]
fn negative_column_count_gives_empty_row() {
    let mut v = vec![b'I'];
    v.extend_from_slice(&7u32.to_be_bytes());
    v.push(b'N');
    v.extend_from_slice(&(-1i16).to_be_bytes());
    match parse(v).unwrap() {
        LogicalReplicationMessage::Insert(i) => assert!(i.tuple().tuple_data().is_empty()),
        _ => panic!("expected insert"),
    }
}

#[test]
fn unterminated_name_is_unexpected_end() {
    let mut v = vec![b'Y'];
    v.extend_from_slice(&1u32.to_be_bytes());
    v.extend_from_slice(b"no_terminator");
    assert_eq!(parse(v).err().unwrap(), DecodeError::UnexpectedEnd);
}

#[test]
fn text_length_past_end_is_unexpected_end() {
    let mut v = vec![b'I'];
    v.extend_from_slice(&7u32.to_be_bytes());
    v.push(b'N');
    v.extend_from_slice(&1i16.to_be_bytes());
    v.push(b't');
    v.extend_from_slice(&10i32.to_be_bytes());
    v.extend_from_slice(b"short");
    assert_eq!(parse(v).err().unwrap(), DecodeError::UnexpectedEnd);
}

#[test]
fn empty_text_value() {
    let mut v = vec![b'I'];
    v.extend_from_slice(&7u32.to_be_bytes());
    v.push(b'N');
    v.extend_from_slice(&1i16.to_be_bytes());
    v.push(b't');
    v.extend_from_slice(&0i32.to_be_bytes());
    match parse(v).unwrap() {
        LogicalReplicationMessage::Insert(i) => match &i.tuple().tuple_data()[0] {
            TupleData::Text(b) => assert!(b.is_empty()),
            _ => panic!("expected text"),
        },
        _ => panic!("expected insert"),
    }
}
