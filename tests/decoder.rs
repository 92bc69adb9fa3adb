use hprof::hprof_model::{DecodeError, HeapDumpTag, Identifier, RecordTag, Value};
use hprof::reader::{HprofReader, InternalHprofReader};

const MAGIC: &[u8] = b"JAVA PROFILE 1.0.2\0";

fn header(width: u32, timestamp: u64) -> Vec<u8> {
    let mut v = MAGIC.to_vec();
    v.extend_from_slice(&width.to_be_bytes());
    v.extend_from_slice(&timestamp.to_be_bytes());
    v
}

fn record(tag: u8, body: &[u8]) -> Vec<u8> {
    let mut v = vec![tag];
    v.extend_from_slice(&7u32.to_be_bytes());
    v.extend_from_slice(&(body.len() as u32).to_be_bytes());
    v.extend_from_slice(body);
    v
}

fn stream(width: u32, records: &[Vec<u8>]) -> Vec<u8> {
    let mut v = header(width, 1_700_000_000_000);
    for r in records {
        v.extend_from_slice(r);
    }
    v
}

fn class_dump(class_id: u64, super_id: u64, statics: &[(u64, u8, Vec<u8>)], fields: &[(u64, u8)]) -> Vec<u8> {
    let mut v = vec![0x20];
    v.extend_from_slice(&class_id.to_be_bytes());
    v.extend_from_slice(&3u32.to_be_bytes());
    v.extend_from_slice(&super_id.to_be_bytes());
    for id in [11u64, 12, 13, 0, 0] {
        v.extend_from_slice(&id.to_be_bytes());
    }
    v.extend_from_slice(&24u32.to_be_bytes());
    v.extend_from_slice(&0u16.to_be_bytes());
    v.extend_from_slice(&(statics.len() as u16).to_be_bytes());
    for (name, tag, value) in statics {
        v.extend_from_slice(&name.to_be_bytes());
        v.push(*tag);
        v.extend_from_slice(value);
    }
    v.extend_from_slice(&(fields.len() as u16).to_be_bytes());
    for (name, tag) in fields {
        v.extend_from_slice(&name.to_be_bytes());
        v.push(*tag);
    }
    v
}

fn instance_dump(object_id: u64, class_id: u64, values: &[u8]) -> Vec<u8> {
    let mut v = vec![0x21];
    v.extend_from_slice(&object_id.to_be_bytes());
    v.extend_from_slice(&9u32.to_be_bytes());
    v.extend_from_slice(&class_id.to_be_bytes());
    v.extend_from_slice(&(values.len() as u32).to_be_bytes());
    v.extend_from_slice(values);
    v
}

fn segment(subs: &[Vec<u8>]) -> Vec<u8> {
    let body: Vec<u8> = subs.concat();
    record(0x1C, &body)
}

fn open(bytes: Vec<u8>) -> HprofReader {
    HprofReader::new(bytes).expect("header")
}

fn sub_records(r: RecordTag) -> Vec<HeapDumpTag> {
    match r {
        RecordTag::HprofHeapDumpSegment { sub_records, .. } => sub_records,
        other => panic!("not a segment: {:?}", other),
    }
}

#[test]
fn header_with_other_magic_is_invalid_input() {
    let mut bytes = header(8, 0);
    bytes[0] = b'j';
    assert!(matches!(HprofReader::new(bytes), Err(DecodeError::InvalidHeader)));
    let mut bytes = header(8, 0);
    bytes[18] = b' ';
    assert!(matches!(HprofReader::new(bytes), Err(DecodeError::InvalidHeader)));
}

#[test]
fn header_with_magic_and_width_8_opens() {
    let r = open(header(8, 0x0102_0304_0506_0708));
    assert_eq!(r.identifier_size(), 8);
    assert_eq!(r.timestamp(), 0x0102_0304_0506_0708);
    assert_eq!(r.position(), 31);
}

#[test]
fn header_with_width_5_is_refused() {
    assert!(matches!(HprofReader::new(header(5, 0)), Err(DecodeError::UnsupportedIdentifierSize(5))));
}

#[test]
fn short_header_is_eof() {
    assert!(matches!(HprofReader::new(MAGIC[..10].to_vec()), Err(DecodeError::UnexpectedEof)));
    let mut bytes = header(8, 0);
    bytes.truncate(27);
    assert!(matches!(HprofReader::new(bytes), Err(DecodeError::UnexpectedEof)));
}

#[test]
fn width_4_identifiers_take_4_bytes() {
    let mut body = Vec::new();
    body.extend_from_slice(&1u32.to_be_bytes());
    body.extend_from_slice(&0xA1B2C3D4u32.to_be_bytes());
    body.extend_from_slice(&2u32.to_be_bytes());
    body.extend_from_slice(&0x00000010u32.to_be_bytes());
    let mut r = open(stream(4, &[record(0x02, &body)]));
    match r.next().unwrap().unwrap() {
        RecordTag::HprofLoadClass { class_serial_number, class_object_id, stack_trace_serial_number, class_name_id, base } => {
            assert_eq!(class_serial_number, 1);
            assert_eq!(class_object_id, 0xA1B2C3D4);
            assert_eq!(stack_trace_serial_number, 2);
            assert_eq!(class_name_id, 0x10);
            assert_eq!(base.size_remaining, 16);
            assert_eq!(base.micros_since, 7);
        }
        other => panic!("{:?}", other),
    }
    assert_eq!(r.position(), 31 + 9 + 16);
}

#[test]
fn width_8_identifiers_take_8_bytes() {
    let mut body = Vec::new();
    body.extend_from_slice(&0x0102030405060708u64.to_be_bytes());
    body.extend_from_slice(b"x");
    let mut r = open(stream(8, &[record(0x01, &body)]));
    match r.next().unwrap().unwrap() {
        RecordTag::HprofUtf8 { id, utf8, .. } => {
            assert_eq!(id, 0x0102030405060708);
            assert_eq!(utf8, "x");
        }
        other => panic!("{:?}", other),
    }
    assert_eq!(r.position(), 31 + 9 + 9);
}

#[test]
fn utf8_record_round_trip() {
    let s = "héllo, wörld ☃";
    let mut body = 42u64.to_be_bytes().to_vec();
    body.extend_from_slice(s.as_bytes());
    let mut r = open(stream(8, &[record(0x01, &body)]));
    match r.next().unwrap().unwrap() {
        RecordTag::HprofUtf8 { id, utf8, base } => {
            assert_eq!(id, 42);
            assert_eq!(utf8, s);
            assert_eq!(base.size_remaining as usize, 8 + s.len());
        }
        other => panic!("{:?}", other),
    }
    assert_eq!(r.name(42).map(|s| s.as_str()), Some(s));
    assert_eq!(r.name(43), None);
}

#[test]
fn utf8_record_with_invalid_bytes_is_repaired() {
    let mut body = 5u64.to_be_bytes().to_vec();
    body.extend_from_slice(&[b'a', 0xFF, b'b']);
    let mut r = open(stream(8, &[record(0x01, &body)]));
    match r.next().unwrap().unwrap() {
        RecordTag::HprofUtf8 { utf8, .. } => assert_eq!(utf8, "a\u{FFFD}b"),
        other => panic!("{:?}", other),
    }
}

#[test]
fn utf8_record_shorter_than_identifier_is_refused() {
    let mut bytes = stream(8, &[]);
    bytes.push(0x01);
    bytes.extend_from_slice(&0u32.to_be_bytes());
    bytes.extend_from_slice(&4u32.to_be_bytes());
    bytes.extend_from_slice(&9u64.to_be_bytes());
    let mut r = open(bytes);
    assert!(matches!(r.next(), Err(DecodeError::RecordTooShort(4))));
}

#[test]
fn frame_keeps_negative_line_number() {
    let mut body = Vec::new();
    for id in [1u64, 2, 3, 4] {
        body.extend_from_slice(&id.to_be_bytes());
    }
    body.extend_from_slice(&77u32.to_be_bytes());
    body.extend_from_slice(&(-3i32).to_be_bytes());
    let mut r = open(stream(8, &[record(0x04, &body)]));
    match r.next().unwrap().unwrap() {
        RecordTag::HprofFrame { stack_frame_id, method_name_id, method_signature_id, source_file_name_id, class_serial_numer, line_number, .. } => {
            assert_eq!((stack_frame_id, method_name_id, method_signature_id, source_file_name_id), (1, 2, 3, 4));
            assert_eq!(class_serial_numer, 77);
            assert_eq!(line_number, -3);
        }
        other => panic!("{:?}", other),
    }
}

#[test]
fn trace_lists_frames_in_order() {
    let mut body = Vec::new();
    body.extend_from_slice(&5u32.to_be_bytes());
    body.extend_from_slice(&6u32.to_be_bytes());
    body.extend_from_slice(&3u32.to_be_bytes());
    for id in [30u64, 20, 10] {
        body.extend_from_slice(&id.to_be_bytes());
    }
    let mut r = open(stream(8, &[record(0x05, &body)]));
    match r.next().unwrap().unwrap() {
        RecordTag::HprofTrace { stack_trace_serial_number, thread_serial_number, stack_frame_ids, .. } => {
            assert_eq!(stack_trace_serial_number, 5);
            assert_eq!(thread_serial_number, 6);
            assert_eq!(stack_frame_ids, vec![30, 20, 10]);
        }
        other => panic!("{:?}", other),
    }
}

#[test]
fn trace_cut_short_is_eof() {
    let mut body = Vec::new();
    body.extend_from_slice(&5u32.to_be_bytes());
    body.extend_from_slice(&6u32.to_be_bytes());
    body.extend_from_slice(&3u32.to_be_bytes());
    body.extend_from_slice(&30u64.to_be_bytes());
    let mut r = open(stream(8, &[record(0x05, &body)]));
    assert!(matches!(r.next(), Err(DecodeError::UnexpectedEof)));
}

#[test]
fn heap_dump_end_needs_empty_body() {
    let mut r = open(stream(8, &[record(0x2C, &[])]));
    assert!(matches!(r.next(), Ok(Some(RecordTag::HprofHeapDumpEnd))));
    let mut r = open(stream(8, &[record(0x2C, &[1, 2])]));
    assert!(matches!(r.next(), Err(DecodeError::NonEmptyHeapDumpEnd(2))));
}

#[test]
fn unsupported_record_tag_is_an_error() {
    let mut r = open(stream(8, &[record(0x0D, &[0, 0, 0, 0])]));
    assert!(matches!(r.next(), Err(DecodeError::UnsupportedRecordTag(0x0D))));
}

#[test]
fn truncated_record_header_is_eof() {
    let mut bytes = stream(8, &[]);
    bytes.extend_from_slice(&[0x01, 0, 0]);
    let mut r = open(bytes);
    assert!(matches!(r.next(), Err(DecodeError::UnexpectedEof)));
}

#[test]
fn instance_of_unknown_class_is_missing_class() {
    let inst = instance_dump(100, 0xC1, &[0, 0, 0, 1]);
    let mut r = open(stream(8, &[segment(&[inst])]));
    assert!(matches!(r.next(), Err(DecodeError::MissingClass(0xC1))));
}

#[test]
fn instance_after_class_dump_decodes_its_fields() {
    let class = class_dump(0xC1, 0, &[], &[(1, 0x0A), (2, 0x04), (3, 0x02), (4, 0x06)]);
    let mut values = Vec::new();
    values.extend_from_slice(&(-2i32).to_be_bytes());
    values.push(1);
    values.extend_from_slice(&0xDEADu64.to_be_bytes());
    values.extend_from_slice(&1.5f32.to_bits().to_be_bytes());
    let inst = instance_dump(100, 0xC1, &values);
    let mut r = open(stream(8, &[segment(&[class, inst])]));
    let subs = sub_records(r.next().unwrap().unwrap());
    assert_eq!(subs.len(), 2);
    match &subs[0] {
        HeapDumpTag::HprofGcClassDump(c) => {
            assert_eq!(c.class_object_id, 0xC1);
            assert_eq!(c.super_class_object_id, 0);
            assert_eq!(c.stack_trace_serial_number, 3);
            assert_eq!(c.class_loader_object_id, 11);
            assert_eq!(c.signers_object_id, 12);
            assert_eq!(c.protection_domain_object_id, 13);
            assert_eq!(c.instance_size, 24);
            assert_eq!(c.instance_fields.len(), 4);
            assert_eq!(c.instance_fields[2].type_tag, 0x02);
            assert_eq!(c.instance_fields[2].value, None);
        }
        other => panic!("{:?}", other),
    }
    match &subs[1] {
        HeapDumpTag::HprofGcInstanceDump { object_id, stack_trace_serial_number, class_object_id, instance_field_values } => {
            assert_eq!(*object_id, 100);
            assert_eq!(*stack_trace_serial_number, 9);
            assert_eq!(*class_object_id, 0xC1);
            assert_eq!(
                instance_field_values,
                &vec![
                    Value::Int(-2),
                    Value::Boolean(true),
                    Value::Object { object_id: 0xDEAD },
                    Value::Float(1.5f32.to_bits()),
                ]
            );
            assert_eq!(f32::from_bits(match instance_field_values[3] { Value::Float(b) => b, _ => 0 }), 1.5);
        }
        other => panic!("{:?}", other),
    }
}

#[test]
fn instance_fields_fall_through_to_superclass() {
    let b = class_dump(0xB, 0, &[], &[(7, 0x0B)]);
    let a = class_dump(0xA, 0xB, &[], &[(5, 0x09), (6, 0x05)]);
    let mut values = Vec::new();
    values.extend_from_slice(&(-1i16).to_be_bytes());
    values.extend_from_slice(&0x263Au16.to_be_bytes());
    values.extend_from_slice(&(-9i64).to_be_bytes());
    let inst = instance_dump(1, 0xA, &values);
    let mut r = open(stream(8, &[segment(&[b, a, inst])]));
    let subs = sub_records(r.next().unwrap().unwrap());
    match &subs[2] {
        HeapDumpTag::HprofGcInstanceDump { instance_field_values, .. } => {
            assert_eq!(instance_field_values, &vec![Value::Short(-1), Value::Char(0x263A), Value::Long(-9)]);
        }
        other => panic!("{:?}", other),
    }
}

#[test]
fn instance_past_root_class_is_missing_class_zero() {
    let a = class_dump(0xA, 0, &[], &[(5, 0x08)]);
    let inst = instance_dump(1, 0xA, &[1, 2]);
    let mut r = open(stream(8, &[segment(&[a, inst])]));
    assert!(matches!(r.next(), Err(DecodeError::MissingClass(0))));
}

#[test]
fn class_chain_cycle_without_fields_is_refused() {
    let a = class_dump(0xA, 0xA, &[], &[]);
    let inst = instance_dump(1, 0xA, &[1]);
    let mut r = open(stream(8, &[segment(&[a, inst])]));
    assert!(matches!(r.next(), Err(DecodeError::ClassChainTooDeep(0xA))));
}

#[test]
fn static_fields_carry_values() {
    let class = class_dump(0xC, 0, &[(8, 0x0A, 77i32.to_be_bytes().to_vec()), (9, 0x07, 2.25f64.to_bits().to_be_bytes().to_vec())], &[]);
    let mut r = open(stream(8, &[segment(&[class])]));
    let subs = sub_records(r.next().unwrap().unwrap());
    match &subs[0] {
        HeapDumpTag::HprofGcClassDump(c) => {
            assert_eq!(c.static_fields.len(), 2);
            assert_eq!(c.static_fields[0].name_id, 8);
            assert_eq!(c.static_fields[0].value, Some(Value::Int(77)));
            assert_eq!(c.static_fields[1].value, Some(Value::Double(2.25f64.to_bits())));
        }
        other => panic!("{:?}", other),
    }
}

#[test]
fn class_dump_with_constant_pool_is_refused() {
    let mut class = class_dump(0xC, 0, &[], &[]);
    let at = 1 + 8 + 4 + 8 * 6 + 4;
    class[at + 1] = 2;
    let mut r = open(stream(8, &[segment(&[class])]));
    assert!(matches!(r.next(), Err(DecodeError::ConstantPoolNotSupported(2))));
}

#[test]
fn segment_with_one_sticky_class_root() {
    let mut sub = vec![0x05];
    sub.extend_from_slice(&0x55u64.to_be_bytes());
    let mut r = open(stream(8, &[segment(&[sub])]));
    let start = 31 + 9;
    let subs = sub_records(r.next().unwrap().unwrap());
    assert_eq!(subs.len(), 1);
    assert!(matches!(subs[0], HeapDumpTag::HprofGcRootStickyClass { object_id: 0x55 }));
    assert_eq!(r.position(), start + 9);
}

#[test]
fn gc_roots_decode_their_fields() {
    let mut subs = Vec::new();
    let mut s = vec![0x01];
    s.extend_from_slice(&1u64.to_be_bytes());
    s.extend_from_slice(&2u64.to_be_bytes());
    subs.push(s);
    let mut s = vec![0x02];
    s.extend_from_slice(&3u64.to_be_bytes());
    s.extend_from_slice(&4u32.to_be_bytes());
    s.extend_from_slice(&u32::MAX.to_be_bytes());
    subs.push(s);
    let mut s = vec![0x03];
    s.extend_from_slice(&5u64.to_be_bytes());
    s.extend_from_slice(&6u32.to_be_bytes());
    s.extend_from_slice(&7u32.to_be_bytes());
    subs.push(s);
    let mut s = vec![0x08];
    s.extend_from_slice(&8u64.to_be_bytes());
    s.extend_from_slice(&9u32.to_be_bytes());
    s.extend_from_slice(&10u32.to_be_bytes());
    subs.push(s);
    subs.push(vec![0xFF]);
    subs.push(vec![0x04]);
    subs.push(vec![0x06]);
    subs.push(vec![0x07]);
    let mut r = open(stream(8, &[segment(&subs)]));
    let got = sub_records(r.next().unwrap().unwrap());
    assert_eq!(got.len(), 8);
    assert!(matches!(got[0], HeapDumpTag::HprofGcRootJniGlobal { object_id: 1, jni_global_ref_id: 2 }));
    assert!(matches!(got[1], HeapDumpTag::HprofGcRootJniLocal { object_id: 3, thread_serial_number: 4, frame_number: u32::MAX }));
    assert!(matches!(got[2], HeapDumpTag::HprofGcRootJavaFrame { object_id: 5, thread_serial_number: 6, frame_number: 7 }));
    assert!(matches!(got[3], HeapDumpTag::HprofGcRootThreadObj { thread_object_id: 8, thread_sequence_number: 9, stack_trace_sequence_number: 10 }));
    assert!(matches!(got[4], HeapDumpTag::HprofGcRootUnknown));
    assert!(matches!(got[5], HeapDumpTag::HprofGcRootNativeStack));
    assert!(matches!(got[6], HeapDumpTag::HprofGcRootThreadBlock));
    assert!(matches!(got[7], HeapDumpTag::HprofGcRootMonitorUsed));
    assert_eq!(got[3].id(), 0x08);
}

#[test]
fn unsupported_sub_record_tag_is_an_error() {
    let mut r = open(stream(8, &[segment(&[vec![0x30, 0, 0]])]));
    assert!(matches!(r.next(), Err(DecodeError::UnsupportedSubRecordTag(0x30))));
}

#[test]
fn object_array_lists_elements() {
    let mut s = vec![0x22];
    s.extend_from_slice(&1u64.to_be_bytes());
    s.extend_from_slice(&2u32.to_be_bytes());
    s.extend_from_slice(&2u32.to_be_bytes());
    s.extend_from_slice(&0xCAu64.to_be_bytes());
    s.extend_from_slice(&10u64.to_be_bytes());
    s.extend_from_slice(&11u64.to_be_bytes());
    let mut r = open(stream(8, &[segment(&[s])]));
    let got = sub_records(r.next().unwrap().unwrap());
    match &got[0] {
        HeapDumpTag::HprofGcObjArrayDump { array_object_id, stack_trace_serial_number, array_class_id, elements } => {
            assert_eq!((*array_object_id, *stack_trace_serial_number, *array_class_id), (1, 2, 0xCA));
            assert_eq!(elements, &vec![10, 11]);
        }
        other => panic!("{:?}", other),
    }
}

#[test]
fn primitive_array_uses_one_type_tag() {
    let mut s = vec![0x23];
    s.extend_from_slice(&1u64.to_be_bytes());
    s.extend_from_slice(&2u32.to_be_bytes());
    s.extend_from_slice(&3u32.to_be_bytes());
    s.push(0x08);
    s.extend_from_slice(&[0x7F, 0x80, 0xFF]);
    let mut r = open(stream(8, &[segment(&[s])]));
    let got = sub_records(r.next().unwrap().unwrap());
    match &got[0] {
        HeapDumpTag::HprofGcPrimArrayDump { elements, .. } => {
            assert_eq!(elements, &vec![Value::Byte(127), Value::Byte(-128), Value::Byte(-1)]);
        }
        other => panic!("{:?}", other),
    }
}

#[test]
fn primitive_array_with_unknown_type_tag_is_refused() {
    let mut s = vec![0x23];
    s.extend_from_slice(&1u64.to_be_bytes());
    s.extend_from_slice(&2u32.to_be_bytes());
    s.extend_from_slice(&1u32.to_be_bytes());
    s.push(0x03);
    s.push(0);
    let mut r = open(stream(8, &[segment(&[s])]));
    assert!(matches!(r.next(), Err(DecodeError::UnsupportedTypeTag(0x03))));
}

#[test]
fn end_of_stream_repeats() {
    let mut r = open(stream(8, &[record(0x2C, &[])]));
    assert!(matches!(r.next(), Ok(Some(RecordTag::HprofHeapDumpEnd))));
    assert!(matches!(r.next(), Ok(None)));
    let at = r.position();
    assert!(matches!(r.next(), Ok(None)));
    assert!(matches!(r.next(), Ok(None)));
    assert_eq!(r.position(), at);
}

#[test]
fn byte_source_reads_big_endian() {
    let mut src = InternalHprofReader::new(vec![0x12, 0x34, 0x56, 0x78, 0x9A]);
    assert_eq!(src.read_uint(2), Ok(0x1234));
    assert_eq!(src.read_identifier(4), Err(DecodeError::UnexpectedEof));
    assert_eq!(src.position(), 2);
    assert_eq!(src.read_value(4, 0x09), Ok(Value::Short(0x5678)));
    assert_eq!(src.read_bytes(1), Ok(vec![0x9A]));
    assert!(src.is_exhausted());
}

#[test]
fn record_and_sub_record_ids() {
    assert_eq!(RecordTag::HprofHeapDumpEnd.id(), 0x2C);
    assert_eq!(RecordTag::HprofCpuSamples.id(), 0x0D);
    assert_eq!(HeapDumpTag::HprofGcRootUnknown.id(), 0xFF);
    assert_eq!(<u32 as Identifier>::size(), 4);
    assert_eq!(<u64 as Identifier>::size(), 8);
}
