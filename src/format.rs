//! The HPROF wire format, stated as spec functions over the input bytes.
use vstd::prelude::*;
use crate::hprof_model::{
    is_type_tag, record_tag_id, sub_record_tag_id, value_from, value_width, ClassInfo, DecodeError,
    FieldInfo, HeapDumpTag, RecordBase, RecordTag, Value,
};
use crate::text::string_text;

verus! {

/// Big-endian unsigned value of a byte sequence.
pub open spec fn be_value(s: Seq<u8>) -> nat
    decreases s.len(),
{
    if s.len() == 0 {
        0
    } else {
        be_value(s.drop_last()) * 256 + s.last() as nat
    }
}

/// Big-endian unsigned value of the `n` bytes of `data` that start at `pos`.
pub open spec fn uint_at(data: Seq<u8>, pos: int, n: int) -> nat {
    be_value(data.subrange(pos, pos + n))
}

/// Whether `n` bytes starting at `pos` lie within `data`.
pub open spec fn fits(data: Seq<u8>, pos: int, n: int) -> bool {
    0 <= pos && 0 <= n && pos + n <= data.len()
}

pub open spec fn pow256(n: nat) -> nat
    decreases n,
{
    if n == 0 {
        1
    } else {
        256 * pow256((n - 1) as nat)
    }
}

pub proof fn lemma_be_value_bound(s: Seq<u8>)
    ensures
        be_value(s) < pow256(s.len()),
    decreases s.len(),
{
    if s.len() > 0 {
        lemma_be_value_bound(s.drop_last());
        let a = be_value(s.drop_last());
        let p = pow256((s.len() - 1) as nat);
        let b = s.last() as nat;
        assert(a * 256 + b < 256 * p) by (nonlinear_arith)
            requires
                a < p,
                b < 256,
        ;
    }
}

pub proof fn lemma_pow256_le(n: nat)
    requires
        n <= 7,
    ensures
        pow256(n) <= 0x100000000000000,
{
    reveal_with_fuel(pow256, 8);
    if n == 0 {
    } else if n == 1 {
    } else if n == 2 {
    } else if n == 3 {
    } else if n == 4 {
    } else if n == 5 {
    } else if n == 6 {
    } else {
        assert(pow256(7) == 0x100000000000000);
    }
}

pub proof fn lemma_pow256_values()
    ensures
        pow256(1) == 0x100,
        pow256(2) == 0x10000,
        pow256(4) == 0x100000000,
{
    reveal_with_fuel(pow256, 5);
}

/// The header that opens every HPROF stream, its NUL terminator included.
pub open spec fn magic() -> Seq<u8> {
    seq![
        0x4au8, 0x41u8, 0x56u8, 0x41u8, 0x20u8, 0x50u8, 0x52u8, 0x4fu8, 0x46u8, 0x49u8, 0x4cu8,
        0x45u8, 0x20u8, 0x31u8, 0x2eu8, 0x30u8, 0x2eu8, 0x32u8, 0x00u8,
    ]
}

/// Identifier widths this decoder supports.
pub open spec fn valid_id_size(w: u32) -> bool {
    w == 4 || w == 8
}

/// `res` with `acc` put in front of the sequence it holds, if it holds one.
pub open spec fn prefixed<T>(acc: Seq<T>, res: Result<(Seq<T>, int), DecodeError>) -> Result<
    (Seq<T>, int),
    DecodeError,
> {
    match res {
        Ok((rest, stop)) => Ok((acc + rest, stop)),
        Err(e) => Err(e),
    }
}

/// Longest superclass chain an instance dump may walk.
pub const MAX_CLASS_DEPTH: u64 = 1024;

/// The value of type `tag` stored at `pos`, and the offset just past it.
pub open spec fn value_at(data: Seq<u8>, pos: int, w: u32, tag: u8) -> Result<(Value, int), DecodeError> {
    if !is_type_tag(tag) {
        Err(DecodeError::UnsupportedTypeTag(tag))
    } else if !fits(data, pos, value_width(tag, w)) {
        Err(DecodeError::UnexpectedEof)
    } else {
        Ok(
            (
                value_from(tag, #[verifier::truncate] (uint_at(data, pos, value_width(tag, w)) as u64)),
                pos + value_width(tag, w),
            ),
        )
    }
}

/// The values of an instance read from `pos` until the offset reaches `end`,
/// and the offset where reading stopped.
/// The descriptors `fields` of the current class give the types first; when
/// they run out the walk goes on with the cached class `sup`, then its own
/// superclass, and so on. `depth` counts the superclasses entered so far.
pub open spec fn instance_values(
    classes: Map<u64, ClassInfo>,
    data: Seq<u8>,
    w: u32,
    pos: int,
    end: int,
    fields: Seq<FieldInfo>,
    sup: u64,
    depth: nat,
) -> Result<(Seq<Value>, int), DecodeError>
    decreases (if pos < end { end - pos } else { 0 }), MAX_CLASS_DEPTH - depth, fields.len(),
{
    if pos >= end {
        Ok((seq![], pos))
    } else if fields.len() > 0 {
        let tag = fields[0].type_tag;
        let n = value_width(tag, w);
        if !is_type_tag(tag) {
            Err(DecodeError::UnsupportedTypeTag(tag))
        } else if !fits(data, pos, n) {
            Err(DecodeError::UnexpectedEof)
        } else {
            let v = value_from(tag, #[verifier::truncate] (uint_at(data, pos, n) as u64));
            match instance_values(classes, data, w, pos + n, end, fields.drop_first(), sup, depth) {
                Ok((rest, stop)) => Ok((seq![v] + rest, stop)),
                Err(e) => Err(e),
            }
        }
    } else if !classes.contains_key(sup) {
        Err(DecodeError::MissingClass(sup))
    } else if depth >= MAX_CLASS_DEPTH {
        Err(DecodeError::ClassChainTooDeep(sup))
    } else {
        instance_values(
            classes,
            data,
            w,
            pos,
            end,
            classes[sup].instance_fields@,
            classes[sup].super_class_object_id,
            depth + 1,
        )
    }
}

/// The values of an instance of class `class_id` whose values region is
/// `[pos, end)`, and the offset where reading stopped.
pub open spec fn instance_values_of(
    classes: Map<u64, ClassInfo>,
    data: Seq<u8>,
    w: u32,
    pos: int,
    end: int,
    class_id: u64,
) -> Result<(Seq<Value>, int), DecodeError> {
    if !classes.contains_key(class_id) {
        Err(DecodeError::MissingClass(class_id))
    } else {
        instance_values(
            classes,
            data,
            w,
            pos,
            end,
            classes[class_id].instance_fields@,
            classes[class_id].super_class_object_id,
            0,
        )
    }
}

/// `count` identifiers stored back to back from `pos`.
pub open spec fn ids_at(data: Seq<u8>, w: u32, pos: int, count: nat) -> Seq<u64> {
    Seq::new(count, |i: int| #[verifier::truncate] (uint_at(data, pos + i * w, w as int) as u64))
}

/// `count` values of type `tag` stored back to back from `pos`.
pub open spec fn values_at(data: Seq<u8>, w: u32, pos: int, count: nat, tag: u8) -> Seq<Value> {
    Seq::new(
        count,
        |i: int|
            value_from(
                tag,
                #[verifier::truncate] (uint_at(
                    data,
                    pos + i * value_width(tag, w),
                    value_width(tag, w),
                ) as u64),
            ),
    )
}

/// `count` field descriptors read from `pos` (name identifier, type tag and,
/// when `with_value`, a value of that type), and the offset after them.
pub open spec fn fields_at(data: Seq<u8>, w: u32, pos: int, count: nat, with_value: bool) -> Result<
    (Seq<FieldInfo>, int),
    DecodeError,
>
    decreases count,
{
    if count == 0 {
        Ok((seq![], pos))
    } else if !fits(data, pos, w + 1) {
        Err(DecodeError::UnexpectedEof)
    } else {
        let name_id = #[verifier::truncate] (uint_at(data, pos, w as int) as u64);
        let type_tag = data[pos + w];
        let head: Result<(Option<Value>, int), DecodeError> = if with_value {
            match value_at(data, pos + w + 1, w, type_tag) {
                Ok((v, next)) => Ok((Some(v), next)),
                Err(e) => Err(e),
            }
        } else {
            Ok((None, pos + w + 1))
        };
        match head {
            Err(e) => Err(e),
            Ok((value, next)) => match fields_at(data, w, next, (count - 1) as nat, with_value) {
                Ok((rest, stop)) => Ok(
                    (seq![FieldInfo { name_id, type_tag, value }] + rest, stop),
                ),
                Err(e) => Err(e),
            },
        }
    }
}

/// Size of the fixed part of a class dump, constant-pool count included.
pub open spec fn class_header_len(w: u32) -> int {
    7 * w + 10
}

/// The static fields, instance fields and end offset of a class dump whose
/// body starts at `pos`.
pub open spec fn class_dump_at(data: Seq<u8>, w: u32, pos: int) -> Result<
    (Seq<FieldInfo>, Seq<FieldInfo>, int),
    DecodeError,
> {
    let h = pos + class_header_len(w);
    if !fits(data, pos, class_header_len(w)) {
        Err(DecodeError::UnexpectedEof)
    } else if uint_at(data, h - 2, 2) != 0 {
        Err(DecodeError::ConstantPoolNotSupported(uint_at(data, h - 2, 2) as u16))
    } else if !fits(data, h, 2) {
        Err(DecodeError::UnexpectedEof)
    } else {
        match fields_at(data, w, h + 2, uint_at(data, h, 2), true) {
            Err(e) => Err(e),
            Ok((statics, q)) => if !fits(data, q, 2) {
                Err(DecodeError::UnexpectedEof)
            } else {
                match fields_at(data, w, q + 2, uint_at(data, q, 2), false) {
                    Err(e) => Err(e),
                    Ok((instance, stop)) => Ok((statics, instance, stop)),
                }
            },
        }
    }
}

/// The values and end offset of an instance dump whose body starts at `pos`.
pub open spec fn instance_dump_at(
    classes: Map<u64, ClassInfo>,
    data: Seq<u8>,
    w: u32,
    pos: int,
) -> Result<(Seq<Value>, int), DecodeError> {
    if !fits(data, pos, 2 * w + 8) {
        Err(DecodeError::UnexpectedEof)
    } else {
        let start = pos + 2 * w + 8;
        instance_values_of(
            classes,
            data,
            w,
            start,
            start + uint_at(data, pos + 2 * w + 4, 4),
            #[verifier::truncate] (uint_at(data, pos + w + 4, w as int) as u64),
        )
    }
}

/// End offset of a primitive-array dump whose body starts at `pos`.
pub open spec fn prim_array_end(data: Seq<u8>, w: u32, pos: int) -> Result<int, DecodeError> {
    let count = uint_at(data, pos + w + 4, 4);
    let tag = data[pos + w + 8];
    let start = pos + w + 9;
    if !fits(data, pos, w + 9) {
        Err(DecodeError::UnexpectedEof)
    } else if count == 0 {
        Ok(start)
    } else if !is_type_tag(tag) {
        Err(DecodeError::UnsupportedTypeTag(tag))
    } else if !fits(data, start, count * value_width(tag, w)) {
        Err(DecodeError::UnexpectedEof)
    } else {
        Ok(start + count * value_width(tag, w))
    }
}

/// End offset of a body of `n` bytes that starts at `pos`.
pub open spec fn fixed_end(data: Seq<u8>, pos: int, n: int) -> Result<int, DecodeError> {
    if fits(data, pos, n) {
        Ok(pos + n)
    } else {
        Err(DecodeError::UnexpectedEof)
    }
}

/// Where the sub-record whose tag byte is at `pos` ends, or why it cannot be
/// decoded, given the classes cached before it.
pub open spec fn sub_record_end(classes: Map<u64, ClassInfo>, data: Seq<u8>, w: u32, pos: int) -> Result<
    int,
    DecodeError,
> {
    let b = pos + 1;
    if !fits(data, pos, 1) {
        Err(DecodeError::UnexpectedEof)
    } else {
        let tag = data[pos];
        if tag == 0xFF || tag == 0x04 || tag == 0x06 || tag == 0x07 {
            Ok(b)
        } else if tag == 0x01 {
            fixed_end(data, b, 2 * w)
        } else if tag == 0x02 || tag == 0x03 || tag == 0x08 {
            fixed_end(data, b, w + 8)
        } else if tag == 0x05 {
            fixed_end(data, b, w as int)
        } else if tag == 0x20 {
            match class_dump_at(data, w, b) {
                Ok((_, _, stop)) => Ok(stop),
                Err(e) => Err(e),
            }
        } else if tag == 0x21 {
            match instance_dump_at(classes, data, w, b) {
                Ok((_, stop)) => Ok(stop),
                Err(e) => Err(e),
            }
        } else if tag == 0x22 {
            let n = uint_at(data, b + w + 4, 4) * w;
            if !fits(data, b, 2 * w + 8) || !fits(data, b + 2 * w + 8, n) {
                Err(DecodeError::UnexpectedEof)
            } else {
                Ok(b + 2 * w + 8 + n)
            }
        } else if tag == 0x23 {
            prim_array_end(data, w, b)
        } else {
            Err(DecodeError::UnsupportedSubRecordTag(tag))
        }
    }
}

/// Identifier of width `w` at `pos`.
pub open spec fn id_at(data: Seq<u8>, pos: int, w: u32) -> u64 {
    #[verifier::truncate] (uint_at(data, pos, w as int) as u64)
}

/// 4-byte unsigned integer at `pos`.
pub open spec fn u4_at(data: Seq<u8>, pos: int) -> u32 {
    #[verifier::truncate] (uint_at(data, pos, 4) as u32)
}

/// Whether `t` holds what the sub-record whose tag byte is at `pos` encodes.
pub open spec fn sub_record_read(
    t: HeapDumpTag,
    classes: Map<u64, ClassInfo>,
    data: Seq<u8>,
    w: u32,
    pos: int,
) -> bool {
    let b = pos + 1;
    &&& sub_record_tag_id(t) == data[pos]
    &&& match t {
        HeapDumpTag::HprofGcRootJniGlobal { object_id, jni_global_ref_id } => {
            object_id == id_at(data, b, w) && jni_global_ref_id == id_at(data, b + w, w)
        },
        HeapDumpTag::HprofGcRootJniLocal { object_id, thread_serial_number, frame_number } => {
            &&& object_id == id_at(data, b, w)
            &&& thread_serial_number == u4_at(data, b + w)
            &&& frame_number == u4_at(data, b + w + 4)
        },
        HeapDumpTag::HprofGcRootJavaFrame { object_id, thread_serial_number, frame_number } => {
            &&& object_id == id_at(data, b, w)
            &&& thread_serial_number == u4_at(data, b + w)
            &&& frame_number == u4_at(data, b + w + 4)
        },
        HeapDumpTag::HprofGcRootThreadObj {
            thread_object_id,
            thread_sequence_number,
            stack_trace_sequence_number,
        } => {
            &&& thread_object_id == id_at(data, b, w)
            &&& thread_sequence_number == u4_at(data, b + w)
            &&& stack_trace_sequence_number == u4_at(data, b + w + 4)
        },
        HeapDumpTag::HprofGcRootStickyClass { object_id } => object_id == id_at(data, b, w),
        HeapDumpTag::HprofGcClassDump(c) => {
            &&& c.class_object_id == id_at(data, b, w)
            &&& c.stack_trace_serial_number == u4_at(data, b + w)
            &&& c.super_class_object_id == id_at(data, b + w + 4, w)
            &&& c.class_loader_object_id == id_at(data, b + 2 * w + 4, w)
            &&& c.signers_object_id == id_at(data, b + 3 * w + 4, w)
            &&& c.protection_domain_object_id == id_at(data, b + 4 * w + 4, w)
            &&& c.instance_size == u4_at(data, b + 7 * w + 4)
            &&& class_dump_at(data, w, b) matches Ok((statics, instance, _))
            &&& c.static_fields@ == statics
            &&& c.instance_fields@ == instance
        },
        HeapDumpTag::HprofGcInstanceDump {
            object_id,
            stack_trace_serial_number,
            class_object_id,
            instance_field_values,
        } => {
            &&& object_id == id_at(data, b, w)
            &&& stack_trace_serial_number == u4_at(data, b + w)
            &&& class_object_id == id_at(data, b + w + 4, w)
            &&& instance_dump_at(classes, data, w, b) matches Ok((values, _))
            &&& instance_field_values@ == values
        },
        HeapDumpTag::HprofGcObjArrayDump {
            array_object_id,
            stack_trace_serial_number,
            array_class_id,
            elements,
        } => {
            &&& array_object_id == id_at(data, b, w)
            &&& stack_trace_serial_number == u4_at(data, b + w)
            &&& array_class_id == id_at(data, b + w + 8, w)
            &&& elements@ == ids_at(data, w, b + 2 * w + 8, uint_at(data, b + w + 4, 4))
        },
        HeapDumpTag::HprofGcPrimArrayDump { array_object_id, stack_trace_serial_number, elements } => {
            &&& array_object_id == id_at(data, b, w)
            &&& stack_trace_serial_number == u4_at(data, b + w)
            &&& elements@ == values_at(
                data,
                w,
                b + w + 9,
                uint_at(data, b + w + 4, 4),
                data[b + w + 8],
            )
        },
        _ => true,
    }
}

/// Whether two class descriptions agree in every field.
pub open spec fn same_class(a: ClassInfo, b: ClassInfo) -> bool {
    &&& a.class_object_id == b.class_object_id
    &&& a.stack_trace_serial_number == b.stack_trace_serial_number
    &&& a.super_class_object_id == b.super_class_object_id
    &&& a.class_loader_object_id == b.class_loader_object_id
    &&& a.signers_object_id == b.signers_object_id
    &&& a.protection_domain_object_id == b.protection_domain_object_id
    &&& a.instance_size == b.instance_size
    &&& a.static_fields@ == b.static_fields@
    &&& a.instance_fields@ == b.instance_fields@
}

/// The class cache after sub-record `t`: a class dump adds or replaces its
/// class, every other sub-record leaves the cache as it was.
pub open spec fn classes_after(before: Map<u64, ClassInfo>, t: HeapDumpTag, after: Map<u64, ClassInfo>) -> bool {
    match t {
        HeapDumpTag::HprofGcClassDump(c) => {
            &&& after.dom() == before.dom().insert(c.class_object_id)
            &&& forall|k: u64|
                #![trigger after[k]]
                before.contains_key(k) && k != c.class_object_id ==> after[k] == before[k]
            &&& same_class(after[c.class_object_id], c)
        },
        _ => after == before,
    }
}

/// One decoded sub-record: `t`, read at `pos` with cache `before`, ends at
/// `next` and leaves cache `after`.
pub open spec fn sub_record_step(
    t: HeapDumpTag,
    before: Map<u64, ClassInfo>,
    data: Seq<u8>,
    w: u32,
    pos: int,
    after: Map<u64, ClassInfo>,
    next: int,
) -> bool {
    &&& sub_record_end(before, data, w, pos) == Ok::<int, DecodeError>(next)
    &&& sub_record_read(t, before, data, w, pos)
    &&& classes_after(before, t, after)
}

/// The `i`-th sub-record of `ts` starts before `end` and is decoded as the
/// format says, from offset `ps[i]` and cache `cs[i]` to `ps[i + 1]` and `cs[i + 1]`.
pub open spec fn trace_link(
    ts: Seq<HeapDumpTag>,
    ps: Seq<int>,
    cs: Seq<Map<u64, ClassInfo>>,
    data: Seq<u8>,
    w: u32,
    end: int,
    i: int,
) -> bool {
    ps[i] < end && sub_record_step(ts[i], cs[i], data, w, ps[i], cs[i + 1], ps[i + 1])
}

/// Sub-records `ts` read one after another from `start`, each one starting
/// before `end`: `ps` holds the offsets and `cs` the class caches between them.
pub open spec fn segment_trace(
    ts: Seq<HeapDumpTag>,
    ps: Seq<int>,
    cs: Seq<Map<u64, ClassInfo>>,
    data: Seq<u8>,
    w: u32,
    start: int,
    end: int,
    classes: Map<u64, ClassInfo>,
) -> bool {
    &&& ps.len() == ts.len() + 1
    &&& cs.len() == ts.len() + 1
    &&& ps[0] == start
    &&& cs[0] == classes
    &&& forall|i: int| 0 <= i < ts.len() ==> #[trigger] trace_link(ts, ps, cs, data, w, end, i)
}

/// Identifier width and timestamp declared by the header of `data`, or why
/// the header is refused.
pub open spec fn header_at(data: Seq<u8>) -> Result<(u32, u64), DecodeError> {
    if !fits(data, 0, 19) {
        Err(DecodeError::UnexpectedEof)
    } else if data.subrange(0, 19) != magic() {
        Err(DecodeError::InvalidHeader)
    } else if !fits(data, 19, 12) {
        Err(DecodeError::UnexpectedEof)
    } else if !valid_id_size(u4_at(data, 19)) {
        Err(DecodeError::UnsupportedIdentifierSize(u4_at(data, 19)))
    } else {
        Ok((u4_at(data, 19), #[verifier::truncate] (uint_at(data, 23, 8) as u64)))
    }
}

/// Offset of the first record.
pub open spec fn header_len() -> int {
    31
}

/// Timestamp offset and body size of the record whose tag byte is at `pos`.
pub open spec fn base_at(data: Seq<u8>, pos: int) -> RecordBase {
    RecordBase { micros_since: u4_at(data, pos + 1), size_remaining: u4_at(data, pos + 5) }
}

/// Where the body of a record with tag `tag` and declared size `size`,
/// starting at `b`, ends; or why it cannot be decoded. Heap-dump segments are
/// described by `segment_trace` instead.
pub open spec fn record_end(data: Seq<u8>, w: u32, b: int, tag: u8, size: u32) -> Result<int, DecodeError> {
    if tag == 0x01 {
        if !fits(data, b, w as int) {
            Err(DecodeError::UnexpectedEof)
        } else if size < w {
            Err(DecodeError::RecordTooShort(size))
        } else {
            fixed_end(data, b, size as int)
        }
    } else if tag == 0x02 {
        fixed_end(data, b, 2 * w + 8)
    } else if tag == 0x04 {
        fixed_end(data, b, 4 * w + 8)
    } else if tag == 0x05 {
        if !fits(data, b, 12) {
            Err(DecodeError::UnexpectedEof)
        } else {
            fixed_end(data, b + 12, uint_at(data, b + 8, 4) * w)
        }
    } else if tag == 0x2C {
        if size == 0 {
            Ok(b)
        } else {
            Err(DecodeError::NonEmptyHeapDumpEnd(size))
        }
    } else {
        Err(DecodeError::UnsupportedRecordTag(tag))
    }
}

/// Whether `rec` holds what the record whose tag byte is at `pos` encodes.
pub open spec fn record_read(rec: RecordTag, data: Seq<u8>, w: u32, pos: int) -> bool {
    let b = pos + 9;
    let base = base_at(data, pos);
    &&& record_tag_id(rec) == data[pos]
    &&& match rec {
        RecordTag::HprofUtf8 { base: rb, id, utf8 } => {
            &&& rb == base
            &&& id == id_at(data, b, w)
            &&& utf8@ == string_text(data.subrange(b + w, b + base.size_remaining))
        },
        RecordTag::HprofLoadClass {
            base: rb,
            class_serial_number,
            class_object_id,
            stack_trace_serial_number,
            class_name_id,
        } => {
            &&& rb == base
            &&& class_serial_number == u4_at(data, b)
            &&& class_object_id == id_at(data, b + 4, w)
            &&& stack_trace_serial_number == u4_at(data, b + w + 4)
            &&& class_name_id == id_at(data, b + w + 8, w)
        },
        RecordTag::HprofFrame {
            base: rb,
            stack_frame_id,
            method_name_id,
            method_signature_id,
            source_file_name_id,
            class_serial_numer,
            line_number,
        } => {
            &&& rb == base
            &&& stack_frame_id == id_at(data, b, w)
            &&& method_name_id == id_at(data, b + w, w)
            &&& method_signature_id == id_at(data, b + 2 * w, w)
            &&& source_file_name_id == id_at(data, b + 3 * w, w)
            &&& class_serial_numer == u4_at(data, b + 4 * w)
            &&& line_number == u4_at(data, b + 4 * w + 4) as i32
        },
        RecordTag::HprofTrace {
            base: rb,
            stack_trace_serial_number,
            thread_serial_number,
            stack_frame_ids,
        } => {
            &&& rb == base
            &&& stack_trace_serial_number == u4_at(data, b)
            &&& thread_serial_number == u4_at(data, b + 4)
            &&& stack_frame_ids@ == ids_at(data, w, b + 12, uint_at(data, b + 8, 4))
        },
        RecordTag::HprofHeapDumpSegment { base: rb, .. } => rb == base,
        _ => true,
    }
}

pub proof fn lemma_fields_at_advances(data: Seq<u8>, w: u32, pos: int, count: nat, with_value: bool)
    ensures
        fields_at(data, w, pos, count, with_value) matches Ok((_, stop)) ==> stop >= pos,
    decreases count,
{
    if count > 0 && fits(data, pos, w + 1) {
        let type_tag = data[pos + w];
        if with_value {
            match value_at(data, pos + w + 1, w, type_tag) {
                Ok((_, next)) => lemma_fields_at_advances(data, w, next, (count - 1) as nat, true),
                Err(_) => {},
            }
        } else {
            lemma_fields_at_advances(data, w, pos + w + 1, (count - 1) as nat, false);
        }
    }
}

pub proof fn lemma_instance_values_advances(
    classes: Map<u64, ClassInfo>,
    data: Seq<u8>,
    w: u32,
    pos: int,
    end: int,
    fields: Seq<FieldInfo>,
    sup: u64,
    depth: nat,
)
    ensures
        instance_values(classes, data, w, pos, end, fields, sup, depth) matches Ok((_, stop))
            ==> stop >= pos,
    decreases (if pos < end { end - pos } else { 0 }), MAX_CLASS_DEPTH - depth, fields.len(),
{
    if pos < end {
        if fields.len() > 0 {
            let n = value_width(fields[0].type_tag, w);
            lemma_instance_values_advances(classes, data, w, pos + n, end, fields.drop_first(), sup, depth);
        } else if classes.contains_key(sup) && depth < MAX_CLASS_DEPTH {
            lemma_instance_values_advances(
                classes,
                data,
                w,
                pos,
                end,
                classes[sup].instance_fields@,
                classes[sup].super_class_object_id,
                depth + 1,
            );
        }
    }
}

/// A sub-record that decodes takes at least its tag byte.
pub proof fn lemma_sub_record_advances(classes: Map<u64, ClassInfo>, data: Seq<u8>, w: u32, pos: int)
    requires
        valid_id_size(w),
    ensures
        sub_record_end(classes, data, w, pos) matches Ok(stop) ==> stop > pos,
{
    let b = pos + 1;
    let h = b + class_header_len(w);
    lemma_fields_at_advances(data, w, h + 2, uint_at(data, h, 2), true);
    match fields_at(data, w, h + 2, uint_at(data, h, 2), true) {
        Ok((_, q)) => lemma_fields_at_advances(data, w, q + 2, uint_at(data, q, 2), false),
        Err(_) => {},
    }
    let c = b + 2 * w + 8;
    let cid = #[verifier::truncate] (uint_at(data, b + w + 4, w as int) as u64);
    if classes.contains_key(cid) {
        lemma_instance_values_advances(
            classes,
            data,
            w,
            c,
            c + uint_at(data, b + 2 * w + 4, 4),
            classes[cid].instance_fields@,
            classes[cid].super_class_object_id,
            0,
        );
    }
}

pub proof fn lemma_segment_trace_push(
    ts: Seq<HeapDumpTag>,
    ps: Seq<int>,
    cs: Seq<Map<u64, ClassInfo>>,
    data: Seq<u8>,
    w: u32,
    start: int,
    end: int,
    classes: Map<u64, ClassInfo>,
    t: HeapDumpTag,
    after: Map<u64, ClassInfo>,
    next: int,
)
    requires
        segment_trace(ts, ps, cs, data, w, start, end, classes),
        ps.last() < end,
        sub_record_step(t, cs.last(), data, w, ps.last(), after, next),
    ensures
        segment_trace(ts.push(t), ps.push(next), cs.push(after), data, w, start, end, classes),
{
    let ts2 = ts.push(t);
    let ps2 = ps.push(next);
    let cs2 = cs.push(after);
    assert forall|i: int| 0 <= i < ts2.len() implies #[trigger] trace_link(ts2, ps2, cs2, data, w, end, i) by {
        if i < ts.len() {
            assert(trace_link(ts, ps, cs, data, w, end, i));
            assert(ts2[i] == ts[i]);
        }
    }
    assert(ps2.len() == ts2.len() + 1);
    assert(cs2.len() == ts2.len() + 1);
    assert(ps2[0] == start);
    assert(cs2[0] == classes);
}

/// Bytes taken by one value of each field of `fields`.
pub open spec fn fields_width(fields: Seq<FieldInfo>, w: u32) -> int
    decreases fields.len(),
{
    if fields.len() == 0 {
        0
    } else {
        value_width(fields[0].type_tag, w) + fields_width(fields.drop_first(), w)
    }
}

/// One value for each field of `fields`, in order, stored back to back from `pos`.
pub open spec fn field_values(data: Seq<u8>, w: u32, pos: int, fields: Seq<FieldInfo>) -> Seq<Value>
    decreases fields.len(),
{
    if fields.len() == 0 {
        seq![]
    } else {
        let n = value_width(fields[0].type_tag, w);
        seq![value_from(fields[0].type_tag, #[verifier::truncate] (uint_at(data, pos, n) as u64))]
            + field_values(data, w, pos + n, fields.drop_first())
    }
}

/// Whether every field of `fields` has a known type tag.
pub open spec fn known_types(fields: Seq<FieldInfo>) -> bool {
    forall|i: int| 0 <= i < fields.len() ==> is_type_tag(#[trigger] fields[i].type_tag)
}

/// Reading an instance through the whole descriptor list `fields` yields one
/// value per field and then goes on from where they end.
pub proof fn lemma_instance_values_through(
    classes: Map<u64, ClassInfo>,
    data: Seq<u8>,
    w: u32,
    pos: int,
    end: int,
    fields: Seq<FieldInfo>,
    sup: u64,
    depth: nat,
)
    requires
        known_types(fields),
        fits(data, pos, fields_width(fields, w)),
        pos + fields_width(fields, w) <= end,
    ensures
        instance_values(classes, data, w, pos, end, fields, sup, depth) == prefixed(
            field_values(data, w, pos, fields),
            instance_values(classes, data, w, pos + fields_width(fields, w), end, seq![], sup, depth),
        ),
    decreases fields.len(),
{
    if fields.len() == 0 {
        match instance_values(classes, data, w, pos, end, fields, sup, depth) {
            Ok((rest, _)) => assert(Seq::<Value>::empty() + rest =~= rest),
            Err(_) => {},
        }
        assert(fields =~= Seq::<FieldInfo>::empty());
    } else {
        let n = value_width(fields[0].type_tag, w);
        lemma_fields_width_nonneg(fields.drop_first(), w);
        assert(known_types(fields.drop_first())) by {
            assert forall|i: int| 0 <= i < fields.drop_first().len() implies is_type_tag(
                #[trigger] fields.drop_first()[i].type_tag,
            ) by {
                assert(fields.drop_first()[i] == fields[i + 1]);
            }
        }
        assert(is_type_tag(fields[0].type_tag));
        lemma_instance_values_through(classes, data, w, pos + n, end, fields.drop_first(), sup, depth);
        let v = value_from(fields[0].type_tag, #[verifier::truncate] (uint_at(data, pos, n) as u64));
        match instance_values(classes, data, w, pos + fields_width(fields, w), end, seq![], sup, depth) {
            Ok((rest, _)) => {
                assert(seq![v] + (field_values(data, w, pos + n, fields.drop_first()) + rest) =~= (
                seq![v] + field_values(data, w, pos + n, fields.drop_first())) + rest);
            },
            Err(_) => {},
        }
    }
}

pub proof fn lemma_fields_width_nonneg(fields: Seq<FieldInfo>, w: u32)
    ensures
        fields_width(fields, w) >= 0,
    decreases fields.len(),
{
    if fields.len() > 0 {
        lemma_fields_width_nonneg(fields.drop_first(), w);
    }
}

} // verus!
