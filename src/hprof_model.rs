//! Records, sub-records, class metadata and values produced by the decoder.
use vstd::prelude::*;

verus! {

pub type U1 = u8;

pub type U2 = u16;

pub type U4 = u32;

pub type I4 = i32;

pub type U8 = u64;

/// What can go wrong while decoding.
#[derive(Clone, Copy, Debug, PartialEq, Eq, Structural)]
pub enum DecodeError {
    /// The input ended before a field could be read in full.
    UnexpectedEof,
    /// The stream does not start with the HPROF header.
    InvalidHeader,
    /// The header declares an identifier width other than 4 or 8.
    UnsupportedIdentifierSize(U4),
    /// A top-level record tag this decoder does not handle.
    UnsupportedRecordTag(U1),
    /// A heap-dump sub-record tag this decoder does not handle.
    UnsupportedSubRecordTag(U1),
    /// A value type tag outside the ten known ones.
    UnsupportedTypeTag(U1),
    /// A class dump with a non-empty constant pool.
    ConstantPoolNotSupported(U2),
    /// An instance dump refers to a class that was not dumped before it.
    MissingClass(U8),
    /// A superclass chain longer than the decoder accepts (or a cycle).
    ClassChainTooDeep(U8),
    /// A heap-dump-end record with a non-zero body size.
    NonEmptyHeapDumpEnd(U4),
    /// A string record whose body is shorter than one identifier.
    RecordTooShort(U4),
}

/// Timestamp offset and declared body size shared by the top-level records.
#[derive(Clone, Copy, Debug, PartialEq, Eq, Structural)]
pub struct RecordBase {
    pub micros_since: U4,
    pub size_remaining: U4,
}

/// One decoded field or array element. Floating-point values keep their
/// IEEE-754 bit pattern.
#[derive(Clone, Copy, Debug, PartialEq, Eq, Structural)]
pub enum Value {
    Object { object_id: U8 },
    Array { object_id: U8 },
    Byte(i8),
    Char(u16),
    Short(i16),
    Float(u32),
    Double(u64),
    Int(i32),
    Long(i64),
    Boolean(bool),
}

/// A field of a class: its name, its type tag and, for a static field, its value.
#[derive(Clone, Copy, Debug, PartialEq, Eq, Structural)]
pub struct FieldInfo {
    pub name_id: U8,
    pub type_tag: U1,
    pub value: Option<Value>,
}

/// The metadata of a dumped class.
#[derive(Clone, Debug)]
pub struct ClassInfo {
    pub class_object_id: U8,
    pub stack_trace_serial_number: U4,
    pub super_class_object_id: U8,
    pub class_loader_object_id: U8,
    pub signers_object_id: U8,
    pub protection_domain_object_id: U8,
    pub instance_size: U4,
    pub static_fields: Vec<FieldInfo>,
    pub instance_fields: Vec<FieldInfo>,
}

/// Whether `tag` is one of the ten value type tags.
pub open spec fn is_type_tag(tag: u8) -> bool {
    tag == 0x01 || tag == 0x02 || (0x04 <= tag && tag <= 0x0B)
}

/// Number of bytes a value of type `tag` takes on the wire, with identifiers
/// `w` bytes wide (4 or 8).
pub open spec fn value_width(tag: u8, w: u32) -> int {
    if tag == 0x01 || tag == 0x02 {
        if w == 4 {
            4
        } else {
            8
        }
    } else if tag == 0x04 || tag == 0x08 {
        1
    } else if tag == 0x05 || tag == 0x09 {
        2
    } else if tag == 0x06 || tag == 0x0A {
        4
    } else {
        8
    }
}

/// The value of type `tag` whose wire bytes read `raw`, big-endian.
pub open spec fn value_from(tag: u8, raw: u64) -> Value {
    if tag == 0x01 {
        Value::Array { object_id: raw }
    } else if tag == 0x02 {
        Value::Object { object_id: raw }
    } else if tag == 0x04 {
        Value::Boolean(raw != 0)
    } else if tag == 0x05 {
        Value::Char(raw as u16)
    } else if tag == 0x06 {
        Value::Float(raw as u32)
    } else if tag == 0x07 {
        Value::Double(raw)
    } else if tag == 0x08 {
        Value::Byte(raw as u8 as i8)
    } else if tag == 0x09 {
        Value::Short(raw as u16 as i16)
    } else if tag == 0x0A {
        Value::Int(raw as u32 as i32)
    } else {
        Value::Long(raw as i64)
    }
}

/// A top-level record.
#[derive(Debug)]
pub enum RecordTag {
    HprofUtf8 { base: RecordBase, id: U8, utf8: String },
    HprofLoadClass {
        base: RecordBase,
        class_serial_number: U4,
        class_object_id: U8,
        stack_trace_serial_number: U4,
        class_name_id: U8,
    },
    HprofUnloadClass,
    HprofFrame {
        base: RecordBase,
        stack_frame_id: U8,
        method_name_id: U8,
        method_signature_id: U8,
        source_file_name_id: U8,
        class_serial_numer: U4,
        line_number: I4,
    },
    HprofTrace {
        base: RecordBase,
        stack_trace_serial_number: U4,
        thread_serial_number: U4,
        stack_frame_ids: Vec<U8>,
    },
    HprofAllocSites,
    HprofStartThread,
    HprofEndThread,
    HprofHeapSummary,
    HprofHeapDump,
    HprofCpuSamples,
    HprofControlSettings,
    HprofHeapDumpSegment { base: RecordBase, sub_records: Vec<HeapDumpTag> },
    HprofHeapDumpEnd,
}

/// A sub-record of a heap-dump segment.
#[derive(Debug)]
pub enum HeapDumpTag {
    HprofGcRootUnknown,
    HprofGcRootThreadObj {
        thread_object_id: U8,
        thread_sequence_number: U4,
        stack_trace_sequence_number: U4,
    },
    HprofGcRootJniGlobal { object_id: U8, jni_global_ref_id: U8 },
    HprofGcRootJniLocal { object_id: U8, thread_serial_number: U4, frame_number: U4 },
    HprofGcRootJavaFrame { object_id: U8, thread_serial_number: U4, frame_number: U4 },
    HprofGcRootNativeStack,
    HprofGcRootStickyClass { object_id: U8 },
    HprofGcRootThreadBlock,
    HprofGcRootMonitorUsed,
    HprofGcClassDump(ClassInfo),
    HprofGcInstanceDump {
        object_id: U8,
        stack_trace_serial_number: U4,
        class_object_id: U8,
        instance_field_values: Vec<Value>,
    },
    HprofGcObjArrayDump {
        array_object_id: U8,
        stack_trace_serial_number: U4,
        array_class_id: U8,
        elements: Vec<U8>,
    },
    HprofGcPrimArrayDump {
        array_object_id: U8,
        stack_trace_serial_number: U4,
        elements: Vec<Value>,
    },
}

/// The wire tag of a top-level record.
pub open spec fn record_tag_id(r: RecordTag) -> u8 {
    match r {
        RecordTag::HprofUtf8 { .. } => 0x01,
        RecordTag::HprofLoadClass { .. } => 0x02,
        RecordTag::HprofUnloadClass => 0x03,
        RecordTag::HprofFrame { .. } => 0x04,
        RecordTag::HprofTrace { .. } => 0x05,
        RecordTag::HprofAllocSites => 0x06,
        RecordTag::HprofHeapSummary => 0x07,
        RecordTag::HprofStartThread => 0x0A,
        RecordTag::HprofEndThread => 0x0B,
        RecordTag::HprofHeapDump => 0x0C,
        RecordTag::HprofCpuSamples => 0x0D,
        RecordTag::HprofControlSettings => 0x0E,
        RecordTag::HprofHeapDumpSegment { .. } => 0x1C,
        RecordTag::HprofHeapDumpEnd => 0x2C,
    }
}

/// The wire tag of a heap-dump sub-record.
pub open spec fn sub_record_tag_id(t: HeapDumpTag) -> u8 {
    match t {
        HeapDumpTag::HprofGcRootUnknown => 0xFF,
        HeapDumpTag::HprofGcRootJniGlobal { .. } => 0x01,
        HeapDumpTag::HprofGcRootJniLocal { .. } => 0x02,
        HeapDumpTag::HprofGcRootJavaFrame { .. } => 0x03,
        HeapDumpTag::HprofGcRootNativeStack => 0x04,
        HeapDumpTag::HprofGcRootStickyClass { .. } => 0x05,
        HeapDumpTag::HprofGcRootThreadBlock => 0x06,
        HeapDumpTag::HprofGcRootMonitorUsed => 0x07,
        HeapDumpTag::HprofGcRootThreadObj { .. } => 0x08,
        HeapDumpTag::HprofGcClassDump(_) => 0x20,
        HeapDumpTag::HprofGcInstanceDump { .. } => 0x21,
        HeapDumpTag::HprofGcObjArrayDump { .. } => 0x22,
        HeapDumpTag::HprofGcPrimArrayDump { .. } => 0x23,
    }
}

impl RecordTag {
    /// The tag byte that introduces this kind of record.
    pub fn id(&self) -> (r: U1)
        ensures
            r == record_tag_id(*self),
    {
        match self {
            RecordTag::HprofUtf8 { .. } => 0x01,
            RecordTag::HprofLoadClass { .. } => 0x02,
            RecordTag::HprofUnloadClass => 0x03,
            RecordTag::HprofFrame { .. } => 0x04,
            RecordTag::HprofTrace { .. } => 0x05,
            RecordTag::HprofAllocSites => 0x06,
            RecordTag::HprofHeapSummary => 0x07,
            RecordTag::HprofStartThread => 0x0A,
            RecordTag::HprofEndThread => 0x0B,
            RecordTag::HprofHeapDump => 0x0C,
            RecordTag::HprofCpuSamples => 0x0D,
            RecordTag::HprofControlSettings => 0x0E,
            RecordTag::HprofHeapDumpSegment { .. } => 0x1C,
            RecordTag::HprofHeapDumpEnd => 0x2C,
        }
    }
}

impl HeapDumpTag {
    /// The tag byte that introduces this kind of sub-record.
    pub fn id(&self) -> (r: U1)
        ensures
            r == sub_record_tag_id(*self),
    {
        match self {
            HeapDumpTag::HprofGcRootUnknown => 0xFF,
            HeapDumpTag::HprofGcRootJniGlobal { .. } => 0x01,
            HeapDumpTag::HprofGcRootJniLocal { .. } => 0x02,
            HeapDumpTag::HprofGcRootJavaFrame { .. } => 0x03,
            HeapDumpTag::HprofGcRootNativeStack => 0x04,
            HeapDumpTag::HprofGcRootStickyClass { .. } => 0x05,
            HeapDumpTag::HprofGcRootThreadBlock => 0x06,
            HeapDumpTag::HprofGcRootMonitorUsed => 0x07,
            HeapDumpTag::HprofGcRootThreadObj { .. } => 0x08,
            HeapDumpTag::HprofGcClassDump(_) => 0x20,
            HeapDumpTag::HprofGcInstanceDump { .. } => 0x21,
            HeapDumpTag::HprofGcObjArrayDump { .. } => 0x22,
            HeapDumpTag::HprofGcPrimArrayDump { .. } => 0x23,
        }
    }
}

/// Width in bytes of an identifier type.
pub trait Identifier {
    fn size() -> (r: usize)
        ensures
            r == 4 || r == 8,
    ;
}

impl Identifier for U4 {
    fn size() -> (r: usize)
        ensures
            r == 4,
    {
        4
    }
}

impl Identifier for U8 {
    fn size() -> (r: usize)
        ensures
            r == 8,
    {
        8
    }
}

} // verus!
