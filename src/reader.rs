//! The byte source and the record decoder built on it.
use vstd::prelude::*;
use std::collections::HashMap;
use crate::format::{
    lemma_segment_trace_push, lemma_sub_record_advances, segment_trace, sub_record_step, values_at, instance_dump_at, instance_values, instance_values_of, MAX_CLASS_DEPTH, classes_after, fields_at, prefixed, same_class, sub_record_end, sub_record_read, pow256, base_at, be_value, fits, header_at, header_len, id_at, ids_at, lemma_be_value_bound,
    lemma_pow256_le, lemma_pow256_values, magic, record_end, record_read, u4_at, uint_at, valid_id_size, value_at,
};
use crate::hprof_model::{
    is_type_tag, value_width, ClassInfo, DecodeError, FieldInfo, HeapDumpTag, RecordBase, RecordTag, Value, I4, U1, U2, U4, U8,
};
use crate::text::decode_lossy;

verus! {

/// Forward-only byte source with a queryable position.
pub struct InternalHprofReader {
    buf: Vec<u8>,
    pos: usize,
}

impl InternalHprofReader {
    /// The bytes of the source.
    pub closed spec fn data(&self) -> Seq<u8> {
        self.buf@
    }

    /// Offset of the next byte to read.
    pub closed spec fn pos(&self) -> int {
        self.pos as int
    }

    pub closed spec fn wf(&self) -> bool {
        self.pos <= self.buf.len()
    }

    pub fn new(b: Vec<u8>) -> (r: Self)
        ensures
            r.wf(),
            r.data() == b@,
            r.pos() == 0,
    {
        InternalHprofReader { buf: b, pos: 0 }
    }

    pub fn position(&self) -> (r: usize)
        requires
            self.wf(),
        ensures
            r == self.pos(),
    {
        self.pos
    }

    /// Whether every byte has been read.
    pub fn is_exhausted(&self) -> (r: bool)
        requires
            self.wf(),
        ensures
            r == (self.pos() >= self.data().len()),
    {
        self.pos >= self.buf.len()
    }

    /// Reads an `n`-byte big-endian unsigned integer.
    pub fn read_uint(&mut self, n: usize) -> (r: Result<u64, DecodeError>)
        requires
            old(self).wf(),
            1 <= n <= 8,
        ensures
            final(self).wf(),
            final(self).data() == old(self).data(),
            match r {
                Ok(v) => {
                    &&& fits(old(self).data(), old(self).pos(), n as int)
                    &&& v == uint_at(old(self).data(), old(self).pos(), n as int)
                    &&& v < pow256(n as nat)
                    &&& final(self).pos() == old(self).pos() + n
                },
                Err(e) => {
                    &&& !fits(old(self).data(), old(self).pos(), n as int)
                    &&& e == DecodeError::UnexpectedEof
                    &&& final(self).pos() == old(self).pos()
                },
            },
    {
        if n > self.buf.len() - self.pos {
            return Err(DecodeError::UnexpectedEof);
        }
        let start = self.pos;
        let mut v: u64 = 0;
        let mut i: usize = 0;
        while i < n
            invariant
                self.wf(),
                start == self.pos,
                1 <= n <= 8,
                i <= n,
                start + n <= self.buf.len(),
                v == be_value(self.buf@.subrange(start as int, start + i)),
            decreases n - i,
        {
            let ghost s = self.buf@.subrange(start as int, start + i + 1);
            proof {
                assert(s.drop_last() =~= self.buf@.subrange(start as int, start + i));
                lemma_be_value_bound(s.drop_last());
                lemma_pow256_le(i as nat);
            }
            let b = self.buf[start + i];
            v = v * 256 + b as u64;
            i = i + 1;
        }
        proof {
            assert(self.buf@.subrange(start as int, start + n) =~= self.buf@.subrange(start as int, start + i));
            lemma_be_value_bound(self.buf@.subrange(start as int, start + n));
        }
        self.pos = start + n;
        Ok(v)
    }

    /// Reads one identifier of width `w`, widened to 64 bits.
    pub fn read_identifier(&mut self, w: u32) -> (r: Result<u64, DecodeError>)
        requires
            old(self).wf(),
            valid_id_size(w),
        ensures
            final(self).wf(),
            final(self).data() == old(self).data(),
            match r {
                Ok(v) => {
                    &&& fits(old(self).data(), old(self).pos(), w as int)
                    &&& v == uint_at(old(self).data(), old(self).pos(), w as int)
                    &&& final(self).pos() == old(self).pos() + w
                },
                Err(e) => {
                    &&& !fits(old(self).data(), old(self).pos(), w as int)
                    &&& e == DecodeError::UnexpectedEof
                    &&& final(self).pos() == old(self).pos()
                },
            },
    {
        if w == 4 {
            self.read_uint(4)
        } else {
            self.read_uint(8)
        }
    }

    /// Reads one value of type `tag`.
    pub fn read_value(&mut self, w: u32, tag: u8) -> (r: Result<Value, DecodeError>)
        requires
            old(self).wf(),
            valid_id_size(w),
        ensures
            final(self).wf(),
            final(self).data() == old(self).data(),
            match value_at(old(self).data(), old(self).pos(), w, tag) {
                Ok((v, next)) => r == Ok::<Value, DecodeError>(v) && final(self).pos() == next,
                Err(e) => r == Err::<Value, DecodeError>(e) && final(self).pos() == old(self).pos(),
            },
    {
        let n: usize = if tag == 0x01 || tag == 0x02 {
            if w == 4 {
                4
            } else {
                8
            }
        } else if tag == 0x04 || tag == 0x08 {
            1
        } else if tag == 0x05 || tag == 0x09 {
            2
        } else if tag == 0x06 || tag == 0x0A {
            4
        } else if tag == 0x07 || tag == 0x0B {
            8
        } else {
            return Err(DecodeError::UnsupportedTypeTag(tag));
        };
        assert(is_type_tag(tag) && n == value_width(tag, w));
        let raw = match self.read_uint(n) {
            Ok(raw) => raw,
            Err(e) => return Err(e),
        };
        let v = if tag == 0x01 {
            Value::Array { object_id: raw }
        } else if tag == 0x02 {
            Value::Object { object_id: raw }
        } else if tag == 0x04 {
            Value::Boolean(raw != 0)
        } else if tag == 0x05 {
            Value::Char(raw as u16)
        } else if tag == 0x06 {
            Value::Float(raw as u32)
        } else if tag == 0x07 {
            Value::Double(raw)
        } else if tag == 0x08 {
            Value::Byte(raw as u8 as i8)
        } else if tag == 0x09 {
            Value::Short(raw as u16 as i16)
        } else if tag == 0x0A {
            Value::Int(raw as u32 as i32)
        } else {
            Value::Long(raw as i64)
        };
        Ok(v)
    }

    /// Reads the next `n` bytes as they stand.
    pub fn read_bytes(&mut self, n: usize) -> (r: Result<Vec<u8>, DecodeError>)
        requires
            old(self).wf(),
        ensures
            final(self).wf(),
            final(self).data() == old(self).data(),
            match r {
                Ok(b) => {
                    &&& fits(old(self).data(), old(self).pos(), n as int)
                    &&& b@ == old(self).data().subrange(old(self).pos(), old(self).pos() + n)
                    &&& final(self).pos() == old(self).pos() + n
                },
                Err(e) => {
                    &&& !fits(old(self).data(), old(self).pos(), n as int)
                    &&& e == DecodeError::UnexpectedEof
                    &&& final(self).pos() == old(self).pos()
                },
            },
    {
        if n > self.buf.len() - self.pos {
            return Err(DecodeError::UnexpectedEof);
        }
        let start = self.pos;
        let mut out: Vec<u8> = Vec::with_capacity(n);
        let mut i: usize = 0;
        while i < n
            invariant
                self.wf(),
                start == self.pos,
                i <= n,
                start + n <= self.buf.len(),
                out@ == self.buf@.subrange(start as int, start + i),
            decreases n - i,
        {
            out.push(self.buf[start + i]);
            i = i + 1;
            assert(out@ =~= self.buf@.subrange(start as int, start + i));
        }
        self.pos = start + n;
        Ok(out)
    }
}

/// A decoding session over one HPROF stream.
pub struct HprofReader {
    identifier_size: U4,
    timestamp: U8,
    reader: InternalHprofReader,
    name_cache: HashMap<U8, String>,
    class_cache: HashMap<U8, ClassInfo>,
}

impl HprofReader {
    /// Identifier width of the session.
    pub closed spec fn id_size(&self) -> u32 {
        self.identifier_size
    }

    /// Timestamp of the stream header.
    pub closed spec fn stamp(&self) -> u64 {
        self.timestamp
    }

    /// The whole input.
    pub closed spec fn bytes(&self) -> Seq<u8> {
        self.reader.data()
    }

    /// Offset of the next byte to decode.
    pub closed spec fn at(&self) -> int {
        self.reader.pos()
    }

    /// Strings seen so far, by identifier.
    pub closed spec fn names(&self) -> Map<u64, String> {
        self.name_cache@
    }

    /// Classes dumped so far, by identifier.
    pub closed spec fn classes(&self) -> Map<u64, ClassInfo> {
        self.class_cache@
    }

    pub closed spec fn wf(&self) -> bool {
        &&& self.reader.wf()
        &&& valid_id_size(self.identifier_size)
    }

    /// Whether `self` is `other` with only the position and caches moved on.
    pub open spec fn same_session(&self, other: HprofReader) -> bool {
        &&& self.wf()
        &&& self.id_size() == other.id_size()
        &&& self.stamp() == other.stamp()
        &&& self.bytes() == other.bytes()
    }

    pub proof fn lemma_wf(&self)
        requires
            self.wf(),
        ensures
            0 <= self.at() <= self.bytes().len(),
            valid_id_size(self.id_size()),
    {
    }

    /// Opens a session: checks the header and reads the identifier width and
    /// the timestamp.
    pub fn new(bytes: Vec<u8>) -> (r: Result<HprofReader, DecodeError>)
        ensures
            header_at(bytes@) is Err ==> r == Err::<HprofReader, DecodeError>(
                header_at(bytes@)->Err_0,
            ),
            header_at(bytes@) is Ok ==> (r matches Ok(s) && {
                &&& s.wf()
                &&& s.id_size() == header_at(bytes@)->Ok_0.0
                &&& s.stamp() == header_at(bytes@)->Ok_0.1
                &&& s.bytes() == bytes@
                &&& s.at() == header_len()
                &&& s.names() == Map::<u64, String>::empty()
                &&& s.classes() == Map::<u64, ClassInfo>::empty()
            }),
    {
        let ghost data = bytes@;
        let mut reader = InternalHprofReader::new(bytes);
        let head = reader.read_bytes(19)?;
        let expected: Vec<u8> = vec![
            0x4a, 0x41, 0x56, 0x41, 0x20, 0x50, 0x52, 0x4f, 0x46, 0x49, 0x4c, 0x45, 0x20, 0x31,
            0x2e, 0x30, 0x2e, 0x32, 0x00,
        ];
        assert(expected@ =~= magic());
        let mut i: usize = 0;
        while i < 19
            invariant
                head@.len() == 19,
                data.len() >= 19,
                data == bytes@,
                head@ == data.subrange(0, 19),
                expected@ == magic(),
                i <= 19,
                forall|j: int| 0 <= j < i ==> head@[j] == expected@[j],
            decreases 19 - i,
        {
            if head[i] != expected[i] {
                assert(data.subrange(0, 19)[i as int] != magic()[i as int]);
                return Err(DecodeError::InvalidHeader);
            }
            i = i + 1;
        }
        assert(head@ =~= magic());
        let raw_size = reader.read_uint(4)?;
        proof {
            lemma_pow256_values();
        }
        let identifier_size = raw_size as u32;
        let timestamp = reader.read_uint(8)?;
        if identifier_size != 4 && identifier_size != 8 {
            return Err(DecodeError::UnsupportedIdentifierSize(identifier_size));
        }
        Ok(HprofReader {
            identifier_size,
            timestamp,
            reader,
            name_cache: HashMap::new(),
            class_cache: HashMap::new(),
        })
    }

    /// Identifier width of the session (4 or 8).
    pub fn identifier_size(&self) -> (r: U4)
        ensures
            r == self.id_size(),
    {
        self.identifier_size
    }

    /// Timestamp of the stream header, in milliseconds since the epoch.
    pub fn timestamp(&self) -> (r: U8)
        ensures
            r == self.stamp(),
    {
        self.timestamp
    }

    /// Offset of the next byte to decode.
    pub fn position(&self) -> (r: usize)
        requires
            self.wf(),
        ensures
            r == self.at(),
    {
        self.reader.position()
    }

    /// The string recorded under identifier `id`, if any.
    pub fn name(&self, id: U8) -> (r: Option<&String>)
        ensures
            match r {
                Some(s) => self.names().contains_key(id) && *s == self.names()[id],
                None => !self.names().contains_key(id),
            },
    {
        broadcast use vstd::std_specs::hash::group_hash_axioms;
        self.name_cache.get(&id)
    }

    fn read_u1(&mut self) -> (r: Result<U1, DecodeError>)
        requires
            old(self).wf(),
        ensures
            final(self).same_session(*old(self)),
            final(self).names() == old(self).names(),
            final(self).classes() == old(self).classes(),
            match r {
                Ok(v) => {
                    &&& fits(old(self).bytes(), old(self).at(), 1)
                    &&& v == old(self).bytes()[old(self).at()]
                    &&& final(self).at() == old(self).at() + 1
                },
                Err(e) => {
                    &&& !fits(old(self).bytes(), old(self).at(), 1)
                    &&& e == DecodeError::UnexpectedEof
                    &&& final(self).at() == old(self).at()
                },
            },
    {
        let v = self.reader.read_uint(1)?;
        proof {
            let d = old(self).bytes();
            let p = old(self).at();
            let s = d.subrange(p, p + 1);
            assert(s.drop_last() =~= Seq::<u8>::empty());
            assert(be_value(s.drop_last()) == 0);
            assert(s.last() == d[p]);
            lemma_pow256_values();
        }
        Ok(v as u8)
    }

    fn read_u2(&mut self) -> (r: Result<U2, DecodeError>)
        requires
            old(self).wf(),
        ensures
            final(self).same_session(*old(self)),
            final(self).names() == old(self).names(),
            final(self).classes() == old(self).classes(),
            match r {
                Ok(v) => {
                    &&& fits(old(self).bytes(), old(self).at(), 2)
                    &&& v == uint_at(old(self).bytes(), old(self).at(), 2)
                    &&& final(self).at() == old(self).at() + 2
                },
                Err(e) => {
                    &&& !fits(old(self).bytes(), old(self).at(), 2)
                    &&& e == DecodeError::UnexpectedEof
                    &&& final(self).at() == old(self).at()
                },
            },
    {
        let v = self.reader.read_uint(2)?;
        proof {
            lemma_pow256_values();
        }
        Ok(v as u16)
    }

    fn read_u4(&mut self) -> (r: Result<U4, DecodeError>)
        requires
            old(self).wf(),
        ensures
            final(self).same_session(*old(self)),
            final(self).names() == old(self).names(),
            final(self).classes() == old(self).classes(),
            match r {
                Ok(v) => {
                    &&& fits(old(self).bytes(), old(self).at(), 4)
                    &&& v == u4_at(old(self).bytes(), old(self).at())
                    &&& final(self).at() == old(self).at() + 4
                },
                Err(e) => {
                    &&& !fits(old(self).bytes(), old(self).at(), 4)
                    &&& e == DecodeError::UnexpectedEof
                    &&& final(self).at() == old(self).at()
                },
            },
    {
        let v = self.reader.read_uint(4)?;
        proof {
            lemma_pow256_values();
        }
        Ok(v as u32)
    }

    fn read_identifier(&mut self) -> (r: Result<U8, DecodeError>)
        requires
            old(self).wf(),
        ensures
            final(self).same_session(*old(self)),
            final(self).names() == old(self).names(),
            final(self).classes() == old(self).classes(),
            match r {
                Ok(v) => {
                    &&& fits(old(self).bytes(), old(self).at(), old(self).id_size() as int)
                    &&& v == id_at(old(self).bytes(), old(self).at(), old(self).id_size())
                    &&& v == uint_at(old(self).bytes(), old(self).at(), old(self).id_size() as int)
                    &&& final(self).at() == old(self).at() + old(self).id_size()
                },
                Err(e) => {
                    &&& !fits(old(self).bytes(), old(self).at(), old(self).id_size() as int)
                    &&& e == DecodeError::UnexpectedEof
                    &&& final(self).at() == old(self).at()
                },
            },
    {
        self.reader.read_identifier(self.identifier_size)
    }
    /// Whether the record whose tag byte is at `p` was decoded as the format
    /// says: `r` is the outcome and `after` the session afterwards.
    pub open spec fn record_done(
        d: Seq<u8>,
        w: u32,
        p: int,
        after: HprofReader,
        r: Result<Option<RecordTag>, DecodeError>,
    ) -> bool {
        match record_end(d, w, p + 9, d[p], base_at(d, p).size_remaining) {
            Ok(q) => (r matches Ok(Some(rec)) && record_read(rec, d, w, p) && after.at() == q),
            Err(e) => r == Err::<Option<RecordTag>, DecodeError>(e),
        }
    }

    /// Whether `self` is about to read the body of a record with tag `tag`
    /// and base `base`.
    pub open spec fn at_body(&self, tag: u8, base: RecordBase) -> bool {
        &&& self.wf()
        &&& self.at() >= 9
        &&& self.bytes()[self.at() - 9] == tag
        &&& base == base_at(self.bytes(), self.at() - 9)
    }

    fn read_base(&mut self) -> (r: Result<RecordBase, DecodeError>)
        requires
            old(self).wf(),
            old(self).at() >= 1,
        ensures
            final(self).same_session(*old(self)),
            final(self).names() == old(self).names(),
            final(self).classes() == old(self).classes(),
            match r {
                Ok(base) => {
                    &&& fits(old(self).bytes(), old(self).at(), 8)
                    &&& base == base_at(old(self).bytes(), old(self).at() - 1)
                    &&& final(self).at() == old(self).at() + 8
                },
                Err(e) => !fits(old(self).bytes(), old(self).at(), 8) && e == DecodeError::UnexpectedEof,
            },
    {
        let micros = self.read_u4()?;
        let body_size = self.read_u4()?;
        Ok(RecordBase { micros_since: micros, size_remaining: body_size })
    }

    fn read_utf8(&mut self, base: RecordBase) -> (r: Result<Option<RecordTag>, DecodeError>)
        requires
            old(self).at_body(0x01, base),
        ensures
            final(self).same_session(*old(self)),
            final(self).classes() == old(self).classes(),
            HprofReader::record_done(old(self).bytes(), old(self).id_size(), old(self).at() - 9, *final(self), r),
            match r {
                Ok(Some(RecordTag::HprofUtf8 { id, utf8, .. })) => final(self).names() == old(
                    self,
                ).names().insert(id, utf8),
                _ => final(self).names() == old(self).names(),
            },
    {
        broadcast use vstd::std_specs::hash::group_hash_axioms;

        let id = self.read_identifier()?;
        if base.size_remaining < self.identifier_size {
            return Err(DecodeError::RecordTooShort(base.size_remaining));
        }
        let rem = base.size_remaining - self.identifier_size;
        let utf8 = self.reader.read_bytes(rem as usize)?;
        let string = decode_lossy(&utf8);
        self.name_cache.insert(id, string.clone());
        Ok(Some(RecordTag::HprofUtf8 { base, id, utf8: string }))
    }

    fn read_load_class(&mut self, base: RecordBase) -> (r: Result<Option<RecordTag>, DecodeError>)
        requires
            old(self).at_body(0x02, base),
        ensures
            final(self).same_session(*old(self)),
            final(self).names() == old(self).names(),
            final(self).classes() == old(self).classes(),
            HprofReader::record_done(old(self).bytes(), old(self).id_size(), old(self).at() - 9, *final(self), r),
    {
        let class_serial_number = self.read_u4()?;
        let class_object_id = self.read_identifier()?;
        let stack_trace_serial_number = self.read_u4()?;
        let class_name_id = self.read_identifier()?;
        Ok(
            Some(RecordTag::HprofLoadClass {
                base,
                class_serial_number,
                class_object_id,
                stack_trace_serial_number,
                class_name_id,
            }),
        )
    }

    fn read_frame(&mut self, base: RecordBase) -> (r: Result<Option<RecordTag>, DecodeError>)
        requires
            old(self).at_body(0x04, base),
        ensures
            final(self).same_session(*old(self)),
            final(self).names() == old(self).names(),
            final(self).classes() == old(self).classes(),
            HprofReader::record_done(old(self).bytes(), old(self).id_size(), old(self).at() - 9, *final(self), r),
    {
        let stack_frame_id = self.read_identifier()?;
        let method_name_id = self.read_identifier()?;
        let method_signature_id = self.read_identifier()?;
        let source_file_name_id = self.read_identifier()?;
        let class_serial_numer = self.read_u4()?;
        let line_number = self.read_u4()? as I4;
        Ok(
            Some(RecordTag::HprofFrame {
                base,
                stack_frame_id,
                method_name_id,
                method_signature_id,
                source_file_name_id,
                class_serial_numer,
                line_number,
            }),
        )
    }

    fn read_trace(&mut self, base: RecordBase) -> (r: Result<Option<RecordTag>, DecodeError>)
        requires
            old(self).at_body(0x05, base),
        ensures
            final(self).same_session(*old(self)),
            final(self).names() == old(self).names(),
            final(self).classes() == old(self).classes(),
            HprofReader::record_done(old(self).bytes(), old(self).id_size(), old(self).at() - 9, *final(self), r),
    {
        let ghost d = self.bytes();
        let ghost b = self.at();
        let ghost w = self.id_size();
        let stack_trace_serial_number = self.read_u4()?;
        let thread_serial_number = self.read_u4()?;
        let number_of_frames = self.read_u4()?;
        proof {
            lemma_pow256_values();
            lemma_be_value_bound(d.subrange(b + 8, b + 12));
        }
        let mut stack_frame_ids: Vec<U8> = Vec::new();
        let mut i: u32 = 0;
        while i < number_of_frames
            invariant
                self.same_session(*old(self)),
                self.names() == old(self).names(),
                self.classes() == old(self).classes(),
                d == self.bytes(),
                w == self.id_size(),
                b == old(self).at(),
                b >= 9,
                d[b - 9] == 0x05,
                number_of_frames == uint_at(d, b + 8, 4),
                fits(d, b, 12),
                i <= number_of_frames,
                self.at() == b + 12 + i * w,
                stack_frame_ids@ == ids_at(d, w, b + 12, i as nat),
            decreases number_of_frames - i,
        {
            let id = match self.read_identifier() {
                Ok(id) => id,
                Err(e) => {
                    assert(i * w + w <= number_of_frames * w) by (nonlinear_arith)
                        requires
                            i < number_of_frames,
                            w >= 0,
                    ;
                    return Err(e);
                },
            };
            stack_frame_ids.push(id);
            assert(stack_frame_ids@ =~= ids_at(d, w, b + 12, (i + 1) as nat));
            i = i + 1;
            assert(self.at() == b + 12 + i * w) by (nonlinear_arith)
                requires
                    self.at() == b + 12 + (i - 1) * w + w,
            ;
        }
        Ok(
            Some(RecordTag::HprofTrace {
                base,
                stack_trace_serial_number,
                thread_serial_number,
                stack_frame_ids,
            }),
        )
    }

    fn read_heap_dump_end(&self, base: RecordBase) -> (r: Result<Option<RecordTag>, DecodeError>)
        requires
            self.at_body(0x2C, base),
        ensures
            HprofReader::record_done(self.bytes(), self.id_size(), self.at() - 9, *self, r),
    {
        if base.size_remaining != 0 {
            return Err(DecodeError::NonEmptyHeapDumpEnd(base.size_remaining));
        }
        Ok(Some(RecordTag::HprofHeapDumpEnd))
    }
    /// Whether `self` has just read the tag byte `tag` of a sub-record.
    pub open spec fn at_sub(&self, tag: u8) -> bool {
        &&& self.wf()
        &&& self.at() >= 1
        &&& self.bytes()[self.at() - 1] == tag
    }

    /// Whether a sub-record reader that started just after the tag byte did
    /// what the format says.
    pub open spec fn sub_record_done(
        before: HprofReader,
        after: HprofReader,
        r: Result<HeapDumpTag, DecodeError>,
    ) -> bool {
        let d = before.bytes();
        let w = before.id_size();
        let p = before.at() - 1;
        match sub_record_end(before.classes(), d, w, p) {
            Ok(q) => (r matches Ok(t) && {
                &&& sub_record_read(t, before.classes(), d, w, p)
                &&& after.at() == q
                &&& classes_after(before.classes(), t, after.classes())
            }),
            Err(e) => r == Err::<HeapDumpTag, DecodeError>(e),
        }
    }

    fn read_fields(&mut self, field_count: U2, with_value: bool) -> (r: Result<Vec<FieldInfo>, DecodeError>)
        requires
            old(self).wf(),
        ensures
            final(self).same_session(*old(self)),
            final(self).names() == old(self).names(),
            final(self).classes() == old(self).classes(),
            match fields_at(old(self).bytes(), old(self).id_size(), old(self).at(), field_count as nat, with_value) {
                Ok((fs, q)) => (r matches Ok(v) && v@ == fs && final(self).at() == q),
                Err(e) => r == Err::<Vec<FieldInfo>, DecodeError>(e),
            },
    {
        let ghost d = self.bytes();
        let ghost w = self.id_size();
        let ghost p = self.at();
        let mut fields: Vec<FieldInfo> = Vec::new();
        let mut i: u16 = 0;
        while i < field_count
            invariant
                self.same_session(*old(self)),
                self.names() == old(self).names(),
                self.classes() == old(self).classes(),
                d == self.bytes(),
                w == self.id_size(),
                p == old(self).at(),
                i <= field_count,
                fields_at(d, w, p, field_count as nat, with_value) == prefixed(
                    fields@,
                    fields_at(d, w, self.at(), (field_count - i) as nat, with_value),
                ),
            decreases field_count - i,
        {
            let name_id = self.read_identifier()?;
            let type_tag = self.read_u1()?;
            let value = if with_value {
                Some(self.reader.read_value(self.identifier_size, type_tag)?)
            } else {
                None
            };
            let ghost before = fields@;
            fields.push(FieldInfo { name_id, type_tag, value });
            proof {
                let rest = fields_at(d, w, self.at(), (field_count - i - 1) as nat, with_value);
                assert(fields@ =~= before + seq![FieldInfo { name_id, type_tag, value }]);
                match rest {
                    Ok((tail, stop)) => {
                        assert(before + (seq![FieldInfo { name_id, type_tag, value }] + tail)
                            =~= fields@ + tail);
                    },
                    Err(_) => {},
                }
            }
            i = i + 1;
        }
        proof {
            assert(fields@ + Seq::<FieldInfo>::empty() =~= fields@);
        }
        Ok(fields)
    }

    fn read_gc_class_dump(&mut self) -> (r: Result<HeapDumpTag, DecodeError>)
        requires
            old(self).at_sub(0x20),
        ensures
            final(self).same_session(*old(self)),
            final(self).names() == old(self).names(),
            HprofReader::sub_record_done(*old(self), *final(self), r),
    {
        broadcast use vstd::std_specs::hash::group_hash_axioms;

        let class_object_id = self.read_identifier()?;
        let stack_trace_serial_number = self.read_u4()?;
        let super_class_object_id = self.read_identifier()?;
        let class_loader_object_id = self.read_identifier()?;
        let signers_object_id = self.read_identifier()?;
        let protection_domain_object_id = self.read_identifier()?;
        let _ = self.read_identifier()?;
        let _ = self.read_identifier()?;
        let instance_size = self.read_u4()?;
        let constant_pool_size = self.read_u2()?;
        if constant_pool_size != 0 {
            return Err(DecodeError::ConstantPoolNotSupported(constant_pool_size));
        }
        let static_fields_count = self.read_u2()?;
        let static_fields = self.read_fields(static_fields_count, true)?;
        let instance_field_count = self.read_u2()?;
        let instance_fields = self.read_fields(instance_field_count, false)?;
        let class_dump = ClassInfo {
            class_object_id,
            stack_trace_serial_number,
            super_class_object_id,
            class_loader_object_id,
            signers_object_id,
            protection_domain_object_id,
            instance_size,
            static_fields,
            instance_fields,
        };
        let cached = copy_class(&class_dump);
        self.class_cache.insert(class_object_id, cached);
        Ok(HeapDumpTag::HprofGcClassDump(class_dump))
    }
    fn read_gc_instance_dump(&mut self) -> (r: Result<HeapDumpTag, DecodeError>)
        requires
            old(self).at_sub(0x21),
        ensures
            final(self).same_session(*old(self)),
            final(self).names() == old(self).names(),
            HprofReader::sub_record_done(*old(self), *final(self), r),
    {
        broadcast use vstd::std_specs::hash::group_hash_axioms;

        let ghost d = self.bytes();
        let ghost w = self.id_size();
        let ghost classes = self.classes();
        let ghost b = self.at();
        let object_id = self.read_identifier()?;
        let stack_trace_serial_number = self.read_u4()?;
        let class_object_id = self.read_identifier()?;
        let byte_count = self.read_u4()?;
        let start = self.reader.position();
        let until: u128 = start as u128 + byte_count as u128;
        let ghost end = until as int;
        let (mut fields, mut sup) = match self.class_cache.get(&class_object_id) {
            Some(c) => (copy_fields(&c.instance_fields), c.super_class_object_id),
            None => return Err(DecodeError::MissingClass(class_object_id)),
        };
        proof {
            lemma_pow256_values();
            lemma_be_value_bound(d.subrange(b + 2 * w + 4, b + 2 * w + 8));
            assert(instance_dump_at(classes, d, w, b) == instance_values_of(
                classes,
                d,
                w,
                start as int,
                end,
                class_object_id,
            ));
        }
        let mut idx: usize = 0;
        let mut depth: u64 = 0;
        let mut values: Vec<Value> = Vec::new();
        assert(fields@.skip(0) =~= fields@);
        while (self.reader.position() as u128) < until
            invariant
                self.same_session(*old(self)),
                self.names() == old(self).names(),
                self.classes() == classes,
                classes == old(self).classes(),
                d == self.bytes(),
                w == self.id_size(),
                idx <= fields@.len(),
                depth <= MAX_CLASS_DEPTH,
                end == until,
                b == old(self).at(),
                b >= 1,
                d[b - 1] == 0x21,
                fits(d, b, 2 * w + 8),
                object_id == id_at(d, b, w),
                stack_trace_serial_number == u4_at(d, b + w),
                class_object_id == id_at(d, b + w + 4, w),
                instance_dump_at(classes, d, w, b) == instance_values_of(
                    classes,
                    d,
                    w,
                    start as int,
                    end,
                    class_object_id,
                ),
                instance_values_of(classes, d, w, start as int, end, class_object_id) == prefixed(
                    values@,
                    instance_values(classes, d, w, self.at(), end, fields@.skip(idx as int), sup, depth as nat),
                ),
            decreases (if self.at() < end { end - self.at() } else { 0 }), MAX_CLASS_DEPTH - depth,
                fields@.len() - idx,
        {
            if idx < fields.len() {
                let tag = fields[idx].type_tag;
                assert(fields@.skip(idx as int)[0] == fields@[idx as int]);
                let v = self.reader.read_value(self.identifier_size, tag)?;
                let ghost before = values@;
                values.push(v);
                proof {
                    assert(fields@.skip(idx as int).drop_first() =~= fields@.skip(idx + 1));
                    let rest = instance_values(classes, d, w, self.at(), end, fields@.skip(idx + 1), sup, depth as nat);
                    match rest {
                        Ok((tail, stop)) => {
                            assert(before + (seq![v] + tail) =~= values@ + tail);
                        },
                        Err(_) => {},
                    }
                }
                idx = idx + 1;
            } else {
                let (next_fields, next_sup) = match self.class_cache.get(&sup) {
                    Some(c) => (copy_fields(&c.instance_fields), c.super_class_object_id),
                    None => return Err(DecodeError::MissingClass(sup)),
                };
                if depth >= MAX_CLASS_DEPTH {
                    return Err(DecodeError::ClassChainTooDeep(sup));
                }
                fields = next_fields;
                sup = next_sup;
                idx = 0;
                depth = depth + 1;
                assert(fields@.skip(0) =~= fields@);
            }
        }
        assert(values@ + seq![] =~= values@);
        Ok(
            HeapDumpTag::HprofGcInstanceDump {
                object_id,
                stack_trace_serial_number,
                class_object_id,
                instance_field_values: values,
            },
        )
    }
    fn read_gc_obj_array_dump(&mut self) -> (r: Result<HeapDumpTag, DecodeError>)
        requires
            old(self).at_sub(0x22),
        ensures
            final(self).same_session(*old(self)),
            final(self).names() == old(self).names(),
            HprofReader::sub_record_done(*old(self), *final(self), r),
    {
        let ghost d = self.bytes();
        let ghost w = self.id_size();
        let ghost b = self.at();
        let array_object_id = self.read_identifier()?;
        let stack_trace_serial_number = self.read_u4()?;
        let element_count = self.read_u4()?;
        let array_class_id = self.read_identifier()?;
        proof {
            lemma_pow256_values();
            lemma_be_value_bound(d.subrange(b + w + 4, b + w + 8));
        }
        let mut elements: Vec<U8> = Vec::new();
        let mut i: u32 = 0;
        while i < element_count
            invariant
                self.same_session(*old(self)),
                self.names() == old(self).names(),
                self.classes() == old(self).classes(),
                d == self.bytes(),
                w == self.id_size(),
                b == old(self).at(),
                b >= 1,
                d[b - 1] == 0x22,
                fits(d, b, 2 * w + 8),
                array_object_id == id_at(d, b, w),
                stack_trace_serial_number == u4_at(d, b + w),
                array_class_id == id_at(d, b + w + 8, w),
                element_count == uint_at(d, b + w + 4, 4),
                i <= element_count,
                self.at() == b + 2 * w + 8 + i * w,
                elements@ == ids_at(d, w, b + 2 * w + 8, i as nat),
            decreases element_count - i,
        {
            let id = match self.read_identifier() {
                Ok(id) => id,
                Err(e) => {
                    assert(i * w + w <= element_count * w) by (nonlinear_arith)
                        requires
                            i < element_count,
                            w >= 0,
                    ;
                    return Err(e);
                },
            };
            elements.push(id);
            assert(elements@ =~= ids_at(d, w, b + 2 * w + 8, (i + 1) as nat));
            i = i + 1;
            assert(self.at() == b + 2 * w + 8 + i * w) by (nonlinear_arith)
                requires
                    self.at() == b + 2 * w + 8 + (i - 1) * w + w,
            ;
        }
        Ok(
            HeapDumpTag::HprofGcObjArrayDump {
                array_object_id,
                stack_trace_serial_number,
                array_class_id,
                elements,
            },
        )
    }

    fn read_gc_prim_array_dump(&mut self) -> (r: Result<HeapDumpTag, DecodeError>)
        requires
            old(self).at_sub(0x23),
        ensures
            final(self).same_session(*old(self)),
            final(self).names() == old(self).names(),
            HprofReader::sub_record_done(*old(self), *final(self), r),
    {
        let ghost d = self.bytes();
        let ghost w = self.id_size();
        let ghost b = self.at();
        let array_object_id = self.read_identifier()?;
        let stack_trace_serial_number = self.read_u4()?;
        let element_count = self.read_u4()?;
        let type_tag = self.read_u1()?;
        let ghost width = value_width(type_tag, w);
        proof {
            lemma_pow256_values();
            lemma_be_value_bound(d.subrange(b + w + 4, b + w + 8));
        }
        let mut elements: Vec<Value> = Vec::new();
        let mut i: u32 = 0;
        while i < element_count
            invariant
                self.same_session(*old(self)),
                self.names() == old(self).names(),
                self.classes() == old(self).classes(),
                d == self.bytes(),
                w == self.id_size(),
                b == old(self).at(),
                b >= 1,
                d[b - 1] == 0x23,
                fits(d, b, w + 9),
                type_tag == d[b + w + 8],
                width == value_width(type_tag, w),
                array_object_id == id_at(d, b, w),
                stack_trace_serial_number == u4_at(d, b + w),
                element_count == uint_at(d, b + w + 4, 4),
                i <= element_count,
                i > 0 ==> is_type_tag(type_tag),
                self.at() == b + w + 9 + i * width,
                elements@ == values_at(d, w, b + w + 9, i as nat, type_tag),
            decreases element_count - i,
        {
            let v = match self.reader.read_value(self.identifier_size, type_tag) {
                Ok(v) => v,
                Err(e) => {
                    assert(i * width + width <= element_count * width) by (nonlinear_arith)
                        requires
                            i < element_count,
                            width >= 0,
                    ;
                    return Err(e);
                },
            };
            elements.push(v);
            assert(elements@ =~= values_at(d, w, b + w + 9, (i + 1) as nat, type_tag));
            i = i + 1;
            assert(self.at() == b + w + 9 + i * width) by (nonlinear_arith)
                requires
                    self.at() == b + w + 9 + (i - 1) * width + width,
            ;
        }
        Ok(HeapDumpTag::HprofGcPrimArrayDump { array_object_id, stack_trace_serial_number, elements })
    }

    fn read_gc_root_thread_obj(&mut self) -> (r: Result<HeapDumpTag, DecodeError>)
        requires
            old(self).at_sub(0x08),
        ensures
            final(self).same_session(*old(self)),
            final(self).names() == old(self).names(),
            HprofReader::sub_record_done(*old(self), *final(self), r),
    {
        let thread_object_id = self.read_identifier()?;
        let thread_sequence_number = self.read_u4()?;
        let stack_trace_sequence_number = self.read_u4()?;
        Ok(
            HeapDumpTag::HprofGcRootThreadObj {
                thread_object_id,
                thread_sequence_number,
                stack_trace_sequence_number,
            },
        )
    }

    fn read_gc_root_java_frame(&mut self) -> (r: Result<HeapDumpTag, DecodeError>)
        requires
            old(self).at_sub(0x03),
        ensures
            final(self).same_session(*old(self)),
            final(self).names() == old(self).names(),
            HprofReader::sub_record_done(*old(self), *final(self), r),
    {
        let object_id = self.read_identifier()?;
        let thread_serial_number = self.read_u4()?;
        let frame_number = self.read_u4()?;
        Ok(HeapDumpTag::HprofGcRootJavaFrame { object_id, thread_serial_number, frame_number })
    }

    fn read_gc_root_jni_local(&mut self) -> (r: Result<HeapDumpTag, DecodeError>)
        requires
            old(self).at_sub(0x02),
        ensures
            final(self).same_session(*old(self)),
            final(self).names() == old(self).names(),
            HprofReader::sub_record_done(*old(self), *final(self), r),
    {
        let object_id = self.read_identifier()?;
        let thread_serial_number = self.read_u4()?;
        let frame_number = self.read_u4()?;
        Ok(HeapDumpTag::HprofGcRootJniLocal { object_id, thread_serial_number, frame_number })
    }

    fn read_gc_root_jni_global(&mut self) -> (r: Result<HeapDumpTag, DecodeError>)
        requires
            old(self).at_sub(0x01),
        ensures
            final(self).same_session(*old(self)),
            final(self).names() == old(self).names(),
            HprofReader::sub_record_done(*old(self), *final(self), r),
    {
        let object_id = self.read_identifier()?;
        let jni_global_ref_id = self.read_identifier()?;
        Ok(HeapDumpTag::HprofGcRootJniGlobal { object_id, jni_global_ref_id })
    }

    fn read_gc_root_sticky_class(&mut self) -> (r: Result<HeapDumpTag, DecodeError>)
        requires
            old(self).at_sub(0x05),
        ensures
            final(self).same_session(*old(self)),
            final(self).names() == old(self).names(),
            HprofReader::sub_record_done(*old(self), *final(self), r),
    {
        let object_id = self.read_identifier()?;
        Ok(HeapDumpTag::HprofGcRootStickyClass { object_id })
    }
    /// Whether `r` and `after` are what decoding the heap-dump segment whose
    /// body starts at `start` gives, starting from the class cache `classes`.
    pub open spec fn segment_done(
        d: Seq<u8>,
        w: u32,
        start: int,
        classes: Map<u64, ClassInfo>,
        after: HprofReader,
        r: Result<Option<RecordTag>, DecodeError>,
    ) -> bool {
        let end = start + base_at(d, start - 9).size_remaining;
        exists|ts: Seq<HeapDumpTag>, ps: Seq<int>, cs: Seq<Map<u64, ClassInfo>>|
            #[trigger] segment_trace(ts, ps, cs, d, w, start, end, classes) && match r {
                Ok(Some(RecordTag::HprofHeapDumpSegment { base, sub_records })) => {
                    &&& base == base_at(d, start - 9)
                    &&& sub_records@ == ts
                    &&& ps.last() >= end
                    &&& after.at() == ps.last()
                    &&& after.classes() == cs.last()
                },
                Ok(_) => false,
                Err(e) => ps.last() < end && sub_record_end(cs.last(), d, w, ps.last()) == Err::<
                    int,
                    DecodeError,
                >(e),
            }
    }

    /// What one call of `next` does, from session `before` to session `after`.
    pub open spec fn next_done(
        before: HprofReader,
        after: HprofReader,
        r: Result<Option<RecordTag>, DecodeError>,
    ) -> bool {
        let d = before.bytes();
        let w = before.id_size();
        let p = before.at();
        &&& after.same_session(before)
        &&& if p >= d.len() {
            r == Ok::<Option<RecordTag>, DecodeError>(None) && after == before
        } else if !fits(d, p, 9) {
            r == Err::<Option<RecordTag>, DecodeError>(DecodeError::UnexpectedEof)
        } else if d[p] == 0x1C {
            &&& after.names() == before.names()
            &&& HprofReader::segment_done(d, w, p + 9, before.classes(), after, r)
        } else {
            &&& after.classes() == before.classes()
            &&& HprofReader::record_done(d, w, p, after, r)
            &&& match r {
                Ok(Some(RecordTag::HprofUtf8 { id, utf8, .. })) => after.names() == before.names().insert(
                    id,
                    utf8,
                ),
                _ => after.names() == before.names(),
            }
        }
    }

    fn read_sub_record(&mut self) -> (r: Result<HeapDumpTag, DecodeError>)
        requires
            old(self).wf(),
        ensures
            final(self).same_session(*old(self)),
            final(self).names() == old(self).names(),
            match sub_record_end(old(self).classes(), old(self).bytes(), old(self).id_size(), old(self).at()) {
                Ok(q) => (r matches Ok(t) && sub_record_step(
                    t,
                    old(self).classes(),
                    old(self).bytes(),
                    old(self).id_size(),
                    old(self).at(),
                    final(self).classes(),
                    q,
                ) && final(self).at() == q),
                Err(e) => r == Err::<HeapDumpTag, DecodeError>(e),
            },
    {
        let id = self.read_u1()?;
        match id {
            0x01 => self.read_gc_root_jni_global(),
            0x02 => self.read_gc_root_jni_local(),
            0x03 => self.read_gc_root_java_frame(),
            0x04 => Ok(HeapDumpTag::HprofGcRootNativeStack),
            0x05 => self.read_gc_root_sticky_class(),
            0x06 => Ok(HeapDumpTag::HprofGcRootThreadBlock),
            0x07 => Ok(HeapDumpTag::HprofGcRootMonitorUsed),
            0x08 => self.read_gc_root_thread_obj(),
            0x20 => self.read_gc_class_dump(),
            0x21 => self.read_gc_instance_dump(),
            0x22 => self.read_gc_obj_array_dump(),
            0x23 => self.read_gc_prim_array_dump(),
            0xFF => Ok(HeapDumpTag::HprofGcRootUnknown),
            _ => Err(DecodeError::UnsupportedSubRecordTag(id)),
        }
    }

    fn read_heap_dump_segment(&mut self, base: RecordBase) -> (r: Result<Option<RecordTag>, DecodeError>)
        requires
            old(self).at_body(0x1C, base),
        ensures
            final(self).same_session(*old(self)),
            final(self).names() == old(self).names(),
            HprofReader::segment_done(
                old(self).bytes(),
                old(self).id_size(),
                old(self).at(),
                old(self).classes(),
                *final(self),
                r,
            ),
    {
        let ghost d = self.bytes();
        let ghost w = self.id_size();
        let ghost classes = self.classes();
        let start = self.reader.position();
        let end: u128 = start as u128 + base.size_remaining as u128;
        let ghost e = end as int;
        let mut sub_records: Vec<HeapDumpTag> = Vec::new();
        let ghost mut ps: Seq<int> = seq![start as int];
        let ghost mut cs: Seq<Map<u64, ClassInfo>> = seq![classes];
        while (self.reader.position() as u128) < end
            invariant
                self.same_session(*old(self)),
                self.names() == old(self).names(),
                d == self.bytes(),
                w == self.id_size(),
                classes == old(self).classes(),
                start == old(self).at(),
                e == end,
                e == start + base_at(d, start - 9).size_remaining,
                base == base_at(d, start - 9),
                segment_trace(sub_records@, ps, cs, d, w, start as int, e, classes),
                ps.last() == self.at(),
                cs.last() == self.classes(),
            decreases (if self.at() < e { e - self.at() } else { 0 }),
        {
            let ghost p = self.at();
            let ghost c = self.classes();
            proof {
                lemma_sub_record_advances(c, d, w, p);
            }
            let t = self.read_sub_record()?;
            let ghost ts0 = sub_records@;
            let ghost ps0 = ps;
            let ghost cs0 = cs;
            sub_records.push(t);
            proof {
                lemma_segment_trace_push(ts0, ps0, cs0, d, w, start as int, e, classes, t, self.classes(), self.at());
                ps = ps0.push(self.at());
                cs = cs0.push(self.classes());
                assert(sub_records@ == ts0.push(t));
            }
        }
        assert(segment_trace(sub_records@, ps, cs, d, w, start as int, e, classes));
        Ok(Some(RecordTag::HprofHeapDumpSegment { base, sub_records }))
    }

    fn read_next(&mut self) -> (r: Result<Option<RecordTag>, DecodeError>)
        requires
            old(self).wf(),
        ensures
            HprofReader::next_done(*old(self), *final(self), r),
    {
        if self.reader.is_exhausted() {
            return Ok(None);
        }
        let tag = self.read_u1()?;
        let base = self.read_base()?;
        match tag {
            0x01 => self.read_utf8(base),
            0x02 => self.read_load_class(base),
            0x04 => self.read_frame(base),
            0x05 => self.read_trace(base),
            0x1C => self.read_heap_dump_segment(base),
            0x2C => self.read_heap_dump_end(base),
            _ => Err(DecodeError::UnsupportedRecordTag(tag)),
        }
    }

    /// Decodes the next record: `Ok(None)` once the input is used up, and
    /// again on every later call.
    pub fn next(&mut self) -> (r: Result<Option<RecordTag>, DecodeError>)
        requires
            old(self).wf(),
        ensures
            HprofReader::next_done(*old(self), *final(self), r),
    {
        self.read_next()
    }
}

fn copy_fields(v: &Vec<FieldInfo>) -> (r: Vec<FieldInfo>)
    ensures
        r@ == v@,
{
    let mut out: Vec<FieldInfo> = Vec::new();
    let mut i: usize = 0;
    while i < v.len()
        invariant
            i <= v.len(),
            out@ == v@.subrange(0, i as int),
        decreases v.len() - i,
    {
        out.push(v[i]);
        i = i + 1;
        assert(out@ =~= v@.subrange(0, i as int));
    }
    assert(v@.subrange(0, v@.len() as int) =~= v@);
    out
}

fn copy_class(c: &ClassInfo) -> (r: ClassInfo)
    ensures
        same_class(r, *c),
{
    ClassInfo {
        class_object_id: c.class_object_id,
        stack_trace_serial_number: c.stack_trace_serial_number,
        super_class_object_id: c.super_class_object_id,
        class_loader_object_id: c.class_loader_object_id,
        signers_object_id: c.signers_object_id,
        protection_domain_object_id: c.protection_domain_object_id,
        instance_size: c.instance_size,
        static_fields: copy_fields(&c.static_fields),
        instance_fields: copy_fields(&c.instance_fields),
    }
}

} // verus!