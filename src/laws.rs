//! Properties of the decoder, stated over the contracts of its functions.
use vstd::prelude::*;
use vstd::utf8::{decode_utf8, encode_utf8, encode_utf8_decode_utf8, encode_utf8_valid_utf8};
use crate::format::{
    field_values, fields_width, fits, header_at, id_at, instance_values, instance_values_of,
    known_types, lemma_fields_width_nonneg, lemma_instance_values_through, magic, u4_at,
    valid_id_size, MAX_CLASS_DEPTH,
};
use crate::hprof_model::{is_type_tag, value_width, ClassInfo, DecodeError, FieldInfo, RecordTag, Value};
use crate::reader::HprofReader;

verus! {

/// The type tag that selects each kind of value.
pub open spec fn value_tag(v: Value) -> u8 {
    match v {
        Value::Array { .. } => 0x01,
        Value::Object { .. } => 0x02,
        Value::Boolean(_) => 0x04,
        Value::Char(_) => 0x05,
        Value::Float(_) => 0x06,
        Value::Double(_) => 0x07,
        Value::Byte(_) => 0x08,
        Value::Short(_) => 0x09,
        Value::Int(_) => 0x0A,
        Value::Long(_) => 0x0B,
    }
}

/// A stream whose first 19 bytes are anything but the HPROF header is refused
/// as invalid input; one that starts with the header and declares 8-byte
/// identifiers opens a session with identifier width 8.
pub proof fn header_validation(data: Seq<u8>)
    ensures
        data.len() >= 19 && data.subrange(0, 19) != magic() ==> header_at(data) == Err::<
            (u32, u64),
            DecodeError,
        >(DecodeError::InvalidHeader),
        data.len() >= 31 && data.subrange(0, 19) == magic() && u4_at(data, 19) == 8 ==> (header_at(
            data,
        ) matches Ok((w, _)) && w == 8),
{
}

/// The identifier width of a session never changes: every identifier that
/// two successive pulls read has the width the header declared.
pub proof fn identifier_width_fixed(
    a: HprofReader,
    b: HprofReader,
    c: HprofReader,
    r1: Result<Option<RecordTag>, DecodeError>,
    r2: Result<Option<RecordTag>, DecodeError>,
)
    requires
        HprofReader::next_done(a, b, r1),
        HprofReader::next_done(b, c, r2),
    ensures
        c.id_size() == a.id_size(),
        valid_id_size(c.id_size()),
{
    c.lemma_wf();
}

/// A string record with 8-byte identifiers, body size `8 + len(s)` and the
/// UTF-8 encoding of `s` as its text decodes to exactly its identifier and
/// `s`, and the name cache then maps the identifier to `s`.
pub proof fn utf8_round_trip(
    before: HprofReader,
    after: HprofReader,
    r: Result<Option<RecordTag>, DecodeError>,
    id: u64,
    s: Seq<char>,
)
    requires
        before.wf(),
        before.id_size() == 8,
        fits(before.bytes(), before.at(), 17 + encode_utf8(s).len() as int),
        before.bytes()[before.at()] == 0x01,
        u4_at(before.bytes(), before.at() + 5) == 8 + encode_utf8(s).len(),
        id_at(before.bytes(), before.at() + 9, 8) == id,
        before.bytes().subrange(before.at() + 17, before.at() + 17 + encode_utf8(s).len())
            == encode_utf8(s),
        HprofReader::next_done(before, after, r),
    ensures
        r matches Ok(Some(RecordTag::HprofUtf8 { id: i, utf8, .. })) && i == id && utf8@ == s,
        after.names().contains_key(id),
        after.names()[id]@ == s,
{
    encode_utf8_valid_utf8(s);
    encode_utf8_decode_utf8(s);
    assert(decode_utf8(encode_utf8(s)) == s);
}

/// An instance of a class that was never dumped fails with a missing-class
/// error. Once the class is cached with instance fields of known types, an
/// instance whose values region holds exactly one value per field decodes to
/// one value per field, in field order, each of the kind its tag names.
pub proof fn class_before_instance(
    classes: Map<u64, ClassInfo>,
    data: Seq<u8>,
    w: u32,
    pos: int,
    end: int,
    class_id: u64,
)
    requires
        valid_id_size(w),
    ensures
        !classes.contains_key(class_id) ==> instance_values_of(classes, data, w, pos, end, class_id)
            == Err::<(Seq<Value>, int), DecodeError>(DecodeError::MissingClass(class_id)),
        ({
            let fields = classes[class_id].instance_fields@;
            classes.contains_key(class_id) && known_types(fields) && fits(
                data,
                pos,
                fields_width(fields, w),
            ) && end == pos + fields_width(fields, w) ==> {
                &&& instance_values_of(classes, data, w, pos, end, class_id) == Ok::<
                    (Seq<Value>, int),
                    DecodeError,
                >((field_values(data, w, pos, fields), end))
                &&& field_values(data, w, pos, fields).len() == fields.len()
                &&& forall|i: int|
                    0 <= i < fields.len() ==> value_tag(#[trigger] field_values(data, w, pos, fields)[i])
                        == fields[i].type_tag
            }
        }),
{
    let fields = classes[class_id].instance_fields@;
    if classes.contains_key(class_id) && known_types(fields) && fits(data, pos, fields_width(fields, w))
        && end == pos + fields_width(fields, w) {
        lemma_instance_values_through(
            classes,
            data,
            w,
            pos,
            end,
            fields,
            classes[class_id].super_class_object_id,
            0,
        );
        assert(field_values(data, w, pos, fields) + Seq::<Value>::empty() =~= field_values(
            data,
            w,
            pos,
            fields,
        ));
        lemma_field_values_kinds(data, w, pos, fields);
    }
}

proof fn lemma_field_values_kinds(data: Seq<u8>, w: u32, pos: int, fields: Seq<FieldInfo>)
    requires
        known_types(fields),
    ensures
        field_values(data, w, pos, fields).len() == fields.len(),
        forall|i: int|
            0 <= i < fields.len() ==> value_tag(#[trigger] field_values(data, w, pos, fields)[i])
                == fields[i].type_tag,
    decreases fields.len(),
{
    if fields.len() > 0 {
        let n = value_width(fields[0].type_tag, w);
        let rest = fields.drop_first();
        assert(known_types(rest)) by {
            assert forall|i: int| 0 <= i < rest.len() implies is_type_tag(#[trigger] rest[i].type_tag) by {
                assert(rest[i] == fields[i + 1]);
            }
        }
        lemma_field_values_kinds(data, w, pos + n, rest);
        assert(is_type_tag(fields[0].type_tag));
        assert forall|i: int| 0 <= i < fields.len() implies value_tag(
            #[trigger] field_values(data, w, pos, fields)[i],
        ) == fields[i].type_tag by {
            if i > 0 {
                assert(field_values(data, w, pos, fields)[i] == field_values(data, w, pos + n, rest)[i
                    - 1]);
                assert(rest[i - 1] == fields[i]);
            }
        }
    }
}

/// An instance of class `a` whose values region holds one value for each
/// field of `a` and then one for each field of its superclass `b` decodes
/// `a`'s fields first, then `b`'s.
pub proof fn superclass_fallthrough(
    classes: Map<u64, ClassInfo>,
    data: Seq<u8>,
    w: u32,
    pos: int,
    a: u64,
    b: u64,
)
    requires
        valid_id_size(w),
        classes.contains_key(a),
        classes.contains_key(b),
        classes[a].super_class_object_id == b,
        known_types(classes[a].instance_fields@),
        known_types(classes[b].instance_fields@),
        fits(
            data,
            pos,
            fields_width(classes[a].instance_fields@, w) + fields_width(classes[b].instance_fields@, w),
        ),
    ensures
        ({
            let fa = classes[a].instance_fields@;
            let fb = classes[b].instance_fields@;
            let mid = pos + fields_width(fa, w);
            let end = mid + fields_width(fb, w);
            instance_values_of(classes, data, w, pos, end, a) == Ok::<(Seq<Value>, int), DecodeError>(
                (field_values(data, w, pos, fa) + field_values(data, w, mid, fb), end),
            )
        }),
{
    let fa = classes[a].instance_fields@;
    let fb = classes[b].instance_fields@;
    lemma_fields_width_nonneg(fa, w);
    lemma_fields_width_nonneg(fb, w);
    let mid = pos + fields_width(fa, w);
    let end = mid + fields_width(fb, w);
    lemma_instance_values_through(classes, data, w, pos, end, fa, b, 0);
    lemma_instance_values_through(
        classes,
        data,
        w,
        mid,
        end,
        fb,
        classes[b].super_class_object_id,
        1,
    );
    assert(MAX_CLASS_DEPTH > 0);
    if mid < end {
        assert(instance_values(classes, data, w, mid, end, seq![], b, 0) == instance_values(
            classes,
            data,
            w,
            mid,
            end,
            fb,
            classes[b].super_class_object_id,
            1,
        ));
        assert(field_values(data, w, mid, fb) + Seq::<Value>::empty() =~= field_values(data, w, mid, fb));
    } else {
        assert(fb.len() == 0 || fields_width(fb, w) > 0) by {
            lemma_width_positive(fb, w);
        }
        assert(field_values(data, w, mid, fb) =~= Seq::<Value>::empty());
    }
    assert(field_values(data, w, pos, fa) + Seq::<Value>::empty() =~= field_values(data, w, pos, fa));
}

proof fn lemma_width_positive(fields: Seq<FieldInfo>, w: u32)
    ensures
        fields.len() > 0 ==> fields_width(fields, w) > 0,
{
    if fields.len() > 0 {
        lemma_fields_width_nonneg(fields.drop_first(), w);
    }
}

/// Once a pull has reported the end of the stream, the next pull reports it
/// again and leaves the session as it was.
pub proof fn end_of_stream_idempotent(
    a: HprofReader,
    b: HprofReader,
    c: HprofReader,
    r2: Result<Option<RecordTag>, DecodeError>,
)
    requires
        HprofReader::next_done(a, b, Ok(None)),
        HprofReader::next_done(b, c, r2),
    ensures
        r2 == Ok::<Option<RecordTag>, DecodeError>(None),
        c == b,
{
}

} // verus!
