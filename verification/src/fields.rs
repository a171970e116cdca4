//! The byte format of a stored record: a run of fields, each a word or a
//! text, one after the other to the end of the record.
//!
//! A word takes a tag byte and its eight bytes, least significant first. A
//! text takes a tag byte, the number of its bytes as a word's eight bytes,
//! and its bytes in UTF-8.

use vstd::prelude::*;
use vstd::bytes::*;
use vstd::slice::*;
use vstd::utf8::*;

verus! {

/// One field of a record.
#[derive(Debug, PartialEq, Eq)]
pub enum Field {
    Word(u64),
    Text(String),
}

/// What a `Field` holds.
pub enum FieldView {
    Word(u64),
    Text(Seq<char>),
}

impl View for Field {
    type V = FieldView;

    open spec fn view(&self) -> FieldView {
        match self {
            Field::Word(w) => FieldView::Word(*w),
            Field::Text(t) => FieldView::Text(t@),
        }
    }
}

/// The views of a run of fields.
pub open spec fn field_views(fields: Seq<Field>) -> Seq<FieldView> {
    Seq::new(fields.len(), |i: int| fields[i]@)
}

/// The tag byte of a word.
pub const WORD_TAG: u8 = 0;

/// The tag byte of a text.
pub const TEXT_TAG: u8 = 1;

/// The bytes that a field's tag and length take.
pub const HEAD: usize = 9;

/// The bytes of one field.
pub open spec fn field_bytes(f: FieldView) -> Seq<u8> {
    match f {
        FieldView::Word(w) => seq![WORD_TAG] + spec_u64_to_le_bytes(w),
        FieldView::Text(t) => seq![TEXT_TAG] + spec_u64_to_le_bytes(encode_utf8(t).len() as u64)
            + encode_utf8(t),
    }
}

/// The bytes of a run of fields.
pub open spec fn fields_bytes(fields: Seq<FieldView>) -> Seq<u8>
    decreases fields.len(),
{
    if fields.len() == 0 {
        Seq::empty()
    } else {
        field_bytes(fields[0]) + fields_bytes(fields.drop_first())
    }
}

/// A field whose length can be written down: a text of at most `u64::MAX`
/// bytes, or any word.
pub open spec fn encodable(f: FieldView) -> bool {
    f matches FieldView::Text(t) ==> encode_utf8(t).len() <= u64::MAX
}

/// Every field of the run is encodable.
pub open spec fn all_encodable(fields: Seq<FieldView>) -> bool {
    forall|i: int| 0 <= i < fields.len() ==> encodable(#[trigger] fields[i])
}

/// The field that `bytes` starts with, and the number of bytes it takes.
pub open spec fn parse_field(bytes: Seq<u8>) -> Option<(FieldView, nat)> {
    if bytes.len() < HEAD {
        None
    } else {
        let word = spec_u64_from_le_bytes(bytes.subrange(1, HEAD as int));
        if bytes[0] == WORD_TAG {
            Some((FieldView::Word(word), HEAD as nat))
        } else if bytes[0] == TEXT_TAG && HEAD + word <= bytes.len() && valid_utf8(
            bytes.subrange(HEAD as int, HEAD + word),
        ) {
            Some(
                (
                    FieldView::Text(decode_utf8(bytes.subrange(HEAD as int, HEAD + word))),
                    (HEAD + word) as nat,
                ),
            )
        } else {
            None
        }
    }
}

/// The run of fields that `bytes` is made of, if it is made of fields.
pub open spec fn parse_fields(bytes: Seq<u8>) -> Option<Seq<FieldView>>
    decreases bytes.len(),
{
    if bytes.len() == 0 {
        Some(Seq::empty())
    } else {
        match parse_field(bytes) {
            None => None,
            Some((f, n)) => match parse_fields(bytes.skip(n as int)) {
                None => None,
                Some(rest) => Some(seq![f] + rest),
            },
        }
    }
}

/// The bytes of a field, followed by anything, start with that field.
pub proof fn lemma_parse_field_written(f: FieldView, rest: Seq<u8>)
    requires
        encodable(f),
    ensures
        parse_field(field_bytes(f) + rest) == Some((f, field_bytes(f).len())),
        field_bytes(f).len() >= HEAD,
{
    lemma_auto_spec_u64_to_from_le_bytes();
    let bytes = field_bytes(f) + rest;
    match f {
        FieldView::Word(w) => {
            assert(bytes.subrange(1, HEAD as int) =~= spec_u64_to_le_bytes(w));
        },
        FieldView::Text(t) => {
            let n = encode_utf8(t).len() as u64;
            assert(bytes.subrange(1, HEAD as int) =~= spec_u64_to_le_bytes(n));
            assert(bytes.subrange(HEAD as int, HEAD + n) =~= encode_utf8(t));
            encode_utf8_valid_utf8(t);
            encode_utf8_decode_utf8(t);
        },
    }
}

/// Reading back what was written gives the fields that were written.
pub proof fn lemma_fields_round_trip(fields: Seq<FieldView>)
    requires
        all_encodable(fields),
    ensures
        parse_fields(fields_bytes(fields)) == Some(fields),
    decreases fields.len(),
{
    if fields.len() > 0 {
        let first = fields[0];
        let tail = fields.drop_first();
        let bytes = fields_bytes(fields);
        lemma_parse_field_written(first, fields_bytes(tail));
        assert(bytes.skip(field_bytes(first).len() as int) =~= fields_bytes(tail));
        lemma_fields_round_trip(tail);
    }
}

/// The bytes of a run with one more field are the bytes of the run, then
/// those of the field.
pub proof fn lemma_fields_bytes_push(fields: Seq<FieldView>, f: FieldView)
    ensures
        fields_bytes(fields.push(f)) == fields_bytes(fields) + field_bytes(f),
    decreases fields.len(),
{
    let more = fields.push(f);
    if fields.len() == 0 {
        assert(fields_bytes(more.drop_first()) =~= Seq::<u8>::empty());
    } else {
        assert(more.drop_first() =~= fields.drop_first().push(f));
        lemma_fields_bytes_push(fields.drop_first(), f);
    }
}

/// The bytes of two runs, one after the other.
pub proof fn lemma_fields_bytes_add(left: Seq<FieldView>, right: Seq<FieldView>)
    ensures
        fields_bytes(left + right) == fields_bytes(left) + fields_bytes(right),
    decreases right.len(),
{
    if right.len() > 0 {
        let last = right.last();
        let front = right.drop_last();
        assert(right =~= front.push(last));
        lemma_fields_bytes_push(left + front, last);
        lemma_fields_bytes_push(front, last);
        lemma_fields_bytes_add(left, front);
    }
}

/// The bytes that a field was read from are the bytes of that field.
pub proof fn lemma_parse_field_canonical(bytes: Seq<u8>)
    requires
        parse_field(bytes) is Some,
    ensures
        ({
            let (f, n) = parse_field(bytes).unwrap();
            &&& HEAD <= n <= bytes.len()
            &&& field_bytes(f) == bytes.take(n as int)
            &&& encodable(f)
        }),
{
    lemma_auto_spec_u64_to_from_le_bytes();
    if parse_field(bytes).unwrap().0 is Text {
        let length = spec_u64_from_le_bytes(bytes.subrange(1, HEAD as int));
        decode_utf8_encode_utf8(bytes.subrange(HEAD as int, HEAD + length));
    }
}

/// The bytes that fields were read from are the bytes of those fields: a
/// run of fields is written in one way only.
pub proof fn lemma_fields_canonical(bytes: Seq<u8>)
    requires
        parse_fields(bytes) is Some,
    ensures
        fields_bytes(parse_fields(bytes).unwrap()) == bytes,
        all_encodable(parse_fields(bytes).unwrap()),
    decreases bytes.len(),
{
    if bytes.len() > 0 {
        lemma_parse_field_canonical(bytes);
        let (f, n) = parse_field(bytes).unwrap();
        let rest = parse_fields(bytes.skip(n as int)).unwrap();
        lemma_fields_canonical(bytes.skip(n as int));
        assert((seq![f] + rest).drop_first() =~= rest);
    }
}

/// `String::from_utf8`: the string that the bytes spell in UTF-8, or
/// nothing where they are not valid UTF-8.
#[verifier::external_body]
fn text_of_utf8(bytes: Vec<u8>) -> (text: Option<String>)
    ensures
        match text {
            Some(t) => valid_utf8(bytes@) && t@ == decode_utf8(bytes@),
            None => !valid_utf8(bytes@),
        },
{
    match String::from_utf8(bytes) {
        Ok(text) => Some(text),
        Err(_) => None,
    }
}

fn append_bytes(out: &mut Vec<u8>, src: &[u8])
    ensures
        final(out)@ == old(out)@ + src@,
{
    let mut i: usize = 0;
    while i < src.len()
        invariant
            i <= src.len(),
            out@ == old(out)@ + src@.take(i as int),
        decreases src.len() - i,
    {
        out.push(src[i]);
        i += 1;
    }
}

/// Appends a word to a record.
pub fn put_word(out: &mut Vec<u8>, w: u64)
    ensures
        final(out)@ == old(out)@ + field_bytes(FieldView::Word(w)),
{
    out.push(WORD_TAG);
    let bytes = u64_to_le_bytes(w);
    append_bytes(out, bytes.as_slice());
}

/// Appends a text to a record.
pub fn put_text(out: &mut Vec<u8>, t: &String)
    ensures
        final(out)@ == old(out)@ + field_bytes(FieldView::Text(t@)),
        encodable(FieldView::Text(t@)),
{
    let utf8 = t.as_str().as_bytes();
    out.push(TEXT_TAG);
    let length = u64_to_le_bytes(utf8.len() as u64);
    append_bytes(out, length.as_slice());
    append_bytes(out, utf8);
}

/// Reads a record's fields.
pub fn parse(bytes: &[u8]) -> (r: Option<Vec<Field>>)
    ensures
        match r {
            Some(fields) => parse_fields(bytes@) == Some(field_views(fields@)),
            None => parse_fields(bytes@) is None,
        },
{
    let mut fields: Vec<Field> = Vec::new();
    let mut pos: usize = 0;
    assert(bytes@.skip(0) =~= bytes@);
    while pos < bytes.len()
        invariant
            pos <= bytes.len(),
            parse_fields(bytes@) == match parse_fields(bytes@.skip(pos as int)) {
                Some(rest) => Some(field_views(fields@) + rest),
                None => None,
            },
        decreases bytes.len() - pos,
    {
        let ghost tail = bytes@.skip(pos as int);
        if bytes.len() - pos < HEAD {
            return None;
        }
        let tag = bytes[pos];
        let word = u64_from_le_bytes(slice_subrange(bytes, pos + 1, pos + HEAD));
        assert(tail.subrange(1, HEAD as int) =~= bytes@.subrange(pos + 1, pos + HEAD));
        let taken: usize;
        if tag == WORD_TAG {
            fields.push(Field::Word(word));
            taken = HEAD;
        } else if tag == TEXT_TAG {
            if word > (bytes.len() - pos - HEAD) as u64 {
                return None;
            }
            let n = word as usize;
            let chunk = slice_to_vec(slice_subrange(bytes, pos + HEAD, pos + HEAD + n));
            assert(tail.subrange(HEAD as int, HEAD + word) =~= chunk@);
            match text_of_utf8(chunk) {
                None => {
                    return None;
                },
                Some(t) => {
                    fields.push(Field::Text(t));
                    taken = HEAD + n;
                },
            }
        } else {
            return None;
        }
        assert(tail.skip(taken as int) =~= bytes@.skip(pos + taken));
        pos += taken;
    }
    Some(fields)
}

} // verus!
