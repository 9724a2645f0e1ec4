//! The wire codec. Bencode itself is bendy's business: this module hands
//! bytes to its decoder and values to its encoder, and says of each call no
//! more than bendy's source shows.

use vstd::prelude::*;
use vstd::string::*;
use vstd::utf8::*;
use bendy::decoding::{Decoder, Error, FromBencode};
use bendy::encoding::ToBencode;
use bendy::value::Value;
use std::borrow::Cow;

verus! {

/// One key of a dictionary with what the codec made of its value: the text
/// it holds, or the codec's complaint where the value is not a UTF-8 byte
/// string.
#[derive(Debug, PartialEq, Eq)]
pub struct Field {
    pub key: Vec<u8>,
    pub text: Result<String, String>,
}

/// The mathematical content of a [`Field`].
pub struct FieldView {
    pub key: Seq<u8>,
    pub text: Result<Seq<char>, Seq<char>>,
}

impl View for Field {
    type V = FieldView;

    open spec fn view(&self) -> FieldView {
        FieldView {
            key: self.key@,
            text: match self.text {
                Ok(t) => Ok(t@),
                Err(d) => Err(d@),
            },
        }
    }
}

/// A buffer read as one dictionary: the fields in wire order, up to the end
/// of the dictionary or to the point where the codec gave up, and in the
/// latter case its description of the failure.
#[derive(Debug, PartialEq, Eq)]
pub struct Dictionary {
    pub fields: Vec<Field>,
    pub failure: Option<String>,
}

/// The mathematical content of a [`Dictionary`].
pub struct DictionaryView {
    pub fields: Seq<FieldView>,
    pub failure: Option<Seq<char>>,
}

impl View for Dictionary {
    type V = DictionaryView;

    open spec fn view(&self) -> DictionaryView {
        DictionaryView {
            fields: self.fields@.map_values(|f: Field| f@),
            failure: match self.failure {
                Some(d) => Some(d@),
                None => None,
            },
        }
    }
}

/// What bendy's decoder makes of a buffer read as one dictionary.
pub uninterp spec fn bencode_dictionary(bytes: Seq<u8>) -> DictionaryView;

/// Reads `bytes` as one dictionary with bendy's `Decoder`: `next_object`,
/// `try_into_dictionary`, then `next_pair` until the dictionary ends or the
/// decoder fails, each value decoded with `String::decode_bencode_object`.
/// The decoder keeps no state beyond the buffer, so the outcome depends on
/// the bytes alone; the contract gives it a name and claims nothing else.
/// On a buffer that is not empty `next_object` yields an object or fails.
#[verifier::external_body]
pub(crate) fn read_dictionary(bytes: &[u8]) -> (parsed: Dictionary)
    requires
        bytes@.len() > 0,
    ensures
        parsed@ == bencode_dictionary(bytes@),
{
    let mut fields = Vec::new();
    let mut decoder = Decoder::new(bytes);
    let walked = (|| -> Result<(), Error> {
        let Some(object) = decoder.next_object()? else { return Ok(()) };
        let mut dictionary = object.try_into_dictionary()?;
        while let Some((key, value)) = dictionary.next_pair()? {
            let text = String::decode_bencode_object(value).map_err(|e| e.to_string());
            fields.push(Field { key: key.to_vec(), text });
        }
        Ok(())
    })();
    Dictionary { fields, failure: walked.err().map(|e| e.to_string()) }
}

/// The shape of a value on the wire.
pub enum Wire {
    Bytes(Seq<u8>),
    List(Seq<Wire>),
    Dict(Seq<(Seq<u8>, Wire)>),
}

/// bendy's `Value`, carried as it is.
#[verifier::external_type_specification]
#[verifier::external_body]
pub struct ExValue<'a>(Value<'a>);

/// What a bendy `Value` holds.
pub uninterp spec fn value_content(v: Value<'static>) -> Wire;

/// What bendy's encoder makes of a value: its bytes, or the description of
/// the failure.
pub uninterp spec fn bencode_of(w: Wire) -> Result<Seq<u8>, Seq<char>>;

/// Byte strings in lexicographic order, the order of bendy's dictionaries.
pub open spec fn bytes_lt(a: Seq<u8>, b: Seq<u8>) -> bool
    decreases a.len(),
{
    if b.len() == 0 {
        false
    } else if a.len() == 0 {
        true
    } else if a[0] != b[0] {
        a[0] < b[0]
    } else {
        bytes_lt(a.drop_first(), b.drop_first())
    }
}

/// What the items of a list hold.
pub open spec fn contents(items: Seq<Value<'static>>) -> Seq<Wire> {
    items.map_values(|i: Value<'static>| value_content(i))
}

/// What the pairs of a dictionary hold.
pub open spec fn entries(pairs: Seq<(Vec<u8>, Value<'static>)>) -> Seq<(Seq<u8>, Wire)> {
    pairs.map_values(|p: (Vec<u8>, Value<'static>)| (p.0@, value_content(p.1)))
}

/// Keys in strictly ascending order.
pub open spec fn keys_ascend(entries: Seq<(Seq<u8>, Wire)>) -> bool {
    forall|i: int| 0 < i < entries.len() ==> bytes_lt(entries[i - 1].0, (#[trigger] entries[i]).0)
}

/// `Value::Bytes` of a copy of `bytes`.
#[verifier::external_body]
pub(crate) fn value_bytes(bytes: &[u8]) -> (v: Value<'static>)
    ensures
        value_content(v) == Wire::Bytes(bytes@),
{
    Value::Bytes(Cow::Owned(bytes.to_vec()))
}

/// `Value::List` of the items, in their order.
#[verifier::external_body]
pub(crate) fn value_list(items: Vec<Value<'static>>) -> (v: Value<'static>)
    ensures
        value_content(v) == Wire::List(contents(items@)),
{
    Value::List(items)
}

/// `Value::Dict` of the pairs. The dictionary is a `BTreeMap`, which keeps
/// its keys in ascending order and one value per key: the pairs stay as
/// they are given because their keys already ascend strictly.
#[verifier::external_body]
pub(crate) fn value_dict(pairs: Vec<(Vec<u8>, Value<'static>)>) -> (v: Value<'static>)
    requires
        keys_ascend(entries(pairs@)),
    ensures
        value_content(v) == Wire::Dict(entries(pairs@)),
{
    Value::Dict(pairs.into_iter().map(|(k, v)| (Cow::Owned(k), v)).collect())
}

/// `ToBencode::to_bencode` of a `Value`: bendy's encoding of what the value
/// holds, or its failure as text.
#[verifier::external_body]
pub(crate) fn encode_value(v: &Value<'static>) -> (r: Result<Vec<u8>, String>)
    ensures
        match bencode_of(value_content(*v)) {
            Ok(bytes) => r is Ok && r->Ok_0@ == bytes,
            Err(detail) => r is Err && r->Err_0@ == detail,
        },
{
    v.to_bencode().map_err(|e| e.to_string())
}

/// What `String::from_utf8_lossy` makes of bytes.
pub uninterp spec fn lossy_text(bytes: Seq<u8>) -> Seq<char>;

/// `String::from_utf8_lossy`, as an owned string: the bytes as text, with
/// the replacement character in place of what is not UTF-8. Bytes that are
/// valid UTF-8 come back as the text they encode.
#[verifier::external_body]
pub(crate) fn to_text_lossy(bytes: &[u8]) -> (text: String)
    ensures
        text@ == lossy_text(bytes@),
        valid_utf8(bytes@) ==> text@ == decode_utf8(bytes@),
{
    String::from_utf8_lossy(bytes).into_owned()
}

} // verus!
