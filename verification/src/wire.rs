//! The wire mapping: which dictionary is a request, and which dictionary a
//! response becomes.

use vstd::prelude::*;
use vstd::string::*;
use vstd::utf8::*;
use bendy::value::Value;
use crate::codec::{
    bencode_of, bytes_lt, contents, encode_value, entries, lossy_text, to_text_lossy,
    value_bytes, value_content, value_dict, value_list, Dictionary, DictionaryView, Field,
    FieldView, Wire,
};
use crate::error::{DecodeError, DecodeErrorView, NetpodError, NetpodErrorView};
use crate::model::{
    text_of, DescribeResponse, DescribeResponseView, ErrorResponse, ErrorResponseView,
    InvokeResponse, InvokeResponseView, Namespace, NamespaceView, Op, Request, RequestView,
    Response, ResponseView, Status, Var,
};

verus! {

/// Whether two byte strings hold the same bytes.
pub fn bytes_eq(a: &[u8], b: &[u8]) -> (same: bool)
    ensures
        same == (a@ == b@),
{
    if a.len() != b.len() {
        return false;
    }
    let mut i: usize = 0;
    while i < a.len()
        invariant
            a@.len() == b@.len(),
            i <= a@.len(),
            forall|j: int| 0 <= j < i ==> a@[j] == b@[j],
        decreases a@.len() - i,
    {
        if a[i] != b[i] {
            return false;
        }
        i += 1;
    }
    assert(a@ =~= b@);
    true
}

/// What one more field makes of a request read so far. The recognised keys
/// are `id`, `var`, `args` and `op`, each of which must hold text; an `op`
/// that names no operation leaves the request as it is; any other key is
/// refused by its name.
pub open spec fn absorb(acc: RequestView, f: FieldView) -> Result<RequestView, DecodeErrorView> {
    if f.key == "id".spec_bytes() {
        match f.text {
            Ok(t) => Ok(RequestView { id: Some(t), ..acc }),
            Err(d) => Err(DecodeErrorView::BadField { field: "id"@, detail: d }),
        }
    } else if f.key == "var".spec_bytes() {
        match f.text {
            Ok(t) => Ok(RequestView { var: Some(t), ..acc }),
            Err(d) => Err(DecodeErrorView::BadField { field: "var"@, detail: d }),
        }
    } else if f.key == "args".spec_bytes() {
        match f.text {
            Ok(t) => Ok(RequestView { args: Some(t), ..acc }),
            Err(d) => Err(DecodeErrorView::BadField { field: "args"@, detail: d }),
        }
    } else if f.key == "op".spec_bytes() {
        match f.text {
            Ok(t) => Ok(
                match Op::parse(t) {
                    Some(op) => RequestView { op, ..acc },
                    None => acc,
                },
            ),
            Err(d) => Err(DecodeErrorView::BadField { field: "op"@, detail: d }),
        }
    } else {
        Err(DecodeErrorView::UnexpectedField(lossy_text(f.key)))
    }
}

/// The request read from the first `n` fields, or the first refusal among
/// them.
pub open spec fn absorbed(fields: Seq<FieldView>, n: nat) -> Result<RequestView, DecodeErrorView>
    decreases n,
{
    if n == 0 {
        Ok(RequestView::blank())
    } else {
        match absorbed(fields, (n - 1) as nat) {
            Ok(acc) => absorb(acc, fields[n - 1]),
            Err(e) => Err(e),
        }
    }
}

/// The request that a dictionary stands for. The fields are taken in wire
/// order and the first refusal ends the reading; a dictionary that the
/// codec could not read to its end is malformed, unless one of the fields
/// it did read was refused first.
pub open spec fn request_of(d: DictionaryView) -> Result<RequestView, DecodeErrorView> {
    match absorbed(d.fields, d.fields.len()) {
        Ok(r) => match d.failure {
            Some(detail) => Err(DecodeErrorView::Malformed(detail)),
            None => Ok(r),
        },
        Err(e) => Err(e),
    }
}

/// A refusal among the first `n` fields stands whatever follows.
pub proof fn lemma_refusal_stands(fields: Seq<FieldView>, n: nat, m: nat)
    requires
        n <= m,
        absorbed(fields, n) is Err,
    ensures
        absorbed(fields, m) == absorbed(fields, n),
    decreases m,
{
    if n < m {
        lemma_refusal_stands(fields, n, (m - 1) as nat);
    }
}

/// The keys of the request schema.
pub open spec fn recognised(key: Seq<u8>) -> bool {
    ||| key == "id".spec_bytes()
    ||| key == "var".spec_bytes()
    ||| key == "args".spec_bytes()
    ||| key == "op".spec_bytes()
}

/// Without an `op` among the first `n` fields the operation read from
/// them is `Describe`.
proof fn lemma_op_untouched(fields: Seq<FieldView>, n: nat)
    requires
        n <= fields.len(),
        forall|i: int| 0 <= i < n ==> (#[trigger] fields[i]).key != "op".spec_bytes(),
    ensures
        absorbed(fields, n) is Ok ==> absorbed(fields, n)->Ok_0.op == Op::Describe,
    decreases n,
{
    if n > 0 {
        lemma_op_untouched(fields, (n - 1) as nat);
        assert(fields[n - 1].key != "op".spec_bytes());
    }
}

/// The operation defaults to `Describe`: a dictionary without the key `op`
/// that is a request is a `Describe` request.
pub proof fn lemma_default_op(d: DictionaryView)
    requires
        request_of(d) is Ok,
        forall|i: int| 0 <= i < d.fields.len() ==> (#[trigger] d.fields[i]).key != "op".spec_bytes(),
    ensures
        request_of(d)->Ok_0.op == Op::Describe,
{
    lemma_op_untouched(d.fields, d.fields.len());
}

/// The schema is closed: a dictionary with a key outside the schema is no
/// request.
pub proof fn lemma_unknown_field_refused(d: DictionaryView, i: int)
    requires
        0 <= i < d.fields.len(),
        !recognised(d.fields[i].key),
    ensures
        request_of(d) is Err,
{
    let n = (i + 1) as nat;
    assert(absorbed(d.fields, n) is Err);
    lemma_refusal_stands(d.fields, n, d.fields.len());
}

/// The content of a decoding outcome.
pub open spec fn decoded(r: Result<Request, DecodeError>) -> Result<RequestView, DecodeErrorView> {
    match r {
        Ok(request) => Ok(request@),
        Err(e) => Err(e@),
    }
}

/// The text of a field, or the refusal of the field under `name`.
fn field_text(field: &Field, name: &str) -> (r: Result<String, DecodeError>)
    ensures
        match field@.text {
            Ok(t) => r is Ok && r->Ok_0@ == t,
            Err(d) => r is Err && r->Err_0@ == (DecodeErrorView::BadField {
                field: name@,
                detail: d,
            }),
        },
{
    match &field.text {
        Ok(t) => Ok(t.clone()),
        Err(d) => Err(DecodeError::BadField { field: String::from_str(name), detail: d.clone() }),
    }
}

impl Request {
    /// Reads a request from a decoded dictionary.
    pub fn decode_bencode_object(dictionary: &Dictionary) -> (r: Result<Request, DecodeError>)
        ensures
            decoded(r) == request_of(dictionary@),
    {
        let mut op = Op::Describe;
        let mut id: Option<String> = None;
        let mut var: Option<String> = None;
        let mut args: Option<String> = None;
        let ghost fields = dictionary@.fields;
        let mut i: usize = 0;
        while i < dictionary.fields.len()
            invariant
                fields == dictionary@.fields,
                fields.len() == dictionary.fields@.len(),
                i <= fields.len(),
                absorbed(fields, i as nat) == Ok::<RequestView, DecodeErrorView>(
                    RequestView { op, id: text_of(id), var: text_of(var), args: text_of(args) },
                ),
            decreases fields.len() - i,
        {
            let field = &dictionary.fields[i];
            assert(field@ == fields[i as int]);
            assert(absorbed(fields, (i + 1) as nat) == absorb(
                RequestView { op, id: text_of(id), var: text_of(var), args: text_of(args) },
                fields[i as int],
            ));
            proof {
                if absorbed(fields, (i + 1) as nat) is Err {
                    lemma_refusal_stands(fields, (i + 1) as nat, fields.len());
                }
            }
            let key = field.key.as_slice();
            if bytes_eq(key, "id".as_bytes()) {
                match field_text(field, "id") {
                    Ok(t) => { id = Some(t); },
                    Err(e) => { return Err(e); },
                }
            } else if bytes_eq(key, "var".as_bytes()) {
                match field_text(field, "var") {
                    Ok(t) => { var = Some(t); },
                    Err(e) => { return Err(e); },
                }
            } else if bytes_eq(key, "args".as_bytes()) {
                match field_text(field, "args") {
                    Ok(t) => { args = Some(t); },
                    Err(e) => { return Err(e); },
                }
            } else if bytes_eq(key, "op".as_bytes()) {
                match field_text(field, "op") {
                    Ok(t) => {
                        match Op::from_str(t.as_str()) {
                            Ok(named) => { op = named; },
                            Err(_) => {},
                        }
                    },
                    Err(e) => { return Err(e); },
                }
            } else {
                return Err(DecodeError::UnexpectedField(to_text_lossy(key)));
            }
            i += 1;
        }
        match &dictionary.failure {
            Some(detail) => Err(DecodeError::Malformed(detail.clone())),
            None => Ok(Request { args, id, op, var }),
        }
    }
}

/// Text on the wire: the byte string of its UTF-8 encoding.
pub open spec fn text_wire(text: Seq<char>) -> Wire {
    Wire::Bytes(encode_utf8(text))
}

/// A function on the wire: a dictionary with its `name`.
pub open spec fn var_wire(name: Seq<char>) -> Wire {
    Wire::Dict(seq![("name".spec_bytes(), text_wire(name))])
}

impl Status {
    /// A status on the wire: its string.
    pub open spec fn wire(self) -> Wire {
        text_wire(self.text())
    }
}

impl NamespaceView {
    /// A namespace on the wire: a dictionary with its `name` and the list
    /// of its `vars`.
    pub open spec fn wire(self) -> Wire {
        Wire::Dict(
            seq![
                ("name".spec_bytes(), text_wire(self.name)),
                ("vars".spec_bytes(), Wire::List(self.vars.map_values(|v: Seq<char>| var_wire(v)))),
            ],
        )
    }
}

impl DescribeResponseView {
    /// A description on the wire: a dictionary with the `format` and the
    /// list of `namespaces`.
    pub open spec fn wire(self) -> Wire {
        Wire::Dict(
            seq![
                ("format".spec_bytes(), text_wire(self.format)),
                (
                    "namespaces".spec_bytes(),
                    Wire::List(self.namespaces.map_values(|n: NamespaceView| n.wire())),
                ),
            ],
        )
    }
}

impl ErrorResponseView {
    /// An error on the wire: a dictionary with `ex-message` and `status`,
    /// and between them the `id` where there is one.
    pub open spec fn wire(self) -> Wire {
        match self.id {
            Some(id) => Wire::Dict(
                seq![
                    ("ex-message".spec_bytes(), text_wire(self.ex_message)),
                    ("id".spec_bytes(), text_wire(id)),
                    ("status".spec_bytes(), self.status.wire()),
                ],
            ),
            None => Wire::Dict(
                seq![
                    ("ex-message".spec_bytes(), text_wire(self.ex_message)),
                    ("status".spec_bytes(), self.status.wire()),
                ],
            ),
        }
    }
}

impl InvokeResponseView {
    /// A result on the wire: a dictionary with `id`, `status` and the
    /// `value` as a raw byte string.
    pub open spec fn wire(self) -> Wire {
        Wire::Dict(
            seq![
                ("id".spec_bytes(), text_wire(self.id)),
                ("status".spec_bytes(), self.status.wire()),
                ("value".spec_bytes(), Wire::Bytes(self.value)),
            ],
        )
    }
}

impl ResponseView {
    /// A response on the wire: the dictionary of its variant.
    pub open spec fn wire(self) -> Wire {
        match self {
            ResponseView::Describe(r) => r.wire(),
            ResponseView::Invoke(r) => r.wire(),
            ResponseView::Error(r) => r.wire(),
        }
    }
}

/// The first byte of a key written in ASCII.
proof fn lemma_first_byte(key: &str)
    requires
        is_ascii(key),
        key@.len() > 0,
    ensures
        key.spec_bytes().len() == key@.len(),
        key.spec_bytes()[0] == key@[0] as u8,
{
    is_ascii_spec_bytes(key);
}

/// The keys of each response dictionary stand in ascending order.
pub proof fn lemma_key_order()
    ensures
        bytes_lt("name".spec_bytes(), "vars".spec_bytes()),
        bytes_lt("format".spec_bytes(), "namespaces".spec_bytes()),
        bytes_lt("ex-message".spec_bytes(), "id".spec_bytes()),
        bytes_lt("ex-message".spec_bytes(), "status".spec_bytes()),
        bytes_lt("id".spec_bytes(), "status".spec_bytes()),
        bytes_lt("status".spec_bytes(), "value".spec_bytes()),
{
    reveal_strlit("name");
    reveal_strlit("vars");
    reveal_strlit("format");
    reveal_strlit("namespaces");
    reveal_strlit("ex-message");
    reveal_strlit("id");
    reveal_strlit("status");
    reveal_strlit("value");
    lemma_first_byte("name");
    lemma_first_byte("vars");
    lemma_first_byte("format");
    lemma_first_byte("namespaces");
    lemma_first_byte("ex-message");
    lemma_first_byte("id");
    lemma_first_byte("status");
    lemma_first_byte("value");
}

/// A key with its value.
fn pair(key: &str, value: Value<'static>) -> (p: (Vec<u8>, Value<'static>))
    ensures
        p.0@ == key.spec_bytes(),
        p.1 == value,
{
    (key.as_bytes_vec(), value)
}

/// Text as a byte string.
fn text_value(text: &str) -> (v: Value<'static>)
    ensures
        value_content(v) == text_wire(text@),
{
    value_bytes(text.as_bytes())
}

impl Var {
    /// The wire value of a function.
    pub(crate) fn encode(&self) -> (v: Value<'static>)
        ensures
            value_content(v) == var_wire(self@),
    {
        let mut pairs: Vec<(Vec<u8>, Value<'static>)> = Vec::new();
        pairs.push(pair("name", text_value(self.name.as_str())));
        assert(entries(pairs@) =~= seq![("name".spec_bytes(), text_wire(self@))]);
        value_dict(pairs)
    }
}

impl Namespace {
    /// The wire value of a namespace.
    pub(crate) fn encode(&self) -> (v: Value<'static>)
        ensures
            value_content(v) == self@.wire(),
    {
        let mut vars: Vec<Value<'static>> = Vec::new();
        let mut i: usize = 0;
        while i < self.vars.len()
            invariant
                i <= self.vars@.len(),
                vars@.len() == i,
                forall|j: int|
                    0 <= j < i ==> value_content(#[trigger] vars@[j]) == var_wire(self@.vars[j]),
            decreases self.vars@.len() - i,
        {
            vars.push(self.vars[i].encode());
            i += 1;
        }
        assert(contents(vars@) =~= self@.vars.map_values(|v: Seq<char>| var_wire(v)));
        let mut pairs: Vec<(Vec<u8>, Value<'static>)> = Vec::new();
        pairs.push(pair("name", text_value(self.name.as_str())));
        pairs.push(pair("vars", value_list(vars)));
        proof {
            lemma_key_order();
            assert(entries(pairs@) =~= seq![
                ("name".spec_bytes(), text_wire(self@.name)),
                (
                    "vars".spec_bytes(),
                    Wire::List(self@.vars.map_values(|v: Seq<char>| var_wire(v))),
                ),
            ]);
        }
        value_dict(pairs)
    }
}

impl DescribeResponse {
    /// The wire value of a description.
    pub(crate) fn encode(&self) -> (v: Value<'static>)
        ensures
            value_content(v) == self@.wire(),
    {
        let mut namespaces: Vec<Value<'static>> = Vec::new();
        let mut i: usize = 0;
        while i < self.namespaces.len()
            invariant
                i <= self.namespaces@.len(),
                namespaces@.len() == i,
                forall|j: int|
                    0 <= j < i ==> value_content(#[trigger] namespaces@[j])
                        == self@.namespaces[j].wire(),
            decreases self.namespaces@.len() - i,
        {
            namespaces.push(self.namespaces[i].encode());
            i += 1;
        }
        assert(contents(namespaces@) =~= self@.namespaces.map_values(
            |n: NamespaceView| n.wire(),
        ));
        let mut pairs: Vec<(Vec<u8>, Value<'static>)> = Vec::new();
        pairs.push(pair("format", text_value(self.format.as_str())));
        pairs.push(pair("namespaces", value_list(namespaces)));
        proof {
            lemma_key_order();
            assert(entries(pairs@) =~= seq![
                ("format".spec_bytes(), text_wire(self@.format)),
                (
                    "namespaces".spec_bytes(),
                    Wire::List(self@.namespaces.map_values(|n: NamespaceView| n.wire())),
                ),
            ]);
        }
        value_dict(pairs)
    }
}

impl Status {
    /// The wire value of a status.
    pub(crate) fn encode(&self) -> (v: Value<'static>)
        ensures
            value_content(v) == self.wire(),
    {
        text_value(self.as_str())
    }
}

impl ErrorResponse {
    /// The wire value of an error.
    pub(crate) fn encode(&self) -> (v: Value<'static>)
        ensures
            value_content(v) == self@.wire(),
    {
        let mut pairs: Vec<(Vec<u8>, Value<'static>)> = Vec::new();
        pairs.push(pair("ex-message", text_value(self.ex_message.as_str())));
        match &self.id {
            Some(rid) => {
                pairs.push(pair("id", text_value(rid.as_str())));
            },
            None => {},
        }
        pairs.push(pair("status", self.status.encode()));
        proof {
            lemma_key_order();
            match self@.id {
                Some(id) => {
                    assert(entries(pairs@) =~= seq![
                        ("ex-message".spec_bytes(), text_wire(self@.ex_message)),
                        ("id".spec_bytes(), text_wire(id)),
                        ("status".spec_bytes(), self.status.wire()),
                    ]);
                },
                None => {
                    assert(entries(pairs@) =~= seq![
                        ("ex-message".spec_bytes(), text_wire(self@.ex_message)),
                        ("status".spec_bytes(), self.status.wire()),
                    ]);
                },
            }
        }
        value_dict(pairs)
    }
}

impl InvokeResponse {
    /// The wire value of a result.
    pub(crate) fn encode(&self) -> (v: Value<'static>)
        ensures
            value_content(v) == self@.wire(),
    {
        let mut pairs: Vec<(Vec<u8>, Value<'static>)> = Vec::new();
        pairs.push(pair("id", text_value(self.id.as_str())));
        pairs.push(pair("status", self.status.encode()));
        pairs.push(pair("value", value_bytes(self.value.as_slice())));
        proof {
            lemma_key_order();
            assert(entries(pairs@) =~= seq![
                ("id".spec_bytes(), text_wire(self@.id)),
                ("status".spec_bytes(), self.status.wire()),
                ("value".spec_bytes(), Wire::Bytes(self@.value)),
            ]);
        }
        value_dict(pairs)
    }
}

/// The bytes of a response, or the failure to encode it.
pub open spec fn encoding(response: ResponseView) -> Result<Seq<u8>, NetpodErrorView> {
    match bencode_of(response.wire()) {
        Ok(bytes) => Ok(bytes),
        Err(detail) => Err(NetpodErrorView::BendyEncoding(detail)),
    }
}

/// The content of an encoding outcome.
pub open spec fn encoded(r: Result<Vec<u8>, NetpodError>) -> Result<Seq<u8>, NetpodErrorView> {
    match r {
        Ok(bytes) => Ok(bytes@),
        Err(e) => Err(e@),
    }
}

impl Response {
    /// The wire value of a response.
    pub(crate) fn encode(&self) -> (v: Value<'static>)
        ensures
            value_content(v) == self@.wire(),
    {
        match self {
            Response::Error(r) => r.encode(),
            Response::Describe(r) => r.encode(),
            Response::Invoke(r) => r.encode(),
        }
    }

    /// Encodes a response for the wire.
    pub fn to_bencode(&self) -> (r: Result<Vec<u8>, NetpodError>)
        ensures
            encoded(r) == encoding(self@),
    {
        let value = self.encode();
        match encode_value(&value) {
            Ok(bytes) => Ok(bytes),
            Err(detail) => Err(NetpodError::BendyEncoding(detail)),
        }
    }
}

} // verus!
