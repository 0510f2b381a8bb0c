use vstd::prelude::*;
use vstd::string::*;
use crate::text::{decimal, signed_decimal, decimal_u64, decimal_i64};

verus! {

/// A number of a JSON request body, as the JSON reader keeps it: a
/// non-negative integer, a negative integer, or a float, which is carried by
/// the text the reader renders it as.
#[derive(Debug, Clone, PartialEq, Eq)]
pub enum JsonNumber {
    PosInt(u64),
    NegInt(i64),
    Float(String),
}

/// A value of a JSON request body, as far as the request logic reads it:
/// a string, a number, or anything else (null, a boolean, an array, an
/// object), which the logic treats alike.
#[derive(Debug, Clone, PartialEq, Eq)]
pub enum ParamValue {
    Text(String),
    Number(JsonNumber),
    Other,
}

/// The text of a number.
pub open spec fn number_text(n: JsonNumber) -> Seq<char> {
    match n {
        JsonNumber::PosInt(u) => decimal(u as nat),
        JsonNumber::NegInt(i) => signed_decimal(i as int),
        JsonNumber::Float(t) => t@,
    }
}

/// The text of a request value that may be missing: a string is itself, a
/// number is its text, and anything else, or nothing, is empty.
pub open spec fn param_text(v: Option<ParamValue>) -> Seq<char> {
    match v {
        Some(ParamValue::Text(s)) => s@,
        Some(ParamValue::Number(n)) => number_text(n),
        _ => Seq::empty(),
    }
}

/// The string inside a value, if it is one.
pub open spec fn as_text(v: ParamValue) -> Option<Seq<char>> {
    match v {
        ParamValue::Text(s) => Some(s@),
        _ => None,
    }
}

/// The value as a non-negative integer, if it is one.
pub open spec fn as_u64(v: ParamValue) -> Option<u64> {
    match v {
        ParamValue::Number(JsonNumber::PosInt(u)) => Some(u),
        _ => None,
    }
}

/// The text of a number.
pub fn number_to_string(n: &JsonNumber) -> (s: String)
    ensures
        s@ == number_text(*n),
{
    match n {
        JsonNumber::PosInt(u) => decimal_u64(*u),
        JsonNumber::NegInt(i) => decimal_i64(*i),
        JsonNumber::Float(t) => t.clone(),
    }
}

/// The text of a request value that may be missing.
pub fn val_to_string(val: Option<&ParamValue>) -> (s: String)
    ensures
        s@ == param_text(match val {
            Some(v) => Some(*v),
            None => None,
        }),
{
    match val {
        Some(ParamValue::Text(t)) => t.clone(),
        Some(ParamValue::Number(n)) => number_to_string(n),
        _ => {
            proof {
                reveal_strlit("");
            }
            "".to_owned()
        },
    }
}

/// The value as a non-negative integer, if it is one.
pub fn value_as_u64(v: &ParamValue) -> (r: Option<u64>)
    ensures
        r == as_u64(*v),
{
    match v {
        ParamValue::Number(JsonNumber::PosInt(u)) => Some(*u),
        _ => None,
    }
}

/// A field value of a reply.
#[derive(Debug, Clone, PartialEq, Eq)]
pub enum Scalar {
    Text(String),
    Flag(bool),
    Count(u32),
    Frame(i32),
}

/// A reply: an object of named fields, or a single string.
#[derive(Debug, Clone, PartialEq, Eq)]
pub enum Reply {
    Object(Vec<(String, Scalar)>),
    Text(String),
}

/// A field value of a reply, taken by its text.
pub enum ScalarView {
    Text(Seq<char>),
    Flag(bool),
    Count(u32),
    Frame(i32),
}

/// A reply, taken by its text.
pub enum ReplyView {
    Object(Seq<(Seq<char>, ScalarView)>),
    Text(Seq<char>),
}

impl View for Scalar {
    type V = ScalarView;

    open spec fn view(&self) -> ScalarView {
        match self {
            Scalar::Text(s) => ScalarView::Text(s@),
            Scalar::Flag(b) => ScalarView::Flag(*b),
            Scalar::Count(n) => ScalarView::Count(*n),
            Scalar::Frame(f) => ScalarView::Frame(*f),
        }
    }
}

/// The fields of a reply object, taken by their text.
pub open spec fn fields_view(fs: Seq<(String, Scalar)>) -> Seq<(Seq<char>, ScalarView)> {
    fs.map_values(|f: (String, Scalar)| (f.0@, f.1@))
}

impl View for Reply {
    type V = ReplyView;

    open spec fn view(&self) -> ReplyView {
        match self {
            Reply::Object(fs) => ReplyView::Object(fields_view(fs@)),
            Reply::Text(s) => ReplyView::Text(s@),
        }
    }
}

/// The reply `{"status": <status>}`.
pub open spec fn status_reply(status: Seq<char>) -> ReplyView {
    ReplyView::Object(seq![("status"@, ScalarView::Text(status))])
}

/// Text fields of a reply object, in the given order.
pub open spec fn text_fields(fields: Seq<(Seq<char>, Seq<char>)>) -> Seq<(Seq<char>, ScalarView)> {
    fields.map_values(|f: (Seq<char>, Seq<char>)| (f.0, ScalarView::Text(f.1)))
}

/// A reply object of text fields, in the given order.
pub open spec fn text_object(fields: Seq<(Seq<char>, Seq<char>)>) -> ReplyView {
    ReplyView::Object(text_fields(fields))
}

/// Appends the text field `key: value` to the fields of a reply object.
pub fn push_text(fields: &mut Vec<(String, Scalar)>, key: &str, value: &str)
    ensures
        fields_view(final(fields)@) == fields_view(old(fields)@).push((key@, ScalarView::Text(value@))),
{
    fields.push((key.to_owned(), Scalar::Text(value.to_owned())));
    assert(fields_view(fields@) =~= fields_view(old(fields)@).push((key@, ScalarView::Text(value@))));
}

/// Appends a field `key: value` to the fields of a reply object.
pub fn push_field(fields: &mut Vec<(String, Scalar)>, key: &str, value: Scalar)
    ensures
        fields_view(final(fields)@) == fields_view(old(fields)@).push((key@, value@)),
{
    fields.push((key.to_owned(), value));
    assert(fields_view(fields@) =~= fields_view(old(fields)@).push((key@, value@)));
}

/// The reply `{"status": <status>}`.
pub fn status(s: &str) -> (r: Reply)
    ensures
        r@ == status_reply(s@),
{
    let mut fs: Vec<(String, Scalar)> = Vec::new();
    assert(fields_view(fs@) =~= Seq::empty());
    push_text(&mut fs, "status", s);
    Reply::Object(fs)
}

} // verus!
