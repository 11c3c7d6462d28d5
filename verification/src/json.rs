//! Values that come as JSON text, as far as they are read.

use crate::text;
use serde_json::Value;
use vstd::prelude::*;

verus! {

/// A value that is neither an object nor a list, as far as it is read.
#[derive(Debug)]
pub enum ArgValue {
    Text(String),
    Flag(bool),
    Other,
}

/// A member of an object: an argument with its name. An object or a list in it is not
/// read.
#[derive(Debug)]
pub struct Arg {
    pub name: String,
    pub value: ArgValue,
}

/// A value that is neither an object nor a list.
pub enum ArgValueView {
    Text(Seq<char>),
    Flag(bool),
    Other,
}

/// A member of an object.
pub struct ArgView {
    pub name: Seq<char>,
    pub value: ArgValueView,
}

impl View for ArgValue {
    type V = ArgValueView;

    open spec fn view(&self) -> ArgValueView {
        match self {
            ArgValue::Text(s) => ArgValueView::Text(s@),
            ArgValue::Flag(b) => ArgValueView::Flag(*b),
            ArgValue::Other => ArgValueView::Other,
        }
    }
}

impl View for Arg {
    type V = ArgView;

    open spec fn view(&self) -> ArgView {
        ArgView { name: self.name@, value: self.value@ }
    }
}

/// What members hold.
pub open spec fn arg_views(v: Seq<Arg>) -> Seq<ArgView> {
    v.map_values(|a: Arg| a@)
}

/// What lists of members hold.
pub open spec fn row_views(v: Seq<Vec<Arg>>) -> Seq<Seq<ArgView>> {
    v.map_values(|row: Vec<Arg>| arg_views(row@))
}

/// What a JSON value is made of.
#[derive(Debug)]
pub enum Shape {
    Plain(ArgValue),
    Object(Vec<Arg>),
    /// The members of each element. An element that is no object has none.
    List(Vec<Vec<Arg>>),
}

/// What a JSON value is made of.
pub enum ShapeView {
    Plain(ArgValueView),
    Object(Seq<ArgView>),
    List(Seq<Seq<ArgView>>),
}

/// A JSON value: its compact text, and what it is made of.
#[derive(Debug)]
pub struct Json {
    pub text: String,
    pub shape: Shape,
}

/// A JSON value.
pub struct JsonView {
    pub text: Seq<char>,
    pub shape: ShapeView,
}

impl View for Json {
    type V = JsonView;

    open spec fn view(&self) -> JsonView {
        JsonView {
            text: self.text@,
            shape: match self.shape {
                Shape::Plain(v) => ShapeView::Plain(v@),
                Shape::Object(m) => ShapeView::Object(arg_views(m@)),
                Shape::List(rows) => ShapeView::List(row_views(rows@)),
            },
        }
    }
}

/// What a JSON value is, if there is one.
pub open spec fn opt_json(o: Option<Json>) -> Option<JsonView> {
    match o {
        Some(j) => Some(j@),
        None => None,
    }
}

/// What `serde_json::from_str` makes of a text, if it is JSON.
pub uninterp spec fn json_of(raw: Seq<char>) -> Option<JsonView>;

/// Calls `serde_json::from_str` for a JSON value. The text is the one that the
/// value is displayed with; a plain value, the members of an object and those of each
/// object in an array are told apart into texts, flags and the rest. The outcome is a
/// function of the text alone. What JSON is is left unsaid.
#[verifier::external_body]
pub(crate) fn read_json(raw: &str) -> (r: Option<Json>)
    ensures
        opt_json(r) == json_of(raw@),
{
    let value = |v| match v {
        Value::String(s) => ArgValue::Text(s),
        Value::Bool(b) => ArgValue::Flag(b),
        _ => ArgValue::Other,
    };
    let row = |v| match v {
        Value::Object(m) => m.into_iter().map(|(name, v)| Arg { name, value: value(v) }).collect(),
        _ => Vec::new(),
    };
    serde_json::from_str(raw).ok().map(|v: Value| Json { text: v.to_string(), shape: match v {
        Value::Object(_) => Shape::Object(row(v)),
        Value::Array(rows) => Shape::List(rows.into_iter().map(row).collect()),
        _ => Shape::Plain(value(v)),
    } })
}

/// A hexadecimal digit.
pub open spec fn hex_digit(d: int) -> char {
    if d < 10 {
        (48 + d) as char
    } else {
        (87 + d) as char
    }
}

/// A character inside a JSON string.
pub open spec fn escaped_char(c: char) -> Seq<char> {
    if c == '"' || c == '\\' {
        seq!['\\', c]
    } else if c == '\n' {
        seq!['\\', 'n']
    } else if c == '\r' {
        seq!['\\', 'r']
    } else if c == '\t' {
        seq!['\\', 't']
    } else if c == '\u{8}' {
        seq!['\\', 'b']
    } else if c == '\u{c}' {
        seq!['\\', 'f']
    } else if 32 > c as int {
        seq!['\\', 'u', '0', '0', hex_digit(c as int / 16), hex_digit(c as int % 16)]
    } else {
        seq![c]
    }
}

/// The first `n` characters of a text inside a JSON string.
pub open spec fn escaped(s: Seq<char>, n: int) -> Seq<char>
    decreases n,
{
    if n <= 0 {
        Seq::empty()
    } else {
        escaped(s, n - 1) + escaped_char(s[n - 1])
    }
}

/// A text as a JSON string.
pub open spec fn json_string(s: Seq<char>) -> Seq<char> {
    seq!['"'] + escaped(s, s.len() as int) + seq!['"']
}

/// Displays a `serde_json::Value::String`: the text between quotation marks, where
/// those, backslashes and control characters below the space are escaped.
#[verifier::external_body]
pub(crate) fn quote_json(raw: &str) -> (r: String)
    ensures
        r@ == json_string(raw@),
{
    serde_json::Value::String(raw.to_owned()).to_string()
}

/// The value of the member with a name, from the `i`th on.
pub open spec fn arg_named(args: Seq<ArgView>, i: int, name: Seq<char>) -> Option<ArgValueView>
    decreases args.len() - i,
{
    if i < 0 || i >= args.len() {
        None
    } else if args[i].name == name {
        Some(args[i].value)
    } else {
        arg_named(args, i + 1, name)
    }
}

/// The text of a member, if there is one and it is a text.
pub open spec fn text_named(args: Seq<ArgView>, name: Seq<char>) -> Option<Seq<char>> {
    match arg_named(args, 0, name) {
        Some(ArgValueView::Text(s)) => Some(s),
        _ => None,
    }
}

/// The place of a member.
pub fn locate_arg(args: &Vec<Arg>, name: &str) -> (r: Option<usize>)
    ensures
        match r {
            Some(i) => i < args@.len() && arg_named(arg_views(args@), 0, name@) == Some(
                args@[i as int]@.value,
            ),
            None => arg_named(arg_views(args@), 0, name@) is None,
        },
{
    let mut i: usize = 0;
    while i < args.len()
        invariant
            i <= args@.len(),
            arg_named(arg_views(args@), i as int, name@) == arg_named(
                arg_views(args@),
                0,
                name@,
            ),
        decreases args@.len() - i,
    {
        assert(arg_views(args@)[i as int] == args@[i as int]@);
        if text::same(&args[i].name, name) {
            return Some(i);
        }
        i += 1;
    }
    None
}

/// The text of a member.
pub fn find_text(args: &Vec<Arg>, name: &str) -> (r: Option<String>)
    ensures
        text::opt_view(r) == text_named(arg_views(args@), name@),
{
    match locate_arg(args, name) {
        Some(i) => match &args[i].value {
            ArgValue::Text(s) => Some(s.as_str().to_string()),
            _ => None,
        },
        None => None,
    }
}

} // verus!
