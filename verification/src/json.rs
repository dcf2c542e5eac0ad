//! The library's own JSON tree.
//!
//! Upstream payloads arrive as text of unknown shape; the gateway parses them
//! through serde_json behind a trusted wrapper and from then on works only on
//! this tree, whose every leaf is a plain value. Numbers are kept as their
//! rendered text: the gateway never computes with them, it only carries them
//! through. Serialization back to text is the library's own, fully verified.

use vstd::prelude::*;

verus! {

/// One JSON value. Object fields keep their source order; lookups take the
/// first binding of a key, and serde_json never hands over duplicate keys.
#[derive(Debug)]
pub enum JsonValue {
    Null,
    Bool(bool),
    Number(String),
    Text(String),
    Array(Vec<JsonValue>),
    Object(Vec<(String, JsonValue)>),
}

/// What `serde_json::from_str::<serde_json::Value>` yields on a given text,
/// carried into the library's own tree: `None` when serde_json rejects the
/// text, and otherwise the parsed tree with numbers kept as their rendered
/// text.
pub uninterp spec fn parsed_json(s: Seq<char>) -> Option<JsonValue>;

#[verifier::external_type_specification]
#[verifier::external_body]
pub struct ExSerdeValue(serde_json::Value);

/// Relies on serde_json::from_str::<serde_json::Value>: the parse is a
/// function of the input text alone.
#[verifier::external_body]
pub fn parse_json(s: &str) -> (r: Option<JsonValue>)
    ensures
        r == parsed_json(s@),
{
    serde_json::from_str::<serde_json::Value>(s).ok().map(|v| convert_value(&v))
}

/// Carries a `serde_json::Value` into the library's own tree, variant by
/// variant; a number keeps the text serde_json renders it with.
#[verifier::external_body]
fn convert_value(v: &serde_json::Value) -> (r: JsonValue) {
    match v {
        serde_json::Value::Null => JsonValue::Null,
        serde_json::Value::Bool(b) => JsonValue::Bool(*b),
        serde_json::Value::Number(n) => JsonValue::Number(n.to_string()),
        serde_json::Value::String(s) => JsonValue::Text(s.clone()),
        serde_json::Value::Array(a) => JsonValue::Array(a.iter().map(convert_value).collect()),
        serde_json::Value::Object(m) => JsonValue::Object(
            m.iter().map(|(k, x)| (k.clone(), convert_value(x))).collect(),
        ),
    }
}

/// The first binding of `key` among `fields`, if any.
pub open spec fn lookup(fields: Seq<(String, JsonValue)>, key: Seq<char>) -> Option<JsonValue>
    decreases fields.len(),
{
    if fields.len() == 0 {
        None
    } else if fields[0].0@ == key {
        Some(fields[0].1)
    } else {
        lookup(fields.drop_first(), key)
    }
}

/// Looking a key up passes over every earlier field bound to another key.
pub proof fn lemma_lookup_skip(fields: Seq<(String, JsonValue)>, key: Seq<char>, i: int)
    requires
        0 <= i <= fields.len(),
        forall|k: int| 0 <= k < i ==> #[trigger] fields[k].0@ != key,
    ensures
        lookup(fields, key) == lookup(fields.skip(i), key),
    decreases i,
{
    if i == 0 {
        assert(fields.skip(0) =~= fields);
    } else {
        lemma_lookup_skip(fields, key, i - 1);
        assert(fields.skip(i - 1)[0] == fields[i - 1]);
        assert(fields.skip(i - 1).drop_first() =~= fields.skip(i));
    }
}

/// The value bound to `key` when `v` is an object holding that key.
pub open spec fn obj_get(v: JsonValue, key: Seq<char>) -> Option<JsonValue> {
    match v {
        JsonValue::Object(fields) => lookup(fields@, key),
        _ => None,
    }
}

/// The characters of `v` when it is a JSON string.
pub open spec fn as_text(v: JsonValue) -> Option<Seq<char>> {
    match v {
        JsonValue::Text(t) => Some(t@),
        _ => None,
    }
}

/// The first element of `v` when it is a non-empty JSON array.
pub open spec fn first_elem(v: JsonValue) -> Option<JsonValue> {
    match v {
        JsonValue::Array(es) => if es@.len() > 0 {
            Some(es@[0])
        } else {
            None
        },
        _ => None,
    }
}

/// The value bound to `key` when `v` is an object holding that key.
pub fn get_field<'a>(v: &'a JsonValue, key: &str) -> (r: Option<&'a JsonValue>)
    ensures
        match r {
            Some(f) => obj_get(*v, key@) == Some(*f),
            None => obj_get(*v, key@) is None,
        },
{
    match v {
        JsonValue::Object(fields) => {
            let k = String::from_str(key);
            let mut i: usize = 0;
            proof {
                assert(fields@.skip(0) =~= fields@);
            }
            while i < fields.len()
                invariant
                    i <= fields.len(),
                    k@ == key@,
                    obj_get(*v, key@) == lookup(fields@, key@),
                    lookup(fields@, key@) == lookup(fields@.skip(i as int), key@),
                decreases fields.len() - i,
            {
                proof {
                    assert(fields@.skip(i as int).drop_first() =~= fields@.skip(i + 1 as int));
                }
                if fields[i].0 == k {
                    proof {
                        assert(fields@[i as int].0@ == key@);
                        assert(fields@.skip(i as int)[0] == fields@[i as int]);
                        assert(lookup(fields@.skip(i as int), key@) == Some(
                            fields@[i as int].1,
                        ));
                    }
                    return Some(&fields[i].1);
                }
                i = i + 1;
            }
            proof {
                assert(fields@.skip(fields@.len() as int) =~= Seq::<(String, JsonValue)>::empty());
            }
            None
        },
        _ => None,
    }
}

/// The string content of `v` when it is a JSON string.
pub fn get_text(v: &JsonValue) -> (r: Option<String>)
    ensures
        match r {
            Some(t) => as_text(*v) == Some(t@),
            None => as_text(*v) is None,
        },
{
    match v {
        JsonValue::Text(t) => Some(t.clone()),
        _ => None,
    }
}

/// The first element of `v` when it is a non-empty JSON array.
pub fn get_first<'a>(v: &'a JsonValue) -> (r: Option<&'a JsonValue>)
    ensures
        match r {
            Some(f) => first_elem(*v) == Some(*f),
            None => first_elem(*v) is None,
        },
{
    match v {
        JsonValue::Array(es) => if es.len() > 0 {
            Some(&es[0])
        } else {
            None
        },
        _ => None,
    }
}

/// How one character is written inside a serialized JSON string.
pub open spec fn escape_char(c: char) -> Seq<char> {
    if c == '"' {
        "\\\""@
    } else if c == '\\' {
        "\\\\"@
    } else if c == '\n' {
        "\\n"@
    } else if c == '\r' {
        "\\r"@
    } else if c == '\t' {
        "\\t"@
    } else {
        seq![c]
    }
}

/// A whole string body, escaped character by character.
pub open spec fn escape_text(s: Seq<char>) -> Seq<char>
    decreases s.len(),
{
    if s.len() == 0 {
        Seq::empty()
    } else {
        escape_text(s.drop_last()) + escape_char(s.last())
    }
}

/// The library's serialization of a JSON tree: compact, fields and elements
/// in their held order, strings escaped as `escape_char` says.
pub open spec fn json_text(v: JsonValue) -> Seq<char>
    decreases v,
{
    match v {
        JsonValue::Null => "null"@,
        JsonValue::Bool(b) => if b {
            "true"@
        } else {
            "false"@
        },
        JsonValue::Number(n) => n@,
        JsonValue::Text(t) => "\""@ + escape_text(t@) + "\""@,
        JsonValue::Array(es) => "["@ + joined_elems(es@) + "]"@,
        JsonValue::Object(fs) => "{"@ + joined_fields(fs@) + "}"@,
    }
}

/// Array elements joined with commas.
pub open spec fn joined_elems(es: Seq<JsonValue>) -> Seq<char>
    decreases es,
{
    if es.len() == 0 {
        Seq::empty()
    } else if es.len() == 1 {
        json_text(es[0])
    } else {
        joined_elems(es.drop_last()) + ","@ + json_text(es.last())
    }
}

/// Object fields joined with commas, each as `"key":value`.
pub open spec fn joined_fields(fs: Seq<(String, JsonValue)>) -> Seq<char>
    decreases fs,
{
    if fs.len() == 0 {
        Seq::empty()
    } else if fs.len() == 1 {
        field_text(fs[0])
    } else {
        joined_fields(fs.drop_last()) + ","@ + field_text(fs.last())
    }
}

/// One object field as `"key":value`.
pub open spec fn field_text(f: (String, JsonValue)) -> Seq<char>
    decreases f,
{
    "\""@ + escape_text(f.0@) + "\":"@ + json_text(f.1)
}

/// The escaped form of a string body.
fn escape_fragment(t: &str) -> (r: String)
    ensures
        r@ == escape_text(t@),
{
    let n = t.unicode_len();
    let mut out = String::new();
    let mut i: usize = 0;
    while i < n
        invariant
            i <= n,
            n == t@.len(),
            out@ == escape_text(t@.take(i as int)),
        decreases n - i,
    {
        let c = t.get_char(i);
        proof {
            assert(t@.take(i + 1 as int).drop_last() =~= t@.take(i as int));
            assert(t@.take(i + 1 as int).last() == c);
        }
        if c == '"' {
            out.append("\\\"");
        } else if c == '\\' {
            out.append("\\\\");
        } else if c == '\n' {
            out.append("\\n");
        } else if c == '\r' {
            out.append("\\r");
        } else if c == '\t' {
            out.append("\\t");
        } else {
            let piece = t.substring_char(i, i + 1);
            proof {
                assert(piece@ =~= seq![c]);
            }
            out.append(piece);
        }
        i = i + 1;
    }
    proof {
        assert(t@.take(n as int) =~= t@);
    }
    out
}

/// Serializes a JSON tree back to text.
pub fn to_text(v: &JsonValue) -> (r: String)
    ensures
        r@ == json_text(*v),
    decreases *v,
{
    match v {
        JsonValue::Null => String::from_str("null"),
        JsonValue::Bool(b) => if *b {
            String::from_str("true")
        } else {
            String::from_str("false")
        },
        JsonValue::Number(n) => n.clone(),
        JsonValue::Text(t) => {
            let mut out = String::from_str("\"");
            let body = escape_fragment(t.as_str());
            out.append(body.as_str());
            out.append("\"");
            out
        },
        JsonValue::Array(es) => {
            let mut out = String::from_str("[");
            let body = elems_to_text(es);
            out.append(body.as_str());
            out.append("]");
            out
        },
        JsonValue::Object(fs) => {
            let mut out = String::from_str("{");
            let body = fields_to_text(fs);
            out.append(body.as_str());
            out.append("}");
            out
        },
    }
}

fn elems_to_text(es: &Vec<JsonValue>) -> (r: String)
    ensures
        r@ == joined_elems(es@),
    decreases es@,
{
    let mut out = String::new();
    let mut i: usize = 0;
    while i < es.len()
        invariant
            i <= es.len(),
            out@ == joined_elems(es@.take(i as int)),
        decreases es@.len() - i,
    {
        proof {
            assert(es@.take(i + 1 as int).drop_last() =~= es@.take(i as int));
            assert(es@.take(i + 1 as int).last() == es@[i as int]);
        }
        if i > 0 {
            out.append(",");
        }
        let piece = to_text(&es[i]);
        out.append(piece.as_str());
        i = i + 1;
    }
    proof {
        assert(es@.take(es@.len() as int) =~= es@);
    }
    out
}

fn fields_to_text(fs: &Vec<(String, JsonValue)>) -> (r: String)
    ensures
        r@ == joined_fields(fs@),
    decreases fs@,
{
    let mut out = String::new();
    let mut i: usize = 0;
    while i < fs.len()
        invariant
            i <= fs.len(),
            out@ == joined_fields(fs@.take(i as int)),
        decreases fs@.len() - i,
    {
        proof {
            assert(fs@.take(i + 1 as int).drop_last() =~= fs@.take(i as int));
            assert(fs@.take(i + 1 as int).last() == fs@[i as int]);
        }
        if i > 0 {
            out.append(",");
        }
        out.append("\"");
        let key = escape_fragment(fs[i].0.as_str());
        out.append(key.as_str());
        out.append("\":");
        let piece = to_text(&fs[i].1);
        out.append(piece.as_str());
        proof {
            let prev = fs@.take(i as int);
            let cur = fs@.take(i + 1 as int);
            assert(field_text(fs@[i as int]) == "\""@ + escape_text(fs@[i as int].0@) + "\":"@
                + json_text(fs@[i as int].1));
            assert(cur.last() == fs@[i as int]);
            if i == 0 {
                assert(joined_fields(cur) == field_text(fs@[i as int]));
            } else {
                assert(joined_fields(cur) == joined_fields(prev) + ","@ + field_text(
                    fs@[i as int],
                ));
            }
            assert(out@ =~= joined_fields(cur));
        }
        i = i + 1;
    }
    proof {
        assert(fs@.take(fs@.len() as int) =~= fs@);
    }
    out
}

} // verus!
