//! The library's view of a parsed JSON document, and the trusted bridge to
//! the outside parser. Extraction only ever reads string leaves, array
//! elements and object members, so every other leaf is kept opaque.

use crate::scan::str_eq;
use vstd::prelude::*;

verus! {

/// The part of a JSON document that extraction reads: string leaves,
/// arrays, and objects with their members in document order. Number,
/// boolean and null leaves all collapse to `Other`.
pub enum JsonNode {
    Str(String),
    Array(Vec<JsonNode>),
    Object(Vec<(String, JsonNode)>),
    Other,
}

#[verifier::external_type_specification]
#[verifier::external_body]
pub struct ExJsonValue(json::JsonValue);

/// The node tree that parsing yields for `text`, `None` when the text is
/// not valid JSON. Parsing is a function of the text alone.
pub uninterp spec fn json_doc_of(text: Seq<char>) -> Option<JsonNode>;

/// Relies on json::JsonValue: each variant of the parsed tree is moved
/// one-for-one into the library's node type (string leaves kept, arrays
/// and objects element-wise, every other leaf opaque).
#[verifier::external_body]
fn node_of_value(v: &json::JsonValue) -> JsonNode {
    match v {
        json::JsonValue::Short(s) => JsonNode::Str(s.as_str().to_string()),
        json::JsonValue::String(s) => JsonNode::Str(s.clone()),
        json::JsonValue::Array(items) => JsonNode::Array(
            items.iter().map(node_of_value).collect(),
        ),
        json::JsonValue::Object(obj) => JsonNode::Object(
            obj.iter().map(|(k, val)| (k.to_string(), node_of_value(val))).collect(),
        ),
        _ => JsonNode::Other,
    }
}

/// Relies on json::parse: whether a text parses, and the document it
/// parses to, depend on the text alone.
#[verifier::external_body]
pub(crate) fn parse_json_text(text: &str) -> (r: Option<JsonNode>)
    ensures
        r == json_doc_of(text@),
{
    match json::parse(text) {
        Ok(v) => Some(node_of_value(&v)),
        Err(_) => None,
    }
}

/// First binding of `key` among an object's members, in document order.
pub open spec fn member_lookup(fields: Seq<(String, JsonNode)>, key: Seq<char>) -> Option<
    JsonNode,
>
    decreases fields.len(),
{
    if fields.len() == 0 {
        Option::None
    } else if fields[0].0@ == key {
        Option::Some(fields[0].1)
    } else {
        member_lookup(fields.drop_first(), key)
    }
}

/// Member `key` of `n`: `None` unless `n` is an object carrying that key.
pub open spec fn json_member(n: JsonNode, key: Seq<char>) -> Option<JsonNode> {
    match n {
        JsonNode::Object(fields) => member_lookup(fields@, key),
        _ => Option::None,
    }
}

/// Element `i` of `n`: `None` unless `n` is an array of more than `i` elements.
pub open spec fn json_element(n: JsonNode, i: int) -> Option<JsonNode> {
    match n {
        JsonNode::Array(items) => if 0 <= i < items@.len() {
            Option::Some(items@[i])
        } else {
            Option::None
        },
        _ => Option::None,
    }
}

/// The string content of `n`: `None` unless `n` is a string leaf.
pub open spec fn json_text(n: JsonNode) -> Option<Seq<char>> {
    match n {
        JsonNode::Str(s) => Option::Some(s@),
        _ => Option::None,
    }
}

impl JsonNode {
    /// Look up member `key`, returning the first binding in document order.
    pub fn member(&self, key: &str) -> (r: Option<&JsonNode>)
        ensures
            match r {
                Option::Some(c) => json_member(*self, key@) == Option::Some(*c),
                Option::None => json_member(*self, key@) is None,
            },
    {
        match self {
            JsonNode::Object(fields) => {
                let mut i: usize = 0;
                proof {
                    assert(fields@.subrange(0, fields@.len() as int) =~= fields@);
                }
                while i < fields.len()
                    invariant
                        *self == JsonNode::Object(*fields),
                        0 <= i <= fields@.len(),
                        member_lookup(fields@, key@) == member_lookup(
                            fields@.subrange(i as int, fields@.len() as int),
                            key@,
                        ),
                    decreases fields@.len() - i,
                {
                    if str_eq(fields[i].0.as_str(), key) {
                        proof {
                            let rest = fields@.subrange(i as int, fields@.len() as int);
                            assert(rest.len() > 0);
                            assert(rest[0] == fields@[i as int]);
                            assert(rest[0].0@ == key@);
                            assert(member_lookup(rest, key@) == Option::Some(rest[0].1));
                            assert(*self == JsonNode::Object(*fields));
                            assert(json_member(*self, key@) == Option::Some(
                                fields@[i as int].1,
                            ));
                        }
                        return Some(&fields[i].1);
                    }
                    proof {
                        let rest = fields@.subrange(i as int, fields@.len() as int);
                        assert(rest[0] == fields@[i as int]);
                        assert(rest.drop_first() =~= fields@.subrange(
                            i as int + 1,
                            fields@.len() as int,
                        ));
                    }
                    i = i + 1;
                }
                proof {
                    assert(fields@.subrange(i as int, fields@.len() as int).len() == 0);
                }
                None
            },
            _ => None,
        }
    }

    /// Element `i`, when this node is an array long enough.
    pub fn element(&self, i: usize) -> (r: Option<&JsonNode>)
        ensures
            match r {
                Option::Some(c) => json_element(*self, i as int) == Option::Some(*c),
                Option::None => json_element(*self, i as int) is None,
            },
    {
        match self {
            JsonNode::Array(items) => {
                if i < items.len() {
                    Some(&items[i])
                } else {
                    None
                }
            },
            _ => None,
        }
    }

    /// The string content, when this node is a string leaf.
    pub fn text(&self) -> (r: Option<&String>)
        ensures
            match r {
                Option::Some(s) => json_text(*self) == Option::Some(s@),
                Option::None => json_text(*self) is None,
            },
    {
        match self {
            JsonNode::Str(s) => Some(s),
            _ => None,
        }
    }

    /// Whether this node is an object carrying member `key`.
    pub fn has_member(&self, key: &str) -> (r: bool)
        ensures
            r == (json_member(*self, key@) is Some),
    {
        match self.member(key) {
            Some(_) => true,
            None => false,
        }
    }
}

} // verus!
