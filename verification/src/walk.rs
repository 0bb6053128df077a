//! A document tree of the shape the remote API returns, holding exactly what
//! the logic reads: strings, integers, objects and arrays.  The walk below
//! discovers every resource name stored under a given field name anywhere in
//! a document, so that the caches can be populated without the walk itself
//! touching the network.

use vstd::prelude::*;
use vstd::seq_lib::*;
use vstd::string::*;

verus! {

/// One node of a decoded document.
pub enum JsonNode {
    /// A string value.
    Text(String),
    /// An integer value.
    Num(i64),
    /// An object: field names with their values, in document order.
    Object(Vec<(String, JsonNode)>),
    /// An array of values, in document order.
    Array(Vec<JsonNode>),
    /// Any other value (null, boolean, fractional number): nothing in it is
    /// read.
    Other,
}

/// The strings stored under fields named `name` anywhere in `n`, in document
/// order.  The value of a matching field is taken when it is a string and is
/// not descended into; every other value is searched recursively.
pub open spec fn spec_field_strings(n: JsonNode, name: Seq<char>) -> Seq<Seq<char>>
    decreases n, 0int,
{
    match n {
        JsonNode::Object(fields) => spec_field_strings_in_fields(fields@, 0, name),
        JsonNode::Array(items) => spec_field_strings_in_items(items@, 0, name),
        _ => Seq::empty(),
    }
}

/// The strings contributed by the fields of an object from index `i` on.
pub open spec fn spec_field_strings_in_fields(
    fields: Seq<(String, JsonNode)>,
    i: int,
    name: Seq<char>,
) -> Seq<Seq<char>>
    decreases fields, fields.len() - i,
{
    if i < 0 || i >= fields.len() {
        Seq::empty()
    } else {
        let head = if fields[i].0@ == name {
            match fields[i].1 {
                JsonNode::Text(s) => seq![s@],
                _ => Seq::empty(),
            }
        } else {
            spec_field_strings(fields[i].1, name)
        };
        head + spec_field_strings_in_fields(fields, i + 1, name)
    }
}

/// The strings contributed by the elements of an array from index `i` on.
pub open spec fn spec_field_strings_in_items(items: Seq<JsonNode>, i: int, name: Seq<char>) -> Seq<
    Seq<char>,
>
    decreases items, items.len() - i,
{
    if i < 0 || i >= items.len() {
        Seq::empty()
    } else {
        spec_field_strings(items[i], name) + spec_field_strings_in_items(items, i + 1, name)
    }
}

/// Collects the strings stored under fields named `name` anywhere in `n`, in
/// document order.
pub fn collect_string_fields(n: &JsonNode, name: &String) -> (out: Vec<String>)
    ensures
        out@.map_values(|s: String| s@) == spec_field_strings(*n, name@),
    decreases *n,
{
    let mut out: Vec<String> = Vec::new();
    match n {
        JsonNode::Object(fields) => {
            let len = fields.len();
            let mut i: usize = 0;
            while i < len
                invariant
                    *n == JsonNode::Object(*fields),
                    len == fields@.len(),
                    i <= len,
                    out@.map_values(|s: String| s@) + spec_field_strings_in_fields(
                        fields@,
                        i as int,
                        name@,
                    ) == spec_field_strings_in_fields(fields@, 0, name@),
                decreases len - i,
            {
                proof {
                    assert(decreases_to!(*n => n->Object_0));
                    assert(decreases_to!(*fields => fields@));
                    assert(decreases_to!(fields@ => fields@[i as int]));
                    assert(decreases_to!(fields@[i as int] => fields@[i as int].1));
                }
                if fields[i].0 == *name {
                    match &fields[i].1 {
                        JsonNode::Text(s) => {
                            let ghost prev = out@;
                            out.push(s.clone());
                            proof {
                                assert(out@.map_values(|s: String| s@) =~= prev.map_values(
                                    |s: String| s@,
                                ) + seq![fields@[i as int].1->Text_0@]);
                            }
                        },
                        _ => {},
                    }
                } else {
                    let mut sub = collect_string_fields(&fields[i].1, name);
                    let ghost prev = out@;
                    let ghost subv = sub@;
                    out.append(&mut sub);
                    proof {
                        assert(out@.map_values(|s: String| s@) =~= prev.map_values(|s: String| s@)
                            + subv.map_values(|s: String| s@));
                    }
                }
                i = i + 1;
                proof {
                    assert(out@.map_values(|s: String| s@) + spec_field_strings_in_fields(
                        fields@,
                        i as int,
                        name@,
                    ) =~= spec_field_strings_in_fields(fields@, 0, name@));
                }
            }
            proof {
                assert(out@.map_values(|s: String| s@) =~= spec_field_strings(*n, name@));
            }
        },
        JsonNode::Array(items) => {
            let len = items.len();
            let mut i: usize = 0;
            while i < len
                invariant
                    *n == JsonNode::Array(*items),
                    len == items@.len(),
                    i <= len,
                    out@.map_values(|s: String| s@) + spec_field_strings_in_items(
                        items@,
                        i as int,
                        name@,
                    ) == spec_field_strings_in_items(items@, 0, name@),
                decreases len - i,
            {
                proof {
                    assert(decreases_to!(*n => n->Array_0));
                    assert(decreases_to!(*items => items@));
                    assert(decreases_to!(items@ => items@[i as int]));
                }
                let mut sub = collect_string_fields(&items[i], name);
                let ghost prev = out@;
                let ghost subv = sub@;
                out.append(&mut sub);
                i = i + 1;
                proof {
                    assert(prev.map_values(|s: String| s@) + subv.map_values(|s: String| s@)
                        =~= out@.map_values(|s: String| s@));
                    assert(out@.map_values(|s: String| s@) + spec_field_strings_in_items(
                        items@,
                        i as int,
                        name@,
                    ) =~= spec_field_strings_in_items(items@, 0, name@));
                }
            }
            proof {
                assert(out@.map_values(|s: String| s@) =~= spec_field_strings(*n, name@));
            }
        },
        _ => {
            proof {
                assert(out@.map_values(|s: String| s@) =~= spec_field_strings(*n, name@));
            }
        },
    }
    out
}

/// The value of the first field named `name` of an object node; `None` for a
/// node that is not an object or has no such field.
pub open spec fn spec_get_field(n: JsonNode, name: Seq<char>) -> Option<JsonNode> {
    match n {
        JsonNode::Object(fields) => spec_get_field_from(fields@, 0, name),
        _ => None,
    }
}

/// The value of the first field named `name` at index `i` or later.
pub open spec fn spec_get_field_from(
    fields: Seq<(String, JsonNode)>,
    i: int,
    name: Seq<char>,
) -> Option<JsonNode>
    decreases fields.len() - i,
{
    if i < 0 || i >= fields.len() {
        None
    } else if fields[i].0@ == name {
        Some(fields[i].1)
    } else {
        spec_get_field_from(fields, i + 1, name)
    }
}

/// Looks up the first field named `name` of an object node.
pub fn get_field<'a>(n: &'a JsonNode, name: &String) -> (r: Option<&'a JsonNode>)
    ensures
        match r {
            Some(v) => spec_get_field(*n, name@) == Some(*v),
            None => spec_get_field(*n, name@) is None,
        },
{
    match n {
        JsonNode::Object(fields) => {
            let len = fields.len();
            let mut i: usize = 0;
            while i < len
                invariant
                    *n == JsonNode::Object(*fields),
                    len == fields@.len(),
                    i <= len,
                    spec_get_field_from(fields@, 0, name@) == spec_get_field_from(
                        fields@,
                        i as int,
                        name@,
                    ),
                decreases len - i,
            {
                if fields[i].0 == *name {
                    proof {
                        assert(spec_get_field_from(fields@, i as int, name@) == Some(
                            fields@[i as int].1,
                        ));
                    }
                    return Some(&fields[i].1);
                }
                i = i + 1;
            }
            None
        },
        _ => None,
    }
}

/// Whether a record carries the integer `id` under its `characterId` field.
pub open spec fn spec_has_character_id(n: JsonNode, id: i64) -> bool {
    spec_get_field(n, "characterId"@) == Some(JsonNode::Num(id))
}

/// Finds the first record in `records` whose `characterId` field holds
/// `target_id`, as the ranking document is searched for the record of one
/// character.
pub fn find_by_character_id(records: &Vec<JsonNode>, target_id: i64) -> (r: Option<usize>)
    ensures
        match r {
            Some(i) => i < records@.len() && spec_has_character_id(records@[i as int], target_id)
                && forall|j: int|
                    0 <= j < i ==> !spec_has_character_id(#[trigger] records@[j], target_id),
            None => forall|j: int|
                0 <= j < records@.len() ==> !spec_has_character_id(
                    #[trigger] records@[j],
                    target_id,
                ),
        },
{
    let name: String = String::from_str("characterId");
    let len = records.len();
    let mut i: usize = 0;
    while i < len
        invariant
            name@ == "characterId"@,
            len == records@.len(),
            i <= len,
            forall|j: int| 0 <= j < i ==> !spec_has_character_id(#[trigger] records@[j], target_id),
        decreases len - i,
    {
        match get_field(&records[i], &name) {
            Some(v) => {
                match v {
                    JsonNode::Num(x) => {
                        if *x == target_id {
                            return Some(i);
                        }
                    },
                    _ => {},
                }
            },
            None => {},
        }
        i = i + 1;
    }
    None
}

} // verus!
