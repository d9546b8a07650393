//! The library's own JSON value tree. Upstream bodies and auth files are
//! parsed by serde_json behind a trusted bridge; every walk over the parsed
//! tree is verified here. Numbers are carried as their decimal text and read
//! as thousandths, since the tree itself holds no floating point.

use vstd::prelude::*;
use vstd::string::*;
use crate::text::{
    codes_eq_nocase, eq_ignore_ascii_case_str, spec_full_number_milli, full_number_milli,
    spec_trim, trim_str, spec_u64_digits, u64_to_string,
};

verus! {

/// One JSON value. Object fields keep the order in which the parser yields
/// them; a number holds its decimal text.
#[derive(Debug)]
pub enum Json {
    Null,
    Bool(bool),
    Num(String),
    Str(String),
    Arr(Vec<Json>),
    Obj(Vec<(String, Json)>),
}

#[verifier::external_type_specification]
#[verifier::external_body]
pub struct ExSerdeValue(serde_json::Value);

/// The tree that `parse_json` yields for the given text, when the text is
/// valid JSON: parsing depends on the text alone.
pub uninterp spec fn json_of(s: Seq<char>) -> Option<Json>;

/// Relies on serde_json::from_str: whether the text parses and what tree
/// comes out depend on the text alone.
#[verifier::external_body]
pub fn parse_json(s: &str) -> (r: Option<Json>)
    ensures
        r == json_of(s@),
{
    match serde_json::from_str::<serde_json::Value>(s) {
        Ok(v) => Some(json_from_value(v)),
        Err(_) => None,
    }
}

/// Bridge for `parse_json`: rebuilds a serde_json tree as the library's own
/// tree, one node for one node, numbers as their decimal text.
#[verifier::external_body]
fn json_from_value(v: serde_json::Value) -> Json {
    match v {
        serde_json::Value::Null => Json::Null,
        serde_json::Value::Bool(b) => Json::Bool(b),
        serde_json::Value::Number(n) => Json::Num(n.to_string()),
        serde_json::Value::String(s) => Json::Str(s),
        serde_json::Value::Array(items) => Json::Arr(
            items.into_iter().map(json_from_value).collect(),
        ),
        serde_json::Value::Object(map) => Json::Obj(
            map.into_iter().map(|(k, x)| (k, json_from_value(x))).collect(),
        ),
    }
}

// ---------------------------------------------------------------------------
// Top-level field access
// ---------------------------------------------------------------------------

/// First field with exactly this key, if any.
pub open spec fn spec_fields_get(fields: Seq<(String, Json)>, key: Seq<char>) -> Option<Json>
    decreases fields.len(),
{
    if fields.len() == 0 {
        None
    } else if fields[0].0@ == key {
        Some(fields[0].1)
    } else {
        spec_fields_get(fields.drop_first(), key)
    }
}

/// Value of the top-level field `key`, if `j` is an object that has it.
pub open spec fn spec_obj_get(j: Json, key: Seq<char>) -> Option<Json> {
    match j {
        Json::Obj(fields) => spec_fields_get(fields@, key),
        _ => None,
    }
}

/// Value of the top-level field `key`.
#[verifier::loop_isolation(false)]
pub fn get_field<'a>(j: &'a Json, key: &str) -> (r: Option<&'a Json>)
    ensures
        match r {
            Some(v) => spec_obj_get(*j, key@) == Some(*v),
            None => spec_obj_get(*j, key@) is None,
        },
{
    match j {
        Json::Obj(fields) => {
            let n = fields.len();
            proof {
                assert(fields@.subrange(0, n as int) =~= fields@);
            }
            let mut i: usize = 0;
            while i < n
                invariant
                    n == fields@.len(),
                    0 <= i <= n,
                    spec_fields_get(fields@, key@) == spec_fields_get(
                        fields@.subrange(i as int, n as int),
                        key@,
                    ),
                decreases n - i,
            {
                proof {
                    assert(fields@.subrange(i as int, n as int).drop_first() =~= fields@.subrange(
                        i as int + 1,
                        n as int,
                    ));
                }
                if crate::text::str_eq(fields[i].0.as_str(), key) {
                    proof {
                        let sub = fields@.subrange(i as int, n as int);
                        assert(sub[0] == fields@[i as int]);
                        assert(spec_fields_get(sub, key@) == Some(fields@[i as int].1));
                    }
                    return Some(&fields[i].1);
                }
                i += 1;
            }
            None
        },
        _ => None,
    }
}

/// The trimmed text of the top-level string field `key`, when it is present
/// and non-empty after trimming — the original's field reading pattern.
pub open spec fn spec_str_field_trimmed(j: Json, key: Seq<char>) -> Option<Seq<char>> {
    match spec_obj_get(j, key) {
        Some(Json::Str(s)) => if spec_trim(s@).len() > 0 {
            Some(spec_trim(s@))
        } else {
            None
        },
        _ => None,
    }
}

/// Trimmed, non-empty text of the top-level string field `key`.
pub fn get_trimmed_str_field(j: &Json, key: &str) -> (r: Option<String>)
    ensures
        match r {
            Some(s) => spec_str_field_trimmed(*j, key@) == Some(s@),
            None => spec_str_field_trimmed(*j, key@) is None,
        },
{
    match get_field(j, key) {
        Some(v) => match v {
            Json::Str(s) => {
                let t = trim_str(s.as_str());
                if t.as_str().unicode_len() > 0 {
                    Some(t)
                } else {
                    None
                }
            },
            _ => None,
        },
        None => None,
    }
}

// ---------------------------------------------------------------------------
// Numeric leaves, depth first
// ---------------------------------------------------------------------------

/// Dotted path of an object member.
pub open spec fn child_path_obj(prefix: Seq<char>, key: Seq<char>) -> Seq<char> {
    if prefix.len() == 0 {
        key
    } else {
        prefix + "."@ + key
    }
}

/// Bracketed path of an array element.
pub open spec fn child_path_arr(prefix: Seq<char>, idx: int) -> Seq<char> {
    prefix + "["@ + spec_u64_digits(idx) + "]"@
}

/// All numeric leaves under `j`, each with its dotted path and its value in
/// thousandths, in depth-first order; a number whose text the scanner cannot
/// represent is passed over.
pub open spec fn spec_num_leaves(prefix: Seq<char>, j: Json) -> Seq<(Seq<char>, i64)>
    decreases j, 0int,
{
    match j {
        Json::Num(t) => match spec_full_number_milli(t@) {
            Some(v) => seq![(prefix, v)],
            None => seq![],
        },
        Json::Arr(items) => spec_num_leaves_arr(prefix, items@, 0),
        Json::Obj(fields) => spec_num_leaves_obj(prefix, fields@, 0),
        _ => seq![],
    }
}

pub open spec fn spec_num_leaves_arr(prefix: Seq<char>, items: Seq<Json>, i: int) -> Seq<
    (Seq<char>, i64),
>
    decreases items, items.len() - i,
{
    if i < 0 || i >= items.len() {
        seq![]
    } else {
        spec_num_leaves(child_path_arr(prefix, i), items[i]) + spec_num_leaves_arr(
            prefix,
            items,
            i + 1,
        )
    }
}

pub open spec fn spec_num_leaves_obj(prefix: Seq<char>, fields: Seq<(String, Json)>, i: int) -> Seq<
    (Seq<char>, i64),
>
    decreases fields, fields.len() - i,
{
    if i < 0 || i >= fields.len() {
        seq![]
    } else {
        spec_num_leaves(child_path_obj(prefix, fields[i].0@), fields[i].1) + spec_num_leaves_obj(
            prefix,
            fields,
            i + 1,
        )
    }
}

/// View of collected leaves as pairs of character sequences and values.
pub open spec fn leaves_view(v: Seq<(String, i64)>) -> Seq<(Seq<char>, i64)> {
    v.map(|_i: int, p: (String, i64)| (p.0@, p.1))
}

/// Collect every numeric leaf under `j` with its dotted path, depth first.
#[verifier::loop_isolation(false)]
pub fn collect_num_leaves(prefix: &str, j: &Json, out: &mut Vec<(String, i64)>)
    ensures
        leaves_view(final(out)@) == leaves_view(old(out)@) + spec_num_leaves(prefix@, *j),
    decreases *j,
{
    match j {
        Json::Num(t) => {
            match full_number_milli(t.as_str()) {
                Some(v) => {
                    out.push((prefix.to_owned(), v));
                    proof {
                        assert(leaves_view(out@) =~= leaves_view(old(out)@) + spec_num_leaves(
                            prefix@,
                            *j,
                        ));
                    }
                },
                None => {
                    proof {
                        assert(leaves_view(out@) =~= leaves_view(old(out)@) + spec_num_leaves(
                            prefix@,
                            *j,
                        ));
                    }
                },
            }
        },
        Json::Arr(items) => {
            let n = items.len();
            let mut i: usize = 0;
            while i < n
                invariant
                    n == items@.len(),
                    0 <= i <= n,
                    leaves_view(out@) + spec_num_leaves_arr(prefix@, items@, i as int)
                        == leaves_view(old(out)@) + spec_num_leaves_arr(prefix@, items@, 0),
                decreases n - i,
            {
                let ghost prev = out@;
                let cp = prefix.to_owned().concat("[").concat(
                    u64_to_string(i as u64).as_str(),
                ).concat("]");
                proof {
                    assert(cp@ == child_path_arr(prefix@, i as int));
                }
                proof {
                    assert(decreases_to!(*j => items@[i as int]));
                }
                collect_num_leaves(cp.as_str(), &items[i], out);
                proof {
                    assert(spec_num_leaves_arr(prefix@, items@, i as int) == spec_num_leaves(
                        child_path_arr(prefix@, i as int),
                        items@[i as int],
                    ) + spec_num_leaves_arr(prefix@, items@, i as int + 1));
                    assert(leaves_view(out@) + spec_num_leaves_arr(prefix@, items@, i as int + 1)
                        =~= leaves_view(prev) + spec_num_leaves_arr(prefix@, items@, i as int));
                }
                i += 1;
            }
            proof {
                assert(leaves_view(out@) + spec_num_leaves_arr(prefix@, items@, n as int)
                    =~= leaves_view(out@));
                assert(leaves_view(out@) =~= leaves_view(old(out)@) + spec_num_leaves(
                    prefix@,
                    *j,
                ));
            }
        },
        Json::Obj(fields) => {
            let n = fields.len();
            let mut i: usize = 0;
            while i < n
                invariant
                    n == fields@.len(),
                    0 <= i <= n,
                    leaves_view(out@) + spec_num_leaves_obj(prefix@, fields@, i as int)
                        == leaves_view(old(out)@) + spec_num_leaves_obj(prefix@, fields@, 0),
                decreases n - i,
            {
                let ghost prev = out@;
                let cp = if prefix.unicode_len() == 0 {
                    fields[i].0.clone()
                } else {
                    prefix.to_owned().concat(".").concat(fields[i].0.as_str())
                };
                proof {
                    assert(cp@ == child_path_obj(prefix@, fields@[i as int].0@));
                }
                proof {
                    assert(decreases_to!(*j => fields@[i as int].1));
                }
                collect_num_leaves(cp.as_str(), &fields[i].1, out);
                proof {
                    assert(spec_num_leaves_obj(prefix@, fields@, i as int) == spec_num_leaves(
                        child_path_obj(prefix@, fields@[i as int].0@),
                        fields@[i as int].1,
                    ) + spec_num_leaves_obj(prefix@, fields@, i as int + 1));
                    assert(leaves_view(out@) + spec_num_leaves_obj(prefix@, fields@, i as int + 1)
                        =~= leaves_view(prev) + spec_num_leaves_obj(prefix@, fields@, i as int));
                }
                i += 1;
            }
            proof {
                assert(leaves_view(out@) + spec_num_leaves_obj(prefix@, fields@, n as int)
                    =~= leaves_view(out@));
                assert(leaves_view(out@) =~= leaves_view(old(out)@) + spec_num_leaves(
                    prefix@,
                    *j,
                ));
            }
        },
        _ => {
            proof {
                assert(leaves_view(out@) =~= leaves_view(old(out)@) + spec_num_leaves(
                    prefix@,
                    *j,
                ));
            }
        },
    }
}

// ---------------------------------------------------------------------------
// Depth-first search for a string or boolean by key
// ---------------------------------------------------------------------------

/// First string value under `j` whose key equals `target` up to ASCII case,
/// searching depth first as the original does.
pub open spec fn spec_find_text(j: Json, target: Seq<char>) -> Option<Seq<char>>
    decreases j, 0int,
{
    match j {
        Json::Obj(fields) => spec_find_text_obj(fields@, target, 0),
        Json::Arr(items) => spec_find_text_arr(items@, target, 0),
        _ => None,
    }
}

pub open spec fn spec_find_text_obj(
    fields: Seq<(String, Json)>,
    target: Seq<char>,
    i: int,
) -> Option<Seq<char>>
    decreases fields, fields.len() - i,
{
    if i < 0 || i >= fields.len() {
        None
    } else {
        let hit = if codes_eq_nocase(fields[i].0@, target) {
            match fields[i].1 {
                Json::Str(s) => Some(s@),
                _ => None,
            }
        } else {
            None
        };
        match hit {
            Some(s) => Some(s),
            None => match spec_find_text(fields[i].1, target) {
                Some(s) => Some(s),
                None => spec_find_text_obj(fields, target, i + 1),
            },
        }
    }
}

pub open spec fn spec_find_text_arr(items: Seq<Json>, target: Seq<char>, i: int) -> Option<
    Seq<char>,
>
    decreases items, items.len() - i,
{
    if i < 0 || i >= items.len() {
        None
    } else {
        match spec_find_text(items[i], target) {
            Some(s) => Some(s),
            None => spec_find_text_arr(items, target, i + 1),
        }
    }
}

/// Depth-first search for the first string field named `target` (ASCII
/// case-insensitively).
#[verifier::loop_isolation(false)]
pub fn find_text_by_key(j: &Json, target: &str) -> (r: Option<String>)
    ensures
        match r {
            Some(s) => spec_find_text(*j, target@) == Some(s@),
            None => spec_find_text(*j, target@) is None,
        },
    decreases *j,
{
    match j {
        Json::Obj(fields) => {
            let n = fields.len();
            let mut i: usize = 0;
            while i < n
                invariant
                    n == fields@.len(),
                    0 <= i <= n,
                    spec_find_text_obj(fields@, target@, 0) == spec_find_text_obj(
                        fields@,
                        target@,
                        i as int,
                    ),
                decreases n - i,
            {
                if eq_ignore_ascii_case_str(fields[i].0.as_str(), target) {
                    match &fields[i].1 {
                        Json::Str(s) => {
                            return Some(s.clone());
                        },
                        _ => {},
                    }
                }
                proof {
                    assert(decreases_to!(*j => fields@[i as int].1));
                }
                match find_text_by_key(&fields[i].1, target) {
                    Some(s) => {
                        return Some(s);
                    },
                    None => {},
                }
                i += 1;
            }
            None
        },
        Json::Arr(items) => {
            let n = items.len();
            let mut i: usize = 0;
            while i < n
                invariant
                    n == items@.len(),
                    0 <= i <= n,
                    spec_find_text_arr(items@, target@, 0) == spec_find_text_arr(
                        items@,
                        target@,
                        i as int,
                    ),
                decreases n - i,
            {
                proof {
                    assert(decreases_to!(*j => items@[i as int]));
                }
                match find_text_by_key(&items[i], target) {
                    Some(s) => {
                        return Some(s);
                    },
                    None => {},
                }
                i += 1;
            }
            None
        },
        _ => None,
    }
}

/// First boolean value under `j` whose key equals `target` up to ASCII case.
pub open spec fn spec_find_bool(j: Json, target: Seq<char>) -> Option<bool>
    decreases j, 0int,
{
    match j {
        Json::Obj(fields) => spec_find_bool_obj(fields@, target, 0),
        Json::Arr(items) => spec_find_bool_arr(items@, target, 0),
        _ => None,
    }
}

pub open spec fn spec_find_bool_obj(
    fields: Seq<(String, Json)>,
    target: Seq<char>,
    i: int,
) -> Option<bool>
    decreases fields, fields.len() - i,
{
    if i < 0 || i >= fields.len() {
        None
    } else {
        let hit = if codes_eq_nocase(fields[i].0@, target) {
            match fields[i].1 {
                Json::Bool(b) => Some(b),
                _ => None,
            }
        } else {
            None
        };
        match hit {
            Some(b) => Some(b),
            None => match spec_find_bool(fields[i].1, target) {
                Some(b) => Some(b),
                None => spec_find_bool_obj(fields, target, i + 1),
            },
        }
    }
}

pub open spec fn spec_find_bool_arr(items: Seq<Json>, target: Seq<char>, i: int) -> Option<bool>
    decreases items, items.len() - i,
{
    if i < 0 || i >= items.len() {
        None
    } else {
        match spec_find_bool(items[i], target) {
            Some(b) => Some(b),
            None => spec_find_bool_arr(items, target, i + 1),
        }
    }
}

/// Depth-first search for the first boolean field named `target` (ASCII
/// case-insensitively).
#[verifier::loop_isolation(false)]
pub fn find_bool_by_key(j: &Json, target: &str) -> (r: Option<bool>)
    ensures
        r == spec_find_bool(*j, target@),
    decreases *j,
{
    match j {
        Json::Obj(fields) => {
            let n = fields.len();
            let mut i: usize = 0;
            while i < n
                invariant
                    n == fields@.len(),
                    0 <= i <= n,
                    spec_find_bool_obj(fields@, target@, 0) == spec_find_bool_obj(
                        fields@,
                        target@,
                        i as int,
                    ),
                decreases n - i,
            {
                if eq_ignore_ascii_case_str(fields[i].0.as_str(), target) {
                    match &fields[i].1 {
                        Json::Bool(b) => {
                            return Some(*b);
                        },
                        _ => {},
                    }
                }
                proof {
                    assert(decreases_to!(*j => fields@[i as int].1));
                }
                match find_bool_by_key(&fields[i].1, target) {
                    Some(b) => {
                        return Some(b);
                    },
                    None => {},
                }
                i += 1;
            }
            None
        },
        Json::Arr(items) => {
            let n = items.len();
            let mut i: usize = 0;
            while i < n
                invariant
                    n == items@.len(),
                    0 <= i <= n,
                    spec_find_bool_arr(items@, target@, 0) == spec_find_bool_arr(
                        items@,
                        target@,
                        i as int,
                    ),
                decreases n - i,
            {
                proof {
                    assert(decreases_to!(*j => items@[i as int]));
                }
                match find_bool_by_key(&items[i], target) {
                    Some(b) => {
                        return Some(b);
                    },
                    None => {},
                }
                i += 1;
            }
            None
        },
        _ => None,
    }
}

} // verus!
