use vstd::prelude::*;

use crate::text_util::{
    is_json_number, json_parse_i32, json_parse_i32_spec, json_number_text, opt_string_view,
    str_equal, strings_view, trim_spec,
};

verus! {

// ---------------------------------------------------------------------------
// The shape of raw upstream JSON, as far as ingestion reads it
// ---------------------------------------------------------------------------
//
// An upstream payload arrives as JSON text; the caller parses it and
// hands it over in this form. Every node carries `text`, its compact
// JSON rendering, which is what a tolerant string field falls back to
// when the value is not a string.

/// One element of an array-valued field.
#[derive(Debug, Clone, PartialEq)]
pub enum JsonItem {
    Null,
    Bool(bool),
    /// `int_value` is the value when the number is an integer that fits
    /// `i64`; `text` is its rendering.
    Num { text: String, int_value: Option<i64> },
    Str(String),
    /// A nested array or object; ingestion never reads into it.
    Complex,
}

/// The value of one field of an upstream record.
#[derive(Debug, Clone, PartialEq)]
pub enum JsonNode {
    Null,
    Bool(bool),
    Num { int_value: Option<i64> },
    Str(String),
    Arr(Vec<JsonItem>),
    Obj,
}

#[derive(Debug, Clone, PartialEq)]
pub struct JsonField {
    /// The compact JSON rendering of the value.
    pub text: String,
    pub node: JsonNode,
}

/// One upstream object, its fields in document order with unique names.
#[derive(Debug, Clone, PartialEq)]
pub struct JsonRecord {
    pub fields: Vec<(String, JsonField)>,
}

/// A whole upstream payload: a JSON array of objects, or anything else.
#[derive(Debug, Clone, PartialEq)]
pub enum JsonPayload {
    Records(Vec<JsonRecord>),
    Other,
}

/// A raw series-info payload: the episode lists keyed by season, in
/// season order, or anything else.
#[derive(Debug, Clone, PartialEq)]
pub enum SeriesInfoPayload {
    Seasons(Vec<(String, Vec<JsonRecord>)>),
    Other,
}

// ---------------------------------------------------------------------------
// Field lookup
// ---------------------------------------------------------------------------

/// The first field of the given name.
pub open spec fn rec_get(fields: Seq<(String, JsonField)>, name: Seq<char>) -> Option<JsonField>
    decreases fields.len(),
{
    if fields.len() == 0 {
        Option::None
    } else if fields[0].0@ == name {
        Option::Some(fields[0].1)
    } else {
        rec_get(fields.subrange(1, fields.len() as int), name)
    }
}

pub fn get_field<'a>(rec: &'a JsonRecord, name: &str) -> (r: Option<&'a JsonField>)
    ensures
        match r {
            Option::Some(f) => rec_get(rec.fields@, name@) == Option::Some(*f),
            Option::None => rec_get(rec.fields@, name@) == Option::None::<JsonField>,
        },
{
    let n = rec.fields.len();
    let mut i: usize = 0;
    proof {
        assert(rec.fields@.subrange(0, n as int) =~= rec.fields@);
    }
    while i < n
        invariant
            i <= n,
            n == rec.fields@.len(),
            rec_get(rec.fields@, name@) == rec_get(
                rec.fields@.subrange(i as int, n as int),
                name@,
            ),
        decreases n - i,
    {
        proof {
            let rest = rec.fields@.subrange(i as int, n as int);
            assert(rest.subrange(1, rest.len() as int) =~= rec.fields@.subrange(
                i + 1,
                n as int,
            ));
        }
        if str_equal(rec.fields[i].0.as_str(), name) {
            return Some(&rec.fields[i].1);
        }
        i += 1;
    }
    None
}

// ---------------------------------------------------------------------------
// Tolerant field readings
// ---------------------------------------------------------------------------

/// A field read as a string: the string itself when it is one, its JSON
/// rendering otherwise, and empty when the field is missing.
pub open spec fn field_string_spec(fields: Seq<(String, JsonField)>, name: Seq<char>) -> Seq<
    char,
> {
    match rec_get(fields, name) {
        Option::None => Seq::empty(),
        Option::Some(f) => match f.node {
            JsonNode::Str(s) => s@,
            _ => f.text@,
        },
    }
}

/// A field read as an optional string: present for a string or a
/// number, absent otherwise.
pub open spec fn field_opt_string_spec(
    fields: Seq<(String, JsonField)>,
    name: Seq<char>,
) -> Option<Seq<char>> {
    match rec_get(fields, name) {
        Option::None => Option::None,
        Option::Some(f) => match f.node {
            JsonNode::Str(s) => Option::Some(s@),
            JsonNode::Num { int_value } => Option::Some(f.text@),
            _ => Option::None,
        },
    }
}

/// A field read as an `i32` that may also arrive as a string holding a
/// JSON integer. Missing and null fields and unparsable strings give
/// `None`; a value of any other shape is a decode error.
pub open spec fn field_i32_spec(fields: Seq<(String, JsonField)>, name: Seq<char>) -> Result<
    Option<i32>,
    (),
> {
    match rec_get(fields, name) {
        Option::None => Result::Ok(Option::None),
        Option::Some(f) => match f.node {
            JsonNode::Null => Result::Ok(Option::None),
            JsonNode::Num { int_value } => match int_value {
                Option::Some(n) => if i32::MIN <= n <= i32::MAX {
                    Result::Ok(Option::Some(n as i32))
                } else {
                    Result::Err(())
                },
                Option::None => Result::Err(()),
            },
            JsonNode::Str(s) => Result::Ok(json_parse_i32_spec(s@)),
            _ => Result::Err(()),
        },
    }
}

/// A numeric field kept as its decimal rendering. A string value is
/// accepted when it is one JSON number literal; missing, null and
/// non-numeric strings give `None`; other shapes are a decode error.
pub open spec fn field_num_text_spec(fields: Seq<(String, JsonField)>, name: Seq<char>) -> Result<
    Option<Seq<char>>,
    (),
> {
    match rec_get(fields, name) {
        Option::None => Result::Ok(Option::None),
        Option::Some(f) => match f.node {
            JsonNode::Null => Result::Ok(Option::None),
            JsonNode::Num { int_value } => Result::Ok(Option::Some(f.text@)),
            JsonNode::Str(s) => if is_json_number(trim_spec(s@)) {
                Result::Ok(Option::Some(trim_spec(s@)))
            } else {
                Result::Ok(Option::None)
            },
            _ => Result::Err(()),
        },
    }
}

/// The string reading of one array element, when it has one.
pub open spec fn item_string_view(it: JsonItem) -> Option<Seq<char>> {
    match it {
        JsonItem::Null => Option::None,
        JsonItem::Bool(b) => Option::Some(
            if b {
                "true"@
            } else {
                "false"@
            },
        ),
        JsonItem::Num { text, int_value } => Option::Some(text@),
        JsonItem::Str(s) => Option::Some(s@),
        JsonItem::Complex => Option::None,
    }
}

/// The string readings of the elements of an array, unreadable elements
/// left out.
pub open spec fn items_string_views(items: Seq<JsonItem>) -> Seq<Seq<char>>
    decreases items.len(),
{
    if items.len() == 0 {
        Seq::empty()
    } else {
        let pre = items_string_views(items.subrange(0, items.len() - 1));
        match item_string_view(items[items.len() - 1]) {
            Option::Some(v) => pre.push(v),
            Option::None => pre,
        }
    }
}

/// A field read as an array of strings; anything that is not an array
/// gives `None`.
pub open spec fn field_string_array_spec(
    fields: Seq<(String, JsonField)>,
    name: Seq<char>,
) -> Option<Seq<Seq<char>>> {
    match rec_get(fields, name) {
        Option::None => Option::None,
        Option::Some(f) => match f.node {
            JsonNode::Arr(items) => Option::Some(items_string_views(items@)),
            _ => Option::None,
        },
    }
}

pub fn field_string(rec: &JsonRecord, name: &str) -> (r: String)
    ensures
        r@ == field_string_spec(rec.fields@, name@),
{
    match get_field(rec, name) {
        None => String::new(),
        Some(f) => match &f.node {
            JsonNode::Str(s) => s.clone(),
            _ => f.text.clone(),
        },
    }
}

pub fn field_opt_string(rec: &JsonRecord, name: &str) -> (r: Option<String>)
    ensures
        opt_string_view(r) == field_opt_string_spec(rec.fields@, name@),
{
    match get_field(rec, name) {
        None => None,
        Some(f) => match &f.node {
            JsonNode::Str(s) => Some(s.clone()),
            JsonNode::Num { .. } => Some(f.text.clone()),
            _ => None,
        },
    }
}

pub fn field_i32(rec: &JsonRecord, name: &str) -> (r: Result<Option<i32>, ()>)
    ensures
        r == field_i32_spec(rec.fields@, name@),
{
    match get_field(rec, name) {
        None => Ok(None),
        Some(f) => match &f.node {
            JsonNode::Null => Ok(None),
            JsonNode::Num { int_value } => match int_value {
                Some(n) => {
                    let n = *n;
                    if -2147483648i64 <= n && n <= 2147483647i64 {
                        Ok(Some(n as i32))
                    } else {
                        Err(())
                    }
                },
                None => Err(()),
            },
            JsonNode::Str(s) => Ok(json_parse_i32(s.as_str())),
            _ => Err(()),
        },
    }
}

pub fn field_num_text(rec: &JsonRecord, name: &str) -> (r: Result<Option<String>, ()>)
    ensures
        match r {
            Result::Ok(o) => field_num_text_spec(rec.fields@, name@) == Result::Ok::<
                Option<Seq<char>>,
                (),
            >(opt_string_view(o)),
            Result::Err(e) => field_num_text_spec(rec.fields@, name@) == Result::Err::<
                Option<Seq<char>>,
                (),
            >(()),
        },
{
    match get_field(rec, name) {
        None => Ok(None),
        Some(f) => match &f.node {
            JsonNode::Null => Ok(None),
            JsonNode::Num { .. } => Ok(Some(f.text.clone())),
            JsonNode::Str(s) => Ok(json_number_text(s.as_str())),
            _ => Err(()),
        },
    }
}

fn item_string(it: &JsonItem) -> (r: Option<String>)
    ensures
        opt_string_view(r) == item_string_view(*it),
{
    match it {
        JsonItem::Null => None,
        JsonItem::Bool(b) => Some(
            String::from_str(
                if *b {
                    "true"
                } else {
                    "false"
                },
            ),
        ),
        JsonItem::Num { text, .. } => Some(text.clone()),
        JsonItem::Str(s) => Some(s.clone()),
        JsonItem::Complex => None,
    }
}

pub fn field_string_array(rec: &JsonRecord, name: &str) -> (r: Option<Vec<String>>)
    ensures
        match r {
            Option::Some(v) => field_string_array_spec(rec.fields@, name@) == Option::Some(
                strings_view(v@),
            ),
            Option::None => field_string_array_spec(rec.fields@, name@) == Option::None::<
                Seq<Seq<char>>,
            >,
        },
{
    match get_field(rec, name) {
        None => None,
        Some(f) => match &f.node {
            JsonNode::Arr(items) => {
                let mut out: Vec<String> = Vec::new();
                let n = items.len();
                let mut j: usize = 0;
                proof {
                    assert(items@.subrange(0, 0) =~= Seq::<JsonItem>::empty());
                    assert(strings_view(out@) =~= items_string_views(items@.subrange(0, 0)));
                }
                while j < n
                    invariant
                        j <= n,
                        n == items@.len(),
                        strings_view(out@) == items_string_views(items@.subrange(0, j as int)),
                    decreases n - j,
                {
                    proof {
                        assert(items@.subrange(0, j + 1).subrange(0, j as int) =~= items@.subrange(
                            0,
                            j as int,
                        ));
                    }
                    match item_string(&items[j]) {
                        Some(s) => {
                            out.push(s);
                            proof {
                                assert(strings_view(out@) =~= items_string_views(
                                    items@.subrange(0, j + 1),
                                ));
                            }
                        },
                        None => {
                            proof {
                                assert(strings_view(out@) =~= items_string_views(
                                    items@.subrange(0, j + 1),
                                ));
                            }
                        },
                    }
                    j += 1;
                }
                proof {
                    assert(items@.subrange(0, n as int) =~= items@);
                }
                Some(out)
            },
            _ => None,
        },
    }
}

} // verus!
