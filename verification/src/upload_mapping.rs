//! Upload mapping: incoming columns matched to properties (explicit
//! mappings, exact names, then the most similar name), raw text coerced to
//! a property's data type, and written records checked for required fields.

use vstd::prelude::*;
use crate::agent_tools::{parse_json, parsed_json};
use crate::agent_loop::{join_texts, joined};
use crate::ir::{DataType, Property};
use crate::primitives::{
    concat, json_from_i64, json_from_str, json_integer, json_string, str_eq, ApiName, Error,
    ErrorView, StringMap,
};
use crate::text::{decimal_string, decimal_text, edit_distance, i64_from_text, levenshtein, parse_i64};

verus! {

/// Text in lower case, as std's Unicode lower-casing gives it.
pub uninterp spec fn lowercase(text: Seq<char>) -> Seq<char>;

/// `text` in lower case (`str::to_lowercase`).
#[verifier::external_body]
pub(crate) fn to_lowercase(text: &str) -> (result: String)
    ensures
        result@ == lowercase(text@),
{
    text.to_lowercase()
}

/// The JSON boolean value `b`.
pub uninterp spec fn json_boolean(b: bool) -> serde_json::Value;

/// JSON boolean value of `b`.
#[verifier::external_body]
pub(crate) fn json_from_bool(b: bool) -> (result: serde_json::Value)
    ensures
        result == json_boolean(b),
{
    serde_json::Value::from(b)
}

/// Whether a JSON value is null.
pub uninterp spec fn json_is_null(value: serde_json::Value) -> bool;

/// Whether `value` is JSON null.
#[verifier::external_body]
pub(crate) fn is_json_null(value: &serde_json::Value) -> (result: bool)
    ensures
        result == json_is_null(*value),
{
    value.is_null()
}

/// RFC 3339 text of the date-time that `raw` writes in RFC 3339, if it does.
pub uninterp spec fn rfc3339_text(raw: Seq<char>) -> Option<Seq<char>>;

/// Read `raw` as an RFC 3339 date-time and write it back in RFC 3339.
#[verifier::external_body]
pub(crate) fn normalize_rfc3339(raw: &str) -> (result: Option<String>)
    ensures
        match result {
            Some(t) => rfc3339_text(raw@) == Some(t@),
            None => rfc3339_text(raw@) is None,
        },
{
    chrono::DateTime::parse_from_rfc3339(raw).ok().map(|dt| dt.to_rfc3339())
}

/// Text of the date-time without time zone that `raw` writes in `format`, if it does.
pub uninterp spec fn naive_datetime_text(raw: Seq<char>, format: Seq<char>) -> Option<Seq<char>>;

/// Read `raw` as a date-time without time zone in `format` and write it back.
#[verifier::external_body]
pub(crate) fn normalize_naive_datetime(raw: &str, format: &str) -> (result: Option<String>)
    ensures
        match result {
            Some(t) => naive_datetime_text(raw@, format@) == Some(t@),
            None => naive_datetime_text(raw@, format@) is None,
        },
{
    chrono::NaiveDateTime::parse_from_str(raw, format).ok().map(|dt| dt.to_string())
}

/// Hyphenated lower-case text of the UUID that `raw` writes, if it writes one.
pub uninterp spec fn uuid_text(raw: Seq<char>) -> Option<Seq<char>>;

/// Read `raw` as a UUID and write it back hyphenated.
#[verifier::external_body]
pub(crate) fn normalize_uuid(raw: &str) -> (result: Option<String>)
    ensures
        match result {
            Some(t) => uuid_text(raw@) == Some(t@),
            None => uuid_text(raw@) is None,
        },
{
    uuid::Uuid::parse_str(raw).ok().map(|u| u.to_string())
}

/// Format of date-times without time zone accepted in uploads.
pub const NAIVE_DATETIME_FORMAT: &'static str = "%Y-%m-%d %H:%M:%S";

/// The JSON null value: what the text `null` parses to.
pub open spec fn json_null() -> serde_json::Value {
    match parsed_json("null"@) {
        Some(v) => v,
        None => json_string("null"@),
    }
}

/// The JSON null value.
pub fn null_value() -> (result: serde_json::Value)
    ensures
        result == json_null(),
{
    match parse_json("null") {
        Some(v) => v,
        None => json_from_str("null"),
    }
}

/// Message of a value that cannot be read as `what` for property `name`.
pub open spec fn cannot_parse(raw: Seq<char>, what: Seq<char>, name: Seq<char>) -> Seq<char> {
    "cannot parse '"@ + raw + "' as "@ + what + " for property '"@ + name + "'"@
}

/// Words read as true.
pub open spec fn true_word(w: Seq<char>) -> bool {
    w == "true"@ || w == "1"@ || w == "yes"@ || w == "t"@ || w == "y"@
}

/// Words read as false.
pub open spec fn false_word(w: Seq<char>) -> bool {
    w == "false"@ || w == "0"@ || w == "no"@ || w == "f"@ || w == "n"@
}

/// The value that raw text `raw` stands for in property `prop`: null for
/// empty text of a nullable property; else read by data type. A float is
/// read by the caller, which passes `float_value`: the JSON number that
/// `raw` reads as, if it reads as one.
pub open spec fn coerced(raw: Seq<char>, prop: Property, float_value: Option<serde_json::Value>) -> Result<serde_json::Value, ErrorView> {
    let name = prop.api_name@;
    if raw.len() == 0 && prop.nullable == Some(true) {
        Ok(json_null())
    } else {
        match prop.data_type {
            DataType::Integer | DataType::BigInt => match i64_from_text(raw) {
                Some(n) => Ok(json_integer(n as int)),
                None => Err(ErrorView::Validation(cannot_parse(raw, "integer"@, name))),
            },
            DataType::Float | DataType::Decimal => match float_value {
                Some(v) => Ok(v),
                None => Err(ErrorView::Validation(cannot_parse(raw, "float"@, name))),
            },
            DataType::Boolean => if true_word(lowercase(raw)) {
                Ok(json_boolean(true))
            } else if false_word(lowercase(raw)) {
                Ok(json_boolean(false))
            } else {
                Err(ErrorView::Validation(cannot_parse(raw, "boolean"@, name)))
            },
            DataType::Timestamp | DataType::Date => match rfc3339_text(raw) {
                Some(t) => Ok(json_string(t)),
                None => match naive_datetime_text(raw, NAIVE_DATETIME_FORMAT@) {
                    Some(t) => Ok(json_string(t)),
                    None => Err(ErrorView::Validation(cannot_parse(raw, "datetime"@, name))),
                },
            },
            DataType::Uuid => match uuid_text(raw) {
                Some(t) => Ok(json_string(t)),
                None => Err(ErrorView::Validation(cannot_parse(raw, "uuid"@, name))),
            },
            _ => Ok(json_string(raw)),
        }
    }
}

/// Error of a value that cannot be read as `what` for property `name`.
fn parse_error(raw: &str, what: &str, name: &ApiName) -> (result: Error)
    ensures
        result@ == ErrorView::Validation(cannot_parse(raw@, what@, name@)),
{
    let mut message = concat("cannot parse '", raw);
    message.append("' as ");
    message.append(what);
    message.append(" for property '");
    message.append(name.as_str());
    message.append("'");
    Error::Validation { message }
}

/// Coerce raw text `raw` into the data type of property `prop`; for floats,
/// `float_value` is the JSON number that `raw` reads as, if any.
pub fn coerce_value(raw: &str, prop: &Property, float_value: Option<serde_json::Value>) -> (result: Result<serde_json::Value, Error>)
    ensures
        match coerced(raw@, *prop, float_value) {
            Ok(v) => result == Ok::<serde_json::Value, Error>(v),
            Err(e) => result matches Err(x) && x@ == e,
        },
{
    if raw.is_empty() && prop.nullable == Some(true) {
        return Ok(null_value());
    }
    match prop.data_type {
        DataType::Integer | DataType::BigInt => match parse_i64(raw) {
            Some(n) => Ok(json_from_i64(n)),
            None => Err(parse_error(raw, "integer", &prop.api_name)),
        },
        DataType::Float | DataType::Decimal => match float_value {
            Some(v) => Ok(v),
            None => Err(parse_error(raw, "float", &prop.api_name)),
        },
        DataType::Boolean => {
            let lower = to_lowercase(raw);
            let w = lower.as_str();
            proof {
                reveal_strlit("true");
                reveal_strlit("1");
                reveal_strlit("yes");
                reveal_strlit("t");
                reveal_strlit("y");
                reveal_strlit("false");
                reveal_strlit("0");
                reveal_strlit("no");
                reveal_strlit("f");
                reveal_strlit("n");
            }
            if str_eq(w, "true") || str_eq(w, "1") || str_eq(w, "yes") || str_eq(w, "t") || str_eq(w, "y") {
                Ok(json_from_bool(true))
            } else if str_eq(w, "false") || str_eq(w, "0") || str_eq(w, "no") || str_eq(w, "f") || str_eq(w, "n") {
                Ok(json_from_bool(false))
            } else {
                Err(parse_error(raw, "boolean", &prop.api_name))
            }
        },
        DataType::Timestamp | DataType::Date => match normalize_rfc3339(raw) {
            Some(t) => Ok(json_from_str(t.as_str())),
            None => match normalize_naive_datetime(raw, NAIVE_DATETIME_FORMAT) {
                Some(t) => Ok(json_from_str(t.as_str())),
                None => Err(parse_error(raw, "datetime", &prop.api_name)),
            },
        },
        DataType::Uuid => match normalize_uuid(raw) {
            Some(t) => Ok(json_from_str(t.as_str())),
            None => Err(parse_error(raw, "uuid", &prop.api_name)),
        },
        _ => Ok(json_from_str(raw)),
    }
}

/// Bytes of the UTF-8 encoding of `text`.
pub open spec fn utf8_len(text: Seq<char>) -> int {
    vstd::utf8::encode_utf8(text).len() as int
}

/// Similarity of two names as a fraction (numerator, denominator): one
/// minus their edit distance over the byte length of the longer; one when
/// both are empty.
pub open spec fn similarity_of(a: Seq<char>, b: Seq<char>) -> (int, int) {
    let m = if utf8_len(a) >= utf8_len(b) { utf8_len(a) } else { utf8_len(b) };
    if m == 0 {
        (1, 1)
    } else {
        (m - edit_distance(a, b), m)
    }
}

/// A similarity above four fifths.
pub open spec fn similar_enough(s: (int, int)) -> bool {
    5 * s.0 > 4 * s.1
}

/// Similarity `s` is greater than similarity `t`.
pub open spec fn more_similar(s: (int, int), t: (int, int)) -> bool {
    s.0 * t.1 > t.0 * s.1
}

/// Two names can be compared: each has fewer than `usize::MAX` characters.
pub open spec fn comparable(a: Seq<char>, b: Seq<char>) -> bool {
    a.len() < usize::MAX && b.len() < usize::MAX
}

/// Position of the name most similar to `col` among `names`, when it is
/// similar enough; the first such on ties.
pub open spec fn best_similar(col: Seq<char>, names: Seq<Seq<char>>) -> Option<int>
    decreases names.len(),
{
    if names.len() == 0 {
        None
    } else {
        let k = names.len() - 1;
        let prev = best_similar(col, names.drop_last());
        let s = similarity_of(col, names[k]);
        if comparable(col, names[k]) && similar_enough(s) && match prev {
            None => true,
            Some(j) => more_similar(s, similarity_of(col, names[j])),
        } {
            Some(k)
        } else {
            prev
        }
    }
}

/// Name `names[j]` can be compared with `col` and is similar enough to it.
pub open spec fn candidate(col: Seq<char>, names: Seq<Seq<char>>, j: int) -> bool {
    comparable(col, names[j]) && similar_enough(similarity_of(col, names[j]))
}

/// Fractions with positive denominators are ordered transitively: one no
/// greater than a second, which is below a third, is below the third.
proof fn lemma_fraction_order(aj: int, bj: int, ap: int, bp: int, ak: int, bk: int)
    by (nonlinear_arith)
    requires
        bj > 0,
        bp > 0,
        bk > 0,
        aj * bp <= ap * bj,
        ak * bp > ap * bk,
    ensures
        aj * bk < ak * bj,
{
    assert(aj * bp * bk <= ap * bj * bk);
    assert(ak * bp * bj > ap * bk * bj);
    assert(aj * bk * bp < ak * bj * bp);
}

/// The most similar name wins: the position that fuzzy matching picks holds
/// a name similar enough to `col`, no similar-enough name is more similar
/// to `col` than it, and every similar-enough name before it is less
/// similar, so ties go to the first. Where none is picked, no name is
/// similar enough.
pub proof fn lemma_best_similar_is_most_similar(col: Seq<char>, names: Seq<Seq<char>>)
    ensures
        match best_similar(col, names) {
            Some(k) => 0 <= k < names.len() && candidate(col, names, k) && forall|j: int|
                0 <= j < names.len() && #[trigger] candidate(col, names, j) ==> !more_similar(
                    similarity_of(col, names[j]),
                    similarity_of(col, names[k]),
                ) && (j < k ==> more_similar(similarity_of(col, names[k]), similarity_of(col, names[j]))),
            None => forall|j: int| 0 <= j < names.len() ==> !#[trigger] candidate(col, names, j),
        },
    decreases names.len(),
{
    if names.len() > 0 {
        let rest = names.drop_last();
        let last = names.len() - 1;
        lemma_best_similar_is_most_similar(col, rest);
        assert forall|j: int| 0 <= j < last implies #[trigger] candidate(col, names, j) == candidate(col, rest, j) by {
            assert(names[j] == rest[j]);
        }
        let s = similarity_of(col, names[last]);
        match best_similar(col, rest) {
            Some(p) => {
                assert(names[p] == rest[p]);
                if candidate(col, names, last) && more_similar(s, similarity_of(col, names[p])) {
                    assert(best_similar(col, names) == Some(last));
                    assert forall|j: int| 0 <= j < names.len() && #[trigger] candidate(col, names, j) implies !more_similar(
                        similarity_of(col, names[j]),
                        similarity_of(col, names[last]),
                    ) && (j < last ==> more_similar(similarity_of(col, names[last]), similarity_of(col, names[j]))) by {
                        if j < last {
                            assert(candidate(col, rest, j));
                            let sj = similarity_of(col, names[j]);
                            let sp = similarity_of(col, names[p]);
                            assert(rest[j] == names[j]);
                            lemma_fraction_order(sj.0, sj.1, sp.0, sp.1, s.0, s.1);
                        }
                    }
                } else {
                    assert(best_similar(col, names) == Some(p));
                }
            },
            None => {},
        }
    }
}

/// A name that is exactly the column is fully similar to it, so where one
/// is present some name is picked, and the picked name is fully similar to
/// the column too.
pub proof fn lemma_exact_name_picked(col: Seq<char>, names: Seq<Seq<char>>, e: int)
    requires
        0 <= e < names.len(),
        names[e] == col,
        comparable(col, col),
    ensures
        similarity_of(col, names[e]).0 == similarity_of(col, names[e]).1,
        best_similar(col, names) matches Some(k) && similarity_of(col, names[k]).0 == similarity_of(col, names[k]).1,
{
    crate::text::lemma_edit_distance_identity(col);
    lemma_best_similar_is_most_similar(col, names);
    assert(candidate(col, names, e));
    let k = best_similar(col, names)->0;
    let se = similarity_of(col, names[e]);
    let sk = similarity_of(col, names[k]);
    assert(!more_similar(se, sk));
    let m = se.1;
    assert(m > 0);
    assert(m * sk.1 <= sk.0 * m);
    assert(sk.1 <= sk.0) by (nonlinear_arith)
        requires
            m > 0,
            m * sk.1 <= sk.0 * m,
    ;
}

/// Lower-cased names of properties.
pub open spec fn lowered_names(props: Seq<Property>) -> Seq<Seq<char>> {
    props.map_values(|p: Property| lowercase(p.api_name@))
}

/// Number of characters of `text`.
fn char_count(text: &str) -> (result: usize)
    ensures
        result == text@.len(),
{
    crate::text::chars_of(text).len()
}

/// Similarity of two names, computed.
fn similarity(a: &str, b: &str) -> (result: (usize, usize))
    requires
        comparable(a@, b@),
    ensures
        result.0 as int == similarity_of(a@, b@).0,
        result.1 as int == similarity_of(a@, b@).1,
{
    let la = a.as_bytes().len();
    let lb = b.as_bytes().len();
    let m = if la >= lb { la } else { lb };
    if m == 0 {
        return (1, 1);
    }
    let d = levenshtein(a, b);
    proof {
        crate::text::lemma_edit_distance_bound(a@, b@);
        lemma_chars_within_bytes(a@);
        lemma_chars_within_bytes(b@);
    }
    (m - d, m)
}

/// A text has no more characters than bytes.
proof fn lemma_chars_within_bytes(text: Seq<char>)
    ensures
        text.len() <= utf8_len(text),
    decreases text.len(),
{
    if text.len() > 0 {
        lemma_chars_within_bytes(text.drop_first());
        vstd::utf8::char_is_scalar(text[0]);
    }
}

/// Whether similarity `s` is above four fifths.
fn is_similar_enough(s: (usize, usize)) -> (result: bool)
    ensures
        result == similar_enough((s.0 as int, s.1 as int)),
{
    5 * (s.0 as u128) > 4 * (s.1 as u128)
}

/// Whether similarity `s` is greater than `t`.
fn is_more_similar(s: (usize, usize), t: (usize, usize)) -> (result: bool)
    ensures
        result == more_similar((s.0 as int, s.1 as int), (t.0 as int, t.1 as int)),
{
    let a = s.0 as u128;
    let b = t.1 as u128;
    let c = t.0 as u128;
    let d = s.1 as u128;
    proof {
        vstd::arithmetic::mul::lemma_mul_upper_bound(a as int, u64::MAX as int, b as int, u64::MAX as int);
        vstd::arithmetic::mul::lemma_mul_upper_bound(c as int, u64::MAX as int, d as int, u64::MAX as int);
        assert(u64::MAX as int * u64::MAX as int <= u128::MAX) by (nonlinear_arith);
    }
    a * b > c * d
}

/// The property name most similar to `col`, case ignored, when it is
/// similar enough.
pub fn fuzzy_match(col: &str, properties: &Vec<Property>) -> (result: Option<String>)
    ensures
        match best_similar(lowercase(col@), lowered_names(properties@)) {
            Some(k) => result matches Some(name) && name@ == properties@[k].api_name@,
            None => result is None,
        },
{
    let col_lower = to_lowercase(col);
    let ghost names = lowered_names(properties@);
    let mut best: Option<(usize, (usize, usize))> = None;
    let mut i: usize = 0;
    while i < properties.len()
        invariant
            i <= properties@.len(),
            names == lowered_names(properties@),
            col_lower@ == lowercase(col@),
            match best_similar(col_lower@, names.take(i as int)) {
                Some(k) => best matches Some((b, s)) && b == k && s.0 as int == similarity_of(col_lower@, names[k]).0
                    && s.1 as int == similarity_of(col_lower@, names[k]).1 && k < i,
                None => best is None,
            },
        decreases properties@.len() - i,
    {
        proof {
            assert(names.take(i + 1).drop_last() =~= names.take(i as int));
            assert(names.take(i + 1)[i as int] == names[i as int]);
        }
        let name = to_lowercase(properties[i].api_name.as_str());
        let comparable_now = char_count(col_lower.as_str()) < usize::MAX && char_count(name.as_str()) < usize::MAX;
        if comparable_now {
            let s = similarity(col_lower.as_str(), name.as_str());
            if is_similar_enough(s) {
                let better = match best {
                    None => true,
                    Some((_, t)) => is_more_similar(s, t),
                };
                if better {
                    best = Some((i, s));
                }
            }
        }
        i = i + 1;
    }
    proof {
        assert(names.take(i as int) =~= names);
    }
    match best {
        Some((k, _)) => Some(properties[k].api_name.as_str().to_owned()),
        None => None,
    }
}

/// Maps incoming column names to property names.
pub struct UploadMappingEngine {
    /// Explicit column to property mappings.
    pub explicit: StringMap<String>,
    /// Whether to fall back to the most similar property name.
    pub heuristic: bool,
}

/// Explicit mappings declared by properties: each source column maps to
/// its property's name, a later property winning for a shared column.
pub open spec fn explicit_mappings(props: Seq<Property>) -> Map<Seq<char>, Seq<char>>
    decreases props.len(),
{
    if props.len() == 0 {
        Map::empty()
    } else {
        let before = explicit_mappings(props.drop_last());
        match props.last().source_column {
            Some(col) => before.insert(col@, props.last().api_name@),
            None => before,
        }
    }
}

/// Views of the values of a map of texts.
pub open spec fn text_map(m: Map<Seq<char>, String>) -> Map<Seq<char>, Seq<char>> {
    m.map_values(|v: String| v@)
}

/// Some property of `props` is named `name`.
pub open spec fn has_property_named(props: Seq<Property>, name: Seq<char>) -> bool {
    exists|i: int| 0 <= i < props.len() && #[trigger] props[i].api_name@ == name
}

impl UploadMappingEngine {
    /// An engine with the column mappings that `properties` declare, with
    /// the similarity fallback on.
    pub fn from_object_type(properties: &Vec<Property>) -> (result: UploadMappingEngine)
        ensures
            result.explicit.wf(),
            text_map(result.explicit.as_map()) == explicit_mappings(properties@),
            result.heuristic,
    {
        let mut explicit: StringMap<String> = StringMap::new();
        let mut i: usize = 0;
        proof {
            assert(text_map(explicit.as_map()) =~= explicit_mappings(properties@.take(0)));
        }
        while i < properties.len()
            invariant
                i <= properties@.len(),
                explicit.wf(),
                text_map(explicit.as_map()) == explicit_mappings(properties@.take(i as int)),
            decreases properties@.len() - i,
        {
            proof {
                assert(properties@.take(i + 1).drop_last() =~= properties@.take(i as int));
            }
            let ghost before = explicit.as_map();
            match &properties[i].source_column {
                Some(col) => {
                    let name = properties[i].api_name.as_str().to_owned();
                    explicit.insert(col.clone(), name);
                    proof {
                        assert(text_map(explicit.as_map()) =~= text_map(before).insert(col@, properties@[i as int].api_name@));
                    }
                },
                None => {},
            }
            i = i + 1;
        }
        proof {
            assert(properties@.take(i as int) =~= properties@);
        }
        UploadMappingEngine { explicit, heuristic: true }
    }

    /// The property that column `col` maps to: an explicit mapping first,
    /// then a property of that exact name, then the most similar name when
    /// the fallback is on.
    pub fn map_column(&self, col: &str, properties: &Vec<Property>) -> (result: Option<String>)
        requires
            self.explicit.wf(),
        ensures
            self.explicit.as_map().contains_key(col@) ==> (result matches Some(s) && s@ == self.explicit.as_map()[col@]@),
            !self.explicit.as_map().contains_key(col@) && has_property_named(properties@, col@) ==> (result matches Some(
                s,
            ) && s@ == col@),
            !self.explicit.as_map().contains_key(col@) && !has_property_named(properties@, col@) ==> (if self.heuristic {
                match best_similar(lowercase(col@), lowered_names(properties@)) {
                    Some(k) => result matches Some(name) && name@ == properties@[k].api_name@,
                    None => result is None,
                }
            } else {
                result is None
            }),
    {
        match self.explicit.get(col) {
            Some(mapped) => {
                return Some(mapped.clone());
            },
            None => {},
        }
        let mut i: usize = 0;
        while i < properties.len()
            invariant
                i <= properties@.len(),
                !self.explicit.as_map().contains_key(col@),
                forall|j: int| 0 <= j < i ==> properties@[j].api_name@ != col@,
            decreases properties@.len() - i,
        {
            if str_eq(properties[i].api_name.as_str(), col) {
                return Some(col.to_owned());
            }
            i = i + 1;
        }
        if self.heuristic {
            fuzzy_match(col, properties)
        } else {
            None
        }
    }
}

/// Problems of one field of row `idx`: a required field that is missing,
/// or present but null.
pub open spec fn field_problems(idx: nat, record: Map<Seq<char>, serde_json::Value>, prop: Property) -> Seq<Seq<char>> {
    let key = prop.api_name@;
    let required = prop.nullable != Some(true);
    let missing = if required && !record.contains_key(key) {
        seq!["row "@ + decimal_text(idx) + ": missing required field '"@ + key + "'"@]
    } else {
        Seq::empty()
    };
    let null = if record.contains_key(key) && json_is_null(record[key]) && required {
        seq!["row "@ + decimal_text(idx) + ": null value for required field '"@ + key + "'"@]
    } else {
        Seq::empty()
    };
    missing + null
}

/// Problems of row `idx`, property by property.
pub open spec fn row_problems(idx: nat, record: Map<Seq<char>, serde_json::Value>, props: Seq<Property>) -> Seq<Seq<char>>
    decreases props.len(),
{
    if props.len() == 0 {
        Seq::empty()
    } else {
        row_problems(idx, record, props.drop_last()) + field_problems(idx, record, props.last())
    }
}

/// Problems of all rows, row by row.
pub open spec fn record_problems(records: Seq<Map<Seq<char>, serde_json::Value>>, props: Seq<Property>) -> Seq<Seq<char>>
    decreases records.len(),
{
    if records.len() == 0 {
        Seq::empty()
    } else {
        record_problems(records.drop_last(), props) + row_problems(
            (records.len() - 1) as nat,
            records.last(),
            props,
        )
    }
}

/// Contents of a list of records.
pub open spec fn record_contents(records: Seq<StringMap<serde_json::Value>>) -> Seq<Map<Seq<char>, serde_json::Value>> {
    records.map_values(|r: StringMap<serde_json::Value>| r.as_map())
}

/// Each record holds each key once.
pub open spec fn records_wf(records: Seq<StringMap<serde_json::Value>>) -> bool {
    forall|i: int| 0 <= i < records.len() ==> #[trigger] records[i].wf()
}

/// Push the problems of one field.
fn push_field_problems(
    problems: &mut Vec<String>,
    idx: usize,
    record: &StringMap<serde_json::Value>,
    prop: &Property,
)
    requires
        record.wf(),
    ensures
        final(problems)@.map_values(|p: String| p@) == old(problems)@.map_values(|p: String| p@)
            + field_problems(idx as nat, record.as_map(), *prop),
{
    let ghost before = problems@.map_values(|p: String| p@);
    let key = prop.api_name.as_str();
    let required = prop.nullable != Some(true);
    let row = decimal_string(idx);
    if required && !record.contains_key(key) {
        let mut line = concat("row ", row.as_str());
        line.append(": missing required field '");
        line.append(key);
        line.append("'");
        problems.push(line);
    }
    let is_null = match record.get(key) {
        Some(v) => is_json_null(v),
        None => false,
    };
    if is_null && required {
        let mut line = concat("row ", row.as_str());
        line.append(": null value for required field '");
        line.append(key);
        line.append("'");
        problems.push(line);
    }
    proof {
        let f = field_problems(idx as nat, record.as_map(), *prop);
        assert(problems@.map_values(|p: String| p@) =~= before + f);
    }
}

/// Check `records` against the properties of their object type: every
/// field that is not nullable must be present and not null.
pub fn validate_records(records: &Vec<StringMap<serde_json::Value>>, properties: &Vec<Property>) -> (result: Result<(), Error>)
    requires
        records_wf(records@),
    ensures
        ({
            let problems = record_problems(record_contents(records@), properties@);
            if problems.len() == 0 {
                result is Ok
            } else {
                result matches Err(e) && e@ == ErrorView::Validation(joined(problems, "; "@))
            }
        }),
{
    let ghost all = record_contents(records@);
    let mut problems: Vec<String> = Vec::new();
    let mut r: usize = 0;
    while r < records.len()
        invariant
            r <= records@.len(),
            records_wf(records@),
            all == record_contents(records@),
            problems@.map_values(|p: String| p@) == record_problems(all.take(r as int), properties@),
        decreases records@.len() - r,
    {
        let ghost before_row = problems@.map_values(|p: String| p@);
        let mut k: usize = 0;
        while k < properties.len()
            invariant
                k <= properties@.len(),
                r < records@.len(),
                records_wf(records@),
                all == record_contents(records@),
                problems@.map_values(|p: String| p@) == before_row + row_problems(
                    r as nat,
                    all[r as int],
                    properties@.take(k as int),
                ),
            decreases properties@.len() - k,
        {
            proof {
                assert(properties@.take(k + 1).drop_last() =~= properties@.take(k as int));
                assert(all[r as int] == records@[r as int].as_map());
            }
            push_field_problems(&mut problems, r, &records[r], &properties[k]);
            proof {
                assert(problems@.map_values(|p: String| p@) =~= before_row + row_problems(
                    r as nat,
                    all[r as int],
                    properties@.take(k + 1),
                ));
            }
            k = k + 1;
        }
        proof {
            assert(properties@.take(k as int) =~= properties@);
            assert(all.take(r + 1).drop_last() =~= all.take(r as int));
            assert(all.take(r + 1).last() == all[r as int]);
            assert(problems@.map_values(|p: String| p@) =~= record_problems(all.take(r + 1), properties@));
        }
        r = r + 1;
    }
    proof {
        assert(all.take(r as int) =~= all);
    }
    if problems.len() == 0 {
        Ok(())
    } else {
        let message = join_texts(&problems, "; ");
        Err(Error::Validation { message })
    }
}

} // verus!
