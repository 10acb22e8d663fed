//! Versioning of ontology records: snapshots of declared fields, values
//! restored from a snapshot, and the next version number.

use vstd::prelude::*;
use crate::agents::{json_as_i64, json_copy, json_i64};
use crate::primitives::{str_eq, ApiName, Error, ErrorView, StringMap};
use crate::upload_mapping::{json_null, null_value};

verus! {

/// A record: its primary key and its values by field name.
#[derive(Debug)]
pub struct Record {
    /// Primary key.
    pub primary_key: Option<serde_json::Value>,
    /// Values by field name.
    pub values: StringMap<serde_json::Value>,
}

/// The JSON object with `entries`, a later entry winning for a repeated key.
pub uninterp spec fn json_object(entries: Seq<(Seq<char>, serde_json::Value)>) -> serde_json::Value;

/// Views of the keys of a list of entries.
pub open spec fn keyed(entries: Seq<(String, serde_json::Value)>) -> Seq<(Seq<char>, serde_json::Value)> {
    entries.map_values(|e: (String, serde_json::Value)| (e.0@, e.1))
}

/// The JSON object holding `entries`.
#[verifier::external_body]
pub(crate) fn object_of(entries: Vec<(String, serde_json::Value)>) -> (result: serde_json::Value)
    ensures
        result == json_object(keyed(entries@)),
{
    serde_json::Value::Object(entries.into_iter().collect())
}

/// Fields of a JSON value that is an object, in key order; none otherwise.
pub uninterp spec fn json_object_fields(value: serde_json::Value) -> Option<Seq<(Seq<char>, serde_json::Value)>>;

/// The value of the last of `entries` with key `key`, if any.
pub open spec fn last_value(entries: Seq<(Seq<char>, serde_json::Value)>, key: Seq<char>) -> Option<serde_json::Value>
    decreases entries.len(),
{
    if entries.len() == 0 {
        None
    } else if entries.last().0 == key {
        Some(entries.last().1)
    } else {
        last_value(entries.drop_last(), key)
    }
}

/// `serde_json::Value::as_object`, its fields copied out in key order.
/// An object built from entries (`json_object`, by collecting them into a
/// `serde_json::Map`, where a later entry replaces an earlier one with the
/// same key) reads back as an object whose field for each key holds the
/// value of the last entry with that key.
#[verifier::external_body]
pub(crate) fn object_fields(value: &serde_json::Value) -> (result: Option<Vec<(String, serde_json::Value)>>)
    ensures
        match result {
            Some(entries) => json_object_fields(*value) == Some(keyed(entries@)),
            None => json_object_fields(*value) is None,
        },
        result is None ==> forall|e: Seq<(Seq<char>, serde_json::Value)>| #[trigger] json_object(e) != *value,
        result matches Some(r) ==> forall|e: Seq<(Seq<char>, serde_json::Value)>, k: Seq<char>| #[trigger] json_object(e)
            == *value ==> #[trigger] entry_value(keyed(r@), k) == last_value(e, k),
{
    value.as_object().map(|object| object.iter().map(|(k, v)| (k.clone(), v.clone())).collect())
}

/// Declared fields of a versioned object.
#[derive(Debug, Clone, Copy)]
pub struct VersionedRecordSchema<'a> {
    /// Fields captured into each snapshot.
    pub snapshot_fields: &'a [ApiName],
    /// Field that stores the version number.
    pub version_field: &'a ApiName,
}

impl<'a> VersionedRecordSchema<'a> {
    /// A versioned object schema.
    pub fn new(snapshot_fields: &'a [ApiName], version_field: &'a ApiName) -> (result: VersionedRecordSchema<'a>)
        ensures
            result.snapshot_fields@ == snapshot_fields@,
            result.version_field@ == version_field@,
    {
        VersionedRecordSchema { snapshot_fields, version_field }
    }
}

/// Value a snapshot uses for a field that the record lacks.
#[derive(Debug, Clone, Copy)]
pub struct SnapshotDefault<'a> {
    /// Snapshot field.
    pub field: &'a ApiName,
    /// Default value.
    pub value: &'a serde_json::Value,
}

/// The default of the first entry of `defaults` for `field`.
pub open spec fn default_for(field: Seq<char>, defaults: Seq<SnapshotDefault>) -> Option<serde_json::Value>
    decreases defaults.len(),
{
    if defaults.len() == 0 {
        None
    } else if defaults[0].field@ == field {
        Some(*defaults[0].value)
    } else {
        default_for(field, defaults.drop_first())
    }
}

/// The default a snapshot uses for a field is the first one declared for
/// that field.
pub proof fn lemma_default_for_first(field: Seq<char>, defaults: Seq<SnapshotDefault>, d: int)
    requires
        0 <= d < defaults.len(),
        defaults[d].field@ == field,
        forall|e: int| 0 <= e < d ==> (#[trigger] defaults[e]).field@ != field,
    ensures
        default_for(field, defaults) == Some(*defaults[d].value),
    decreases d,
{
    if d > 0 {
        let rest = defaults.drop_first();
        assert(defaults[0].field@ != field);
        assert forall|e: int| 0 <= e < d - 1 implies (#[trigger] rest[e]).field@ != field by {
            assert(rest[e] == defaults[e + 1]);
        }
        assert(rest[d - 1] == defaults[d]);
        lemma_default_for_first(field, rest, d - 1);
    }
}

/// A field with no declared default has none.
pub proof fn lemma_default_for_none(field: Seq<char>, defaults: Seq<SnapshotDefault>)
    requires
        forall|e: int| 0 <= e < defaults.len() ==> (#[trigger] defaults[e]).field@ != field,
    ensures
        default_for(field, defaults) is None,
    decreases defaults.len(),
{
    if defaults.len() > 0 {
        let rest = defaults.drop_first();
        assert(defaults[0].field@ != field);
        assert forall|e: int| 0 <= e < rest.len() implies (#[trigger] rest[e]).field@ != field by {
            assert(rest[e] == defaults[e + 1]);
        }
        lemma_default_for_none(field, rest);
    }
}

/// The snapshot value of `field`: the record's value, else its default,
/// else null.
pub open spec fn snapshot_value(
    values: Map<Seq<char>, serde_json::Value>,
    field: Seq<char>,
    defaults: Seq<SnapshotDefault>,
) -> serde_json::Value {
    if values.contains_key(field) {
        values[field]
    } else {
        match default_for(field, defaults) {
            Some(v) => v,
            None => json_null(),
        }
    }
}

/// Snapshot entries of the declared fields, in declaration order.
pub open spec fn snapshot_entries(
    values: Map<Seq<char>, serde_json::Value>,
    fields: Seq<ApiName>,
    defaults: Seq<SnapshotDefault>,
) -> Seq<(Seq<char>, serde_json::Value)> {
    fields.map_values(|f: ApiName| (f@, snapshot_value(values, f@, defaults)))
}

/// The default of the first entry of `defaults` for `field`, computed.
fn find_default(field: &ApiName, defaults: &[SnapshotDefault]) -> (result: Option<serde_json::Value>)
    ensures
        result == default_for(field@, defaults@),
{
    let ghost ds = defaults@;
    let mut i: usize = 0;
    proof {
        assert(ds.skip(0) =~= ds);
    }
    while i < defaults.len()
        invariant
            i <= defaults@.len(),
            ds == defaults@,
            default_for(field@, ds) == default_for(field@, ds.skip(i as int)),
        decreases defaults@.len() - i,
    {
        proof {
            assert(ds.skip(i as int).drop_first() =~= ds.skip(i + 1));
            assert(ds.skip(i as int)[0] == ds[i as int]);
        }
        if defaults[i].field.same(field) {
            return Some(json_copy(defaults[i].value));
        }
        i = i + 1;
    }
    proof {
        assert(ds.skip(i as int) =~= Seq::<SnapshotDefault>::empty());
    }
    None
}

/// The JSON snapshot of the declared fields of `record`.
pub fn snapshot_record(record: &Record, schema: &VersionedRecordSchema, defaults: &[SnapshotDefault]) -> (result: serde_json::Value)
    requires
        record.values.wf(),
    ensures
        result == json_object(snapshot_entries(record.values.as_map(), schema.snapshot_fields@, defaults@)),
{
    let fields = schema.snapshot_fields;
    let ghost target = snapshot_entries(record.values.as_map(), fields@, defaults@);
    let mut entries: Vec<(String, serde_json::Value)> = Vec::new();
    let mut i: usize = 0;
    while i < fields.len()
        invariant
            i <= fields@.len(),
            record.values.wf(),
            target == snapshot_entries(record.values.as_map(), fields@, defaults@),
            keyed(entries@) == target.take(i as int),
        decreases fields@.len() - i,
    {
        let field = &fields[i];
        let value = match record.values.get(field.as_str()) {
            Some(v) => json_copy(v),
            None => match find_default(field, defaults) {
                Some(v) => v,
                None => null_value(),
            },
        };
        let ghost before = entries@;
        entries.push((field.as_str().to_owned(), value));
        proof {
            assert(keyed(entries@) =~= keyed(before).push((fields@[i as int]@, value)));
            assert(target.take(i + 1) =~= target.take(i as int).push(target[i as int]));
        }
        i = i + 1;
    }
    proof {
        assert(target.take(i as int) =~= target);
    }
    object_of(entries)
}

/// Value of the first entry under `key`.
pub open spec fn entry_value(entries: Seq<(Seq<char>, serde_json::Value)>, key: Seq<char>) -> Option<serde_json::Value>
    decreases entries.len(),
{
    if entries.len() == 0 {
        None
    } else if entries[0].0 == key {
        Some(entries[0].1)
    } else {
        entry_value(entries.drop_first(), key)
    }
}

/// Values restored from the fields of a snapshot object, for the listed
/// fields only, a later listing winning for a repeated field.
pub open spec fn restored(entries: Seq<(Seq<char>, serde_json::Value)>, fields: Seq<ApiName>) -> Map<Seq<char>, serde_json::Value>
    decreases fields.len(),
{
    if fields.len() == 0 {
        Map::empty()
    } else {
        let before = restored(entries, fields.drop_last());
        match entry_value(entries, fields.last()@) {
            Some(v) => before.insert(fields.last()@, v),
            None => before,
        }
    }
}

/// Value of the first entry under `key`, computed.
/// The values of `fields` among `entries`, the last entry of a key winning.
pub open spec fn restored_last(entries: Seq<(Seq<char>, serde_json::Value)>, fields: Seq<ApiName>) -> Map<
    Seq<char>,
    serde_json::Value,
>
    decreases fields.len(),
{
    if fields.len() == 0 {
        Map::empty()
    } else {
        let before = restored_last(entries, fields.drop_last());
        match last_value(entries, fields.last()@) {
            Some(v) => before.insert(fields.last()@, v),
            None => before,
        }
    }
}

/// Fields read the same from two lists of entries that agree on every key.
proof fn lemma_restored_agree(
    first: Seq<(Seq<char>, serde_json::Value)>,
    last: Seq<(Seq<char>, serde_json::Value)>,
    fields: Seq<ApiName>,
)
    requires
        forall|k: Seq<char>| #[trigger] entry_value(first, k) == last_value(last, k),
    ensures
        restored(first, fields) == restored_last(last, fields),
    decreases fields.len(),
{
    if fields.len() > 0 {
        lemma_restored_agree(first, last, fields.drop_last());
        assert(entry_value(first, fields.last()@) == last_value(last, fields.last()@));
    }
}

/// Names of a list of fields.
pub open spec fn field_names(fields: Seq<ApiName>) -> Seq<Seq<char>> {
    fields.map_values(|f: ApiName| f@)
}

/// In a snapshot, the last entry of a key is that field's snapshot value.
proof fn lemma_snapshot_last_value(
    values: Map<Seq<char>, serde_json::Value>,
    fields: Seq<ApiName>,
    defaults: Seq<SnapshotDefault>,
    k: Seq<char>,
)
    ensures
        last_value(snapshot_entries(values, fields, defaults), k) == if field_names(fields).contains(k) {
            Some(snapshot_value(values, k, defaults))
        } else {
            None
        },
    decreases fields.len(),
{
    let entries = snapshot_entries(values, fields, defaults);
    if fields.len() > 0 {
        let rest = fields.drop_last();
        assert(entries.drop_last() =~= snapshot_entries(values, rest, defaults));
        lemma_snapshot_last_value(values, rest, defaults, k);
        assert(field_names(fields) =~= field_names(rest).push(fields.last()@));
        if fields.last()@ != k {
            assert(field_names(fields).contains(k) == field_names(rest).contains(k)) by {
                if field_names(fields).contains(k) {
                    let j = choose|j: int| 0 <= j < field_names(fields).len() && field_names(fields)[j] == k;
                    assert(j < rest.len());
                    assert(field_names(rest)[j] == k);
                }
                if field_names(rest).contains(k) {
                    let j = choose|j: int| 0 <= j < field_names(rest).len() && field_names(rest)[j] == k;
                    assert(field_names(fields)[j] == k);
                }
            }
        } else {
            assert(field_names(fields)[fields.len() - 1] == k);
        }
    } else {
        assert(field_names(fields) =~= Seq::<Seq<char>>::empty());
    }
}

/// Restoring a snapshot gives back every snapshot field with its snapshot
/// value: the record's value, else the field's default, else null. No other
/// field comes back.
pub proof fn lemma_snapshot_round_trip(
    values: Map<Seq<char>, serde_json::Value>,
    fields: Seq<ApiName>,
    defaults: Seq<SnapshotDefault>,
)
    ensures
        restored_last(snapshot_entries(values, fields, defaults), fields) == Map::new(
            |k: Seq<char>| field_names(fields).contains(k),
            |k: Seq<char>| snapshot_value(values, k, defaults),
        ),
{
    let entries = snapshot_entries(values, fields, defaults);
    lemma_restore_prefix(values, fields, defaults, fields.len() as int);
    assert(fields.take(fields.len() as int) =~= fields);
}

/// A snapshot holds the record's own value for every declared field the
/// record has; a default is used only for a declared field the record
/// lacks, and null where that field has no default either. This holds of
/// the entry the snapshot object keeps for the field (the last one) and of
/// what restoring the snapshot gives back.
pub proof fn lemma_snapshot_prefers_record_values(
    values: Map<Seq<char>, serde_json::Value>,
    fields: Seq<ApiName>,
    defaults: Seq<SnapshotDefault>,
    i: int,
)
    requires
        0 <= i < fields.len(),
    ensures
        values.contains_key(fields[i]@) ==> last_value(snapshot_entries(values, fields, defaults), fields[i]@) == Some(
            values[fields[i]@],
        ),
        values.contains_key(fields[i]@) ==> restored_last(snapshot_entries(values, fields, defaults), fields)[fields[i]@]
            == values[fields[i]@],
        !values.contains_key(fields[i]@) ==> restored_last(snapshot_entries(values, fields, defaults), fields)[fields[i]@]
            == match default_for(fields[i]@, defaults) {
            Some(d) => d,
            None => json_null(),
        },
        restored_last(snapshot_entries(values, fields, defaults), fields).contains_key(fields[i]@),
{
    let k = fields[i]@;
    assert(field_names(fields)[i] == k);
    lemma_snapshot_last_value(values, fields, defaults, k);
    lemma_snapshot_round_trip(values, fields, defaults);
}

/// Restoring the first `n` fields of a snapshot of `fields`.
proof fn lemma_restore_prefix(
    values: Map<Seq<char>, serde_json::Value>,
    fields: Seq<ApiName>,
    defaults: Seq<SnapshotDefault>,
    n: int,
)
    requires
        0 <= n <= fields.len(),
    ensures
        restored_last(snapshot_entries(values, fields, defaults), fields.take(n)) == Map::new(
            |k: Seq<char>| field_names(fields.take(n)).contains(k),
            |k: Seq<char>| snapshot_value(values, k, defaults),
        ),
    decreases n,
{
    let entries = snapshot_entries(values, fields, defaults);
    let p = fields.take(n);
    if n == 0 {
        assert(restored_last(entries, p) =~= Map::new(
            |k: Seq<char>| field_names(p).contains(k),
            |k: Seq<char>| snapshot_value(values, k, defaults),
        ));
    } else {
        lemma_restore_prefix(values, fields, defaults, n - 1);
        assert(p.drop_last() =~= fields.take(n - 1));
        let f = p.last();
        assert(f == fields[n - 1]);
        lemma_snapshot_last_value(values, fields, defaults, f@);
        assert(field_names(fields)[n - 1] == f@);
        assert(field_names(p) =~= field_names(fields.take(n - 1)).push(f@));
        assert forall|k: Seq<char>| #[trigger] field_names(p).contains(k) <==> (field_names(fields.take(n - 1)).contains(k)
            || k == f@) by {
            let q = field_names(fields.take(n - 1));
            if field_names(p).contains(k) {
                let j = choose|j: int| 0 <= j < field_names(p).len() && field_names(p)[j] == k;
                if j < n - 1 {
                    assert(q[j] == k);
                }
            }
            if q.contains(k) {
                let j = choose|j: int| 0 <= j < q.len() && q[j] == k;
                assert(field_names(p)[j] == k);
            }
            if k == f@ {
                assert(field_names(p)[n - 1] == k);
            }
        }
        assert(restored_last(entries, p) =~= Map::new(
            |k: Seq<char>| field_names(p).contains(k),
            |k: Seq<char>| snapshot_value(values, k, defaults),
        ));
    }
}

fn find_entry<'a>(entries: &'a Vec<(String, serde_json::Value)>, key: &str) -> (result: Option<&'a serde_json::Value>)
    ensures
        match result {
            Some(v) => entry_value(keyed(entries@), key@) == Some(*v),
            None => entry_value(keyed(entries@), key@) is None,
        },
{
    let ghost es = keyed(entries@);
    let mut i: usize = 0;
    proof {
        assert(es.skip(0) =~= es);
    }
    while i < entries.len()
        invariant
            i <= entries@.len(),
            es == keyed(entries@),
            entry_value(es, key@) == entry_value(es.skip(i as int), key@),
        decreases entries@.len() - i,
    {
        proof {
            assert(es.skip(i as int).drop_first() =~= es.skip(i + 1));
            assert(es.skip(i as int)[0] == es[i as int]);
        }
        if str_eq(entries[i].0.as_str(), key) {
            return Some(&entries[i].1);
        }
        i = i + 1;
    }
    proof {
        assert(es.skip(i as int) =~= Seq::<(Seq<char>, serde_json::Value)>::empty());
    }
    None
}

/// The values of `fields` held by a snapshot; fails when the snapshot is
/// not a JSON object.
pub fn restore_values(snapshot: &serde_json::Value, fields: &[ApiName]) -> (result: Result<StringMap<serde_json::Value>, Error>)
    ensures
        match json_object_fields(*snapshot) {
            Some(entries) => result matches Ok(m) && m.wf() && m.as_map() == restored(entries, fields@),
            None => result matches Err(e) && e@ == ErrorView::Validation("version snapshot must be an object"@),
        },
        forall|e: Seq<(Seq<char>, serde_json::Value)>| #[trigger] json_object(e) == *snapshot ==> (result matches Ok(m)
            && m.as_map() == restored_last(e, fields@)),
{
    let object = match object_fields(snapshot) {
        Some(entries) => entries,
        None => {
            return Err(Error::Validation { message: "version snapshot must be an object".to_owned() });
        },
    };
    let mut values: StringMap<serde_json::Value> = StringMap::new();
    let mut i: usize = 0;
    proof {
        assert(values.as_map() =~= restored(keyed(object@), fields@.take(0)));
    }
    while i < fields.len()
        invariant
            i <= fields@.len(),
            values.wf(),
            values.as_map() == restored(keyed(object@), fields@.take(i as int)),
        decreases fields@.len() - i,
    {
        proof {
            assert(fields@.take(i + 1).drop_last() =~= fields@.take(i as int));
        }
        match find_entry(&object, fields[i].as_str()) {
            Some(v) => {
                values.insert(fields[i].as_str().to_owned(), json_copy(v));
            },
            None => {},
        }
        i = i + 1;
    }
    proof {
        assert(fields@.take(i as int) =~= fields@);
        assert forall|e: Seq<(Seq<char>, serde_json::Value)>| #[trigger] json_object(e) == *snapshot implies values.as_map()
            == restored_last(e, fields@) by {
            lemma_restored_agree(keyed(object@), e, fields@);
        }
    }
    Ok(values)
}

/// Largest version among `records`, if any holds an integer version.
pub open spec fn max_version(records: Seq<Record>, field: Seq<char>) -> Option<i64>
    decreases records.len(),
{
    if records.len() == 0 {
        None
    } else {
        let before = max_version(records.drop_last(), field);
        let values = records.last().values.as_map();
        let this = if values.contains_key(field) {
            json_i64(values[field])
        } else {
            None
        };
        match (before, this) {
            (Some(a), Some(b)) => Some(if a >= b { a } else { b }),
            (Some(a), None) => Some(a),
            (None, b) => b,
        }
    }
}

/// Each record holds each field once.
pub open spec fn all_wf(records: Seq<Record>) -> bool {
    forall|i: int| 0 <= i < records.len() ==> #[trigger] records[i].values.wf()
}

/// The largest version among `records`, computed.
fn largest_version(records: &[Record], field: &ApiName) -> (result: Option<i64>)
    requires
        all_wf(records@),
    ensures
        result == max_version(records@, field@),
{
    let mut best: Option<i64> = None;
    let mut i: usize = 0;
    while i < records.len()
        invariant
            i <= records@.len(),
            all_wf(records@),
            best == max_version(records@.take(i as int), field@),
        decreases records@.len() - i,
    {
        proof {
            assert(records@.take(i + 1).drop_last() =~= records@.take(i as int));
        }
        let this = match records[i].values.get(field.as_str()) {
            Some(v) => json_as_i64(v),
            None => None,
        };
        best = match (best, this) {
            (Some(a), Some(b)) => Some(if a >= b { a } else { b }),
            (Some(a), None) => Some(a),
            (None, b) => b,
        };
        i = i + 1;
    }
    proof {
        assert(records@.take(i as int) =~= records@);
    }
    best
}

/// The largest version is at least every integer version held.
proof fn lemma_max_version_bounds(records: Seq<Record>, field: Seq<char>, i: int)
    requires
        0 <= i < records.len(),
        records[i].values.as_map().contains_key(field),
        json_i64(records[i].values.as_map()[field]) is Some,
    ensures
        max_version(records, field) matches Some(m) && json_i64(records[i].values.as_map()[field])->0 <= m,
    decreases records.len(),
{
    if i < records.len() - 1 {
        lemma_max_version_bounds(records.drop_last(), field, i);
    }
}

/// The next version is greater than every version already held by the
/// records.
pub proof fn lemma_next_version_exceeds(records: Seq<Record>, field: Seq<char>, i: int)
    requires
        0 <= i < records.len(),
        records[i].values.as_map().contains_key(field),
        json_i64(records[i].values.as_map()[field]) is Some,
    ensures
        next_version_of(records, field) > json_i64(records[i].values.as_map()[field])->0,
{
    lemma_max_version_bounds(records, field, i);
}

/// The next version: one more than the largest, or one when there is none.
pub open spec fn next_version_of(records: Seq<Record>, field: Seq<char>) -> int {
    match max_version(records, field) {
        Some(v) => v + 1,
        None => 1,
    }
}

/// The next version number for a set of version records.
pub fn next_version(records: &[Record], schema: &VersionedRecordSchema) -> (result: i64)
    requires
        all_wf(records@),
        next_version_of(records@, schema.version_field@) <= i64::MAX,
    ensures
        result == next_version_of(records@, schema.version_field@),
{
    match largest_version(records, schema.version_field) {
        Some(v) => v + 1,
        None => 1,
    }
}

/// The next version number, or none when the largest version is the
/// largest `i64`.
pub fn try_next_version(records: &[Record], schema: &VersionedRecordSchema) -> (result: Option<i64>)
    requires
        all_wf(records@),
    ensures
        match result {
            Some(v) => v == next_version_of(records@, schema.version_field@),
            None => next_version_of(records@, schema.version_field@) > i64::MAX,
        },
{
    match largest_version(records, schema.version_field) {
        Some(v) => if v < i64::MAX {
            Some(next_version(records, schema))
        } else {
            None
        },
        None => Some(next_version(records, schema)),
    }
}

} // verus!
