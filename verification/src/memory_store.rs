//! In-memory records for tests and local development: one table per object
//! type, each record filed under the JSON text of its primary key.

use vstd::prelude::*;
use crate::condition::{json_rendering, json_to_string};
use crate::mutation::MutationResult;
use crate::store::{memory_store_capabilities, StoreCapabilities};
use crate::ports::{is_v4_uuid_text, no_random_bytes, random_uuid_text};
use crate::primitives::{concat, json_from_str, json_string, str_eq, ApiName, Error, ErrorView, StringMap};
use crate::versioning::Record;

verus! {

/// Field holding the primary key of an object type the store has no
/// declaration for.
pub const FALLBACK_KEY_FIELD: &'static str = "id";

/// A record as plain values: its primary key and its fields.
pub open spec fn stored(r: Record) -> (Option<serde_json::Value>, Map<Seq<char>, serde_json::Value>) {
    (r.primary_key, r.values.as_map())
}

/// The primary key field declared for `object_type`: that of the first
/// declaration naming it.
pub open spec fn declared_key(declarations: Seq<(Seq<char>, Seq<char>)>, object_type: Seq<char>) -> Option<Seq<char>>
    decreases declarations.len(),
{
    if declarations.len() == 0 {
        None
    } else if declarations[0].0 == object_type {
        Some(declarations[0].1)
    } else {
        declared_key(declarations.drop_first(), object_type)
    }
}

/// Whether `pk` may be the primary key of a record created with `values`:
/// the declared key field's value; without a declaration the `id` field's
/// value, or else a fresh random UUID text.
pub open spec fn pk_allowed(
    declared: Option<Seq<char>>,
    values: Map<Seq<char>, serde_json::Value>,
    pk: serde_json::Value,
) -> bool {
    match declared {
        Some(p) => values.contains_key(p) && pk == values[p],
        None => if values.contains_key(FALLBACK_KEY_FIELD@) {
            pk == values[FALLBACK_KEY_FIELD@]
        } else {
            exists|s: Seq<char>| is_v4_uuid_text(s) && pk == json_string(s)
        },
    }
}

/// The primary key a create takes from `values`, when it does not come
/// from chance.
pub open spec fn fixed_pk(declared: Option<Seq<char>>, values: Map<Seq<char>, serde_json::Value>) -> Option<
    serde_json::Value,
> {
    match declared {
        Some(p) => if values.contains_key(p) {
            Some(values[p])
        } else {
            None
        },
        None => if values.contains_key(FALLBACK_KEY_FIELD@) {
            Some(values[FALLBACK_KEY_FIELD@])
        } else {
            None
        },
    }
}

/// The error of a create whose values lack the declared primary key.
pub open spec fn missing_create_key(object_type: Seq<char>, key_field: Seq<char>) -> ErrorView {
    ErrorView::BadRequest("create for '"@ + object_type + "' requires primary key '"@ + key_field + "'"@)
}

/// The error of a create whose record exists.
pub open spec fn existing_record(key: Seq<char>, object_type: Seq<char>) -> ErrorView {
    ErrorView::Conflict("record '"@ + key + "' already exists in '"@ + object_type + "'"@)
}

/// A record's entry in a table.
pub type StoredRecord = (Option<serde_json::Value>, Map<Seq<char>, serde_json::Value>);

/// A record created under its key is read back from that key with the
/// fields written, and the other keys of the table read as before.
pub proof fn lemma_read_after_create(
    table: Map<Seq<char>, StoredRecord>,
    pk: serde_json::Value,
    values: Map<Seq<char>, serde_json::Value>,
    other: Seq<char>,
)
    requires
        other != json_rendering(pk),
    ensures
        ({
            let after = table.insert(json_rendering(pk), (Some(pk), values));
            &&& after.contains_key(json_rendering(pk))
            &&& after[json_rendering(pk)] == (Some(pk), values)
            &&& after.contains_key(other) == table.contains_key(other)
            &&& table.contains_key(other) ==> after[other] == table[other]
        }),
{
}

/// After a delete, nothing is read from the deleted key, and the other keys
/// read as before.
pub proof fn lemma_read_after_delete(table: Map<Seq<char>, StoredRecord>, pk: serde_json::Value, other: Seq<char>)
    requires
        other != json_rendering(pk),
    ensures
        !table.remove(json_rendering(pk)).contains_key(json_rendering(pk)),
        table.remove(json_rendering(pk)).contains_key(other) == table.contains_key(other),
        table.contains_key(other) ==> table.remove(json_rendering(pk))[other] == table[other],
{
}

/// An update gives the fields it names their new values and leaves the
/// others as they were.
pub proof fn lemma_update_fields(
    fields: Map<Seq<char>, serde_json::Value>,
    changes: Map<Seq<char>, serde_json::Value>,
    k: Seq<char>,
)
    ensures
        changes.contains_key(k) ==> fields.union_prefer_right(changes).contains_key(k)
            && fields.union_prefer_right(changes)[k] == changes[k],
        !changes.contains_key(k) ==> fields.union_prefer_right(changes).contains_key(k) == fields.contains_key(k),
        !changes.contains_key(k) && fields.contains_key(k) ==> fields.union_prefer_right(changes)[k] == fields[k],
{
}

/// A copy of a record.
fn copy_record(r: &Record) -> (result: Record)
    ensures
        result.primary_key == r.primary_key,
        result.values.as_map() == r.values.as_map(),
        result.values.key_seq() == r.values.key_seq(),
        result.values.wf() == r.values.wf(),
{
    Record {
        primary_key: match &r.primary_key {
            Some(v) => Some(crate::agents::json_copy(v)),
            None => None,
        },
        values: r.values.duplicate(),
    }
}

/// Thread-confined in-memory store.
pub struct MemoryStore {
    tables: StringMap<StringMap<Record>>,
    declarations: Vec<(ApiName, ApiName)>,
}

impl MemoryStore {
    /// Each table and each record's fields are well formed.
    pub closed spec fn wf(&self) -> bool {
        &&& self.tables.wf()
        &&& forall|o: Seq<char>| #[trigger] self.tables.as_map().contains_key(o) ==> {
            let t = self.tables.as_map()[o];
            &&& t.wf()
            &&& forall|k: Seq<char>| #[trigger] t.as_map().contains_key(k) ==> t.as_map()[k].values.wf()
        }
    }

    /// The records of `object_type`, by the JSON text of their keys.
    pub closed spec fn table(&self, object_type: Seq<char>) -> Map<
        Seq<char>,
        (Option<serde_json::Value>, Map<Seq<char>, serde_json::Value>),
    > {
        if self.tables.as_map().contains_key(object_type) {
            self.tables.as_map()[object_type].as_map().map_values(|r: Record| stored(r))
        } else {
            Map::empty()
        }
    }

    /// The primary key declarations: object type and key field.
    pub closed spec fn declarations(&self) -> Seq<(Seq<char>, Seq<char>)> {
        self.declarations@.map_values(|d: (ApiName, ApiName)| (d.0@, d.1@))
    }

    /// An empty store without declarations.
    pub fn new() -> (result: MemoryStore)
        ensures
            result.wf(),
            forall|o: Seq<char>| #[trigger] result.table(o) == Map::<
                Seq<char>,
                (Option<serde_json::Value>, Map<Seq<char>, serde_json::Value>),
            >::empty(),
            result.declarations().len() == 0,
    {
        let result = MemoryStore { tables: StringMap::new(), declarations: Vec::new() };
        proof {
            assert(result.declarations() =~= Seq::<(Seq<char>, Seq<char>)>::empty());
        }
        result
    }

    /// Store type name.
    pub fn store_type(&self) -> (result: &'static str)
        ensures
            result@ == "memory"@,
    {
        "memory"
    }

    /// Advertised capabilities: everything but actions.
    pub fn capabilities(&self) -> (result: StoreCapabilities)
        ensures
            result == (StoreCapabilities {
                search: true,
                get: true,
                create: true,
                update: true,
                delete: true,
                aggregate: true,
                traverse: true,
                execute_action: false,
            }),
    {
        memory_store_capabilities()
    }

    /// Declare the primary key field of each object type, as the spec in
    /// use does; the first declaration of a type counts.
    pub fn set_spec(&mut self, primary_keys: Vec<(ApiName, ApiName)>)
        requires
            old(self).wf(),
        ensures
            final(self).wf(),
            final(self).declarations() == primary_keys@.map_values(|d: (ApiName, ApiName)| (d.0@, d.1@)),
            forall|o: Seq<char>| #[trigger] final(self).table(o) == old(self).table(o),
    {
        self.declarations = primary_keys;
    }

    /// The declared key field of `object_type`, computed.
    fn key_field(&self, object_type: &ApiName) -> (result: Option<&ApiName>)
        ensures
            match result {
                Some(k) => declared_key(self.declarations(), object_type@) == Some(k@),
                None => declared_key(self.declarations(), object_type@) is None,
            },
    {
        let ghost ds = self.declarations();
        let mut i: usize = 0;
        proof {
            assert(ds.subrange(0, ds.len() as int) =~= ds);
        }
        while i < self.declarations.len()
            invariant
                i <= self.declarations@.len(),
                ds == self.declarations(),
                declared_key(ds, object_type@) == declared_key(ds.subrange(i as int, ds.len() as int), object_type@),
            decreases self.declarations@.len() - i,
        {
            proof {
                let tail = ds.subrange(i as int, ds.len() as int);
                assert(tail.drop_first() =~= ds.subrange(i + 1, ds.len() as int));
                assert(tail[0] == ds[i as int]);
            }
            if self.declarations[i].0.same(object_type) {
                return Some(&self.declarations[i].1);
            }
            i = i + 1;
        }
        None
    }

    /// The primary key of a record created with `values`.
    fn extract_pk(&self, object_type: &ApiName, values: &StringMap<serde_json::Value>) -> (result: Result<
        serde_json::Value,
        Error,
    >)
        requires
            values.wf(),
        ensures
            match result {
                Ok(pk) => pk_allowed(declared_key(self.declarations(), object_type@), values.as_map(), pk),
                Err(e) => (declared_key(self.declarations(), object_type@) matches Some(p) && !values.as_map().contains_key(p)
                    && e@ == missing_create_key(object_type@, p)) || (fixed_pk(
                    declared_key(self.declarations(), object_type@),
                    values.as_map(),
                ) is None && declared_key(self.declarations(), object_type@) is None && e@ == no_random_bytes()),
            },
            fixed_pk(declared_key(self.declarations(), object_type@), values.as_map()) matches Some(pk) ==> result
                == Ok::<serde_json::Value, Error>(pk),
    {
        match self.key_field(object_type) {
            Some(field) => match values.get(field.as_str()) {
                Some(v) => Ok(crate::agents::json_copy(v)),
                None => {
                    let mut message = concat("create for '", object_type.as_str());
                    message.append("' requires primary key '");
                    message.append(field.as_str());
                    message.append("'");
                    Err(Error::BadRequest { message })
                },
            },
            None => match values.get(FALLBACK_KEY_FIELD) {
                Some(v) => Ok(crate::agents::json_copy(v)),
                None => {
                    let id = match random_uuid_text() {
                        Ok(id) => id,
                        Err(e) => {
                            return Err(e);
                        },
                    };
                    let pk = json_from_str(id.as_str());
                    proof {
                        assert(is_v4_uuid_text(id@) && pk == json_string(id@));
                    }
                    Ok(pk)
                },
            },
        }
    }

    /// Fetch one record by primary key.
    pub fn get(&self, object_type: &ApiName, primary_key: &serde_json::Value) -> (result: Result<Option<Record>, Error>)
        requires
            self.wf(),
        ensures
            match result {
                Ok(Some(r)) => self.table(object_type@).contains_key(json_rendering(*primary_key)) && stored(r) == self.table(
                    object_type@,
                )[json_rendering(*primary_key)] && r.values.wf(),
                Ok(None) => !self.table(object_type@).contains_key(json_rendering(*primary_key)),
                Err(_) => false,
            },
    {
        let key = json_to_string(primary_key);
        match self.tables.get(object_type.as_str()) {
            Some(table) => match table.get(key.as_str()) {
                Some(r) => Ok(Some(copy_record(r))),
                None => Ok(None),
            },
            None => Ok(None),
        }
    }

    /// Create one record, filed under its primary key.
    ///
    /// The key is the declared key field's value (its absence is a bad
    /// request), or without a declaration the `id` field's value or a fresh
    /// UUID. A record already filed under that key is a conflict. Other
    /// object types are never touched.
    pub fn create(&mut self, object_type: &ApiName, values: StringMap<serde_json::Value>) -> (result: Result<
        MutationResult,
        Error,
    >)
        requires
            old(self).wf(),
            values.wf(),
        ensures
            final(self).wf(),
            final(self).declarations() == old(self).declarations(),
            forall|o: Seq<char>| o != object_type@ ==> #[trigger] final(self).table(o) == old(self).table(o),
            match result {
                Ok(r) => exists|pk: serde_json::Value| {
                    &&& pk_allowed(declared_key(old(self).declarations(), object_type@), values.as_map(), pk)
                    &&& !old(self).table(object_type@).contains_key(json_rendering(pk))
                    &&& final(self).table(object_type@) == old(self).table(object_type@).insert(
                        json_rendering(pk),
                        (Some(pk), values.as_map()),
                    )
                    &&& r.record matches Some(rec) && stored(rec) == (Some(pk), values.as_map())
                    &&& r.rows_affected == Some(1i64)
                },
                Err(e) => {
                    &&& final(self).table(object_type@) == old(self).table(object_type@)
                    &&& (e@ == missing_create_key(object_type@, declared_key(old(self).declarations(), object_type@)->0)
                        || (declared_key(old(self).declarations(), object_type@) is None && fixed_pk(
                        None,
                        values.as_map(),
                    ) is None && e@ == no_random_bytes())
                        || exists|pk: serde_json::Value| {
                        &&& pk_allowed(declared_key(old(self).declarations(), object_type@), values.as_map(), pk)
                        &&& old(self).table(object_type@).contains_key(json_rendering(pk))
                        &&& e@ == existing_record(json_rendering(pk), object_type@)
                    })
                },
            },
            fixed_pk(declared_key(old(self).declarations(), object_type@), values.as_map()) matches Some(pk) ==> (
            result is Ok <==> !old(self).table(object_type@).contains_key(json_rendering(pk))),
    {
        let pk = match self.extract_pk(object_type, &values) {
            Ok(pk) => pk,
            Err(e) => {
                return Err(e);
            },
        };
        let key = json_to_string(&pk);
        let ghost before = self.tables.as_map();
        let ghost had = before.contains_key(object_type@);
        let mut table = match self.tables.take(object_type.as_str()) {
            Some(t) => t,
            None => StringMap::new(),
        };
        proof {
            if had {
                assert(table == before[object_type@]);
            }
            assert(table.as_map().map_values(|r: Record| stored(r)) =~= old(self).table(object_type@));
        }
        if table.contains_key(key.as_str()) {
            self.tables.insert(object_type.as_str().to_owned(), table);
            proof {
                assert(self.tables.as_map() =~= before);
                assert forall|o: Seq<char>| #[trigger] self.table(o) == old(self).table(o) by {
                }
            }
            let mut message = concat("record '", key.as_str());
            message.append("' already exists in '");
            message.append(object_type.as_str());
            message.append("'");
            return Err(Error::Conflict { message });
        }
        let record = Record { primary_key: Some(pk), values };
        let copy = copy_record(&record);
        let ghost t0 = table.as_map();
        table.insert(key, record);
        self.tables.insert(object_type.as_str().to_owned(), table);
        proof {
            let t1 = t0.insert(json_rendering(pk), record);
            assert(self.tables.as_map() =~= before.insert(object_type@, table));
            assert(table.as_map() == t1);
            assert(t1.map_values(|r: Record| stored(r)) =~= old(self).table(object_type@).insert(
                json_rendering(pk),
                (Some(pk), values.as_map()),
            ));
            assert forall|o: Seq<char>| o != object_type@ implies #[trigger] self.table(o) == old(self).table(o) by {
            }
        }
        Ok(MutationResult { record: Some(copy), rows_affected: Some(1) })
    }

    /// Update one record: the given fields take the given values, the
    /// others keep theirs. A record not filed under the key is not found.
    pub fn update(
        &mut self,
        object_type: &ApiName,
        primary_key: &serde_json::Value,
        values: StringMap<serde_json::Value>,
    ) -> (result: Result<MutationResult, Error>)
        requires
            old(self).wf(),
            values.wf(),
        ensures
            final(self).wf(),
            final(self).declarations() == old(self).declarations(),
            forall|o: Seq<char>| o != object_type@ ==> #[trigger] final(self).table(o) == old(self).table(o),
            ({
                let key = json_rendering(*primary_key);
                let t = old(self).table(object_type@);
                if t.contains_key(key) {
                    let merged = (t[key].0, t[key].1.union_prefer_right(values.as_map()));
                    &&& result matches Ok(r) && r.record matches Some(rec) && stored(rec) == merged
                        && r.rows_affected == Some(1i64)
                    &&& final(self).table(object_type@) == t.insert(key, merged)
                } else {
                    &&& result matches Err(e) && e@ == ErrorView::NotFound("record"@, key)
                    &&& final(self).table(object_type@) == t
                }
            }),
    {
        let key = json_to_string(primary_key);
        let ghost before = self.tables.as_map();
        let ghost had = before.contains_key(object_type@);
        let (mut table, had_table) = match self.tables.take(object_type.as_str()) {
            Some(t) => (t, true),
            None => (StringMap::new(), false),
        };
        proof {
            assert(had == had_table);
            if had {
                assert(table == before[object_type@]);
            }
            assert(table.as_map().map_values(|r: Record| stored(r)) =~= old(self).table(object_type@));
        }
        let ghost t0 = table.as_map();
        match table.take(key.as_str()) {
            Some(mut record) => {
                record.values.merge(&values);
                let copy = copy_record(&record);
                let ghost rec = record;
                table.insert(key, record);
                self.tables.insert(object_type.as_str().to_owned(), table);
                proof {
                    assert(self.tables.as_map() =~= before.insert(object_type@, table));
                    assert(table.as_map() =~= t0.insert(json_rendering(*primary_key), rec));
                    assert(table.as_map().map_values(|r: Record| stored(r)) =~= old(self).table(object_type@).insert(
                        json_rendering(*primary_key),
                        stored(rec),
                    ));
                    assert forall|o: Seq<char>| o != object_type@ implies #[trigger] self.table(o) == old(self).table(o) by {
                    }
                }
                Ok(MutationResult { record: Some(copy), rows_affected: Some(1) })
            },
            None => {
                if had_table {
                    self.tables.insert(object_type.as_str().to_owned(), table);
                }
                proof {
                    assert(table.as_map() =~= t0);
                    if had {
                        assert(self.tables.as_map() =~= before.insert(object_type@, table));
                    } else {
                        assert(self.tables.as_map() =~= before);
                    }
                    assert forall|o: Seq<char>| #[trigger] self.table(o) == old(self).table(o) by {
                        if o == object_type@ && had {
                            assert(table.as_map().map_values(|r: Record| stored(r)) =~= old(self).table(o));
                        }
                    }
                }
                Err(Error::NotFound { kind: "record".to_owned(), key })
            },
        }
    }

    /// Delete one record; one row is affected when it was filed, none
    /// otherwise.
    pub fn delete(&mut self, object_type: &ApiName, primary_key: &serde_json::Value) -> (result: Result<
        MutationResult,
        Error,
    >)
        requires
            old(self).wf(),
        ensures
            final(self).wf(),
            final(self).declarations() == old(self).declarations(),
            forall|o: Seq<char>| o != object_type@ ==> #[trigger] final(self).table(o) == old(self).table(o),
            final(self).table(object_type@) == old(self).table(object_type@).remove(json_rendering(*primary_key)),
            result matches Ok(r) && r.record is None && r.rows_affected == Some(
                if old(self).table(object_type@).contains_key(json_rendering(*primary_key)) {
                    1i64
                } else {
                    0i64
                },
            ),
    {
        let key = json_to_string(primary_key);
        let ghost before = self.tables.as_map();
        match self.tables.take(object_type.as_str()) {
            Some(mut table) => {
                let ghost t0 = table.as_map();
                let removed = table.take(key.as_str());
                let count: i64 = match removed {
                    Some(_) => 1,
                    None => 0,
                };
                self.tables.insert(object_type.as_str().to_owned(), table);
                proof {
                    assert(self.tables.as_map() =~= before.insert(object_type@, table));
                    assert(table.as_map().map_values(|r: Record| stored(r)) =~= old(self).table(object_type@).remove(
                        json_rendering(*primary_key),
                    ));
                    assert forall|o: Seq<char>| o != object_type@ implies #[trigger] self.table(o) == old(self).table(o) by {
                    }
                }
                Ok(MutationResult { record: None, rows_affected: Some(count) })
            },
            None => {
                proof {
                    assert(self.tables.as_map() =~= before);
                    assert(old(self).table(object_type@).remove(json_rendering(*primary_key)) =~= old(self).table(
                        object_type@,
                    ));
                    assert forall|o: Seq<char>| #[trigger] self.table(o) == old(self).table(o) by {
                    }
                }
                Ok(MutationResult { record: None, rows_affected: Some(0) })
            },
        }
    }
}

} // verus!
