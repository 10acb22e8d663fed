//! Operations on records read from stores: composing pages of object sets,
//! redacting fields, the record a mutation writes, and path templates.

use vstd::prelude::*;
use crate::condition::{json_as_str, json_rendering, json_str, json_to_string};
use crate::evals::{json_eq, json_equal};
use crate::primitives::{concat, ApiName, Error, ErrorView, StringMap};
use crate::text::{contains_seq, contains_text, replace_all, replace_text};
use crate::upload_mapping::{json_null, null_value};
use crate::versioning::Record;

verus! {

/// A page of records.
pub struct Page {
    /// The records.
    pub records: Vec<Record>,
    /// Cursor of the next page, when there is one.
    pub next_cursor: Option<String>,
}

/// How pages of object sets combine.
#[derive(Debug, Clone, Copy, PartialEq, Eq, Structural)]
pub enum SetOp {
    /// Every record of every page.
    Union,
    /// Records of the first page present in every other page.
    Intersect,
    /// Records of the first page present in no other page.
    Subtract,
}

/// Two optional primary keys are the same: both absent, or equal values.
pub open spec fn same_key(a: Option<serde_json::Value>, b: Option<serde_json::Value>) -> bool {
    match (a, b) {
        (None, None) => true,
        (Some(x), Some(y)) => json_equal(x, y),
        _ => false,
    }
}

/// Some record of `records` has the primary key `key`.
pub open spec fn has_key(records: Seq<Record>, key: Option<serde_json::Value>) -> bool {
    exists|i: int| 0 <= i < records.len() && #[trigger] same_key(records[i].primary_key, key)
}

/// The records of `base` kept when each is tested against `other`: those
/// with a match when `keep_matches`, those without otherwise.
pub open spec fn retained(base: Seq<Record>, other: Seq<Record>, keep_matches: bool) -> Seq<Record>
    decreases base.len(),
{
    if base.len() == 0 {
        Seq::empty()
    } else {
        let before = retained(base.drop_last(), other, keep_matches);
        if has_key(other, base.last().primary_key) == keep_matches {
            before.push(base.last())
        } else {
            before
        }
    }
}

/// What retaining keeps comes from the base and passes the test.
proof fn lemma_retained_contains(base: Seq<Record>, other: Seq<Record>, keep_matches: bool, r: Record)
    requires
        retained(base, other, keep_matches).contains(r),
    ensures
        base.contains(r),
        has_key(other, r.primary_key) == keep_matches,
    decreases base.len(),
{
    if base.len() > 0 {
        let before = retained(base.drop_last(), other, keep_matches);
        if r != base.last() || has_key(other, base.last().primary_key) != keep_matches {
            if has_key(other, base.last().primary_key) == keep_matches {
                let j = choose|j: int| 0 <= j < before.push(base.last()).len() && before.push(base.last())[j] == r;
                assert(j < before.len());
                assert(before[j] == r);
            }
            assert(before.contains(r));
            lemma_retained_contains(base.drop_last(), other, keep_matches, r);
            let j = choose|j: int| 0 <= j < base.drop_last().len() && base.drop_last()[j] == r;
            assert(base[j] == r);
        } else {
            assert(base[base.len() - 1] == r);
        }
    }
}

/// The first page's records after retaining against each later page in turn.
pub open spec fn retained_all(pages: Seq<Seq<Record>>, keep_matches: bool) -> Seq<Record>
    decreases pages.len(),
{
    if pages.len() == 0 {
        Seq::empty()
    } else if pages.len() == 1 {
        pages[0]
    } else {
        retained(retained_all(pages.drop_last(), keep_matches), pages.last(), keep_matches)
    }
}

/// All records of all pages, in order.
pub open spec fn all_records(pages: Seq<Seq<Record>>) -> Seq<Record>
    decreases pages.len(),
{
    if pages.len() == 0 {
        Seq::empty()
    } else {
        all_records(pages.drop_last()) + pages.last()
    }
}

/// A union holds every record of every page, in page order: the records of
/// two runs of pages put together are the records of the first run followed
/// by those of the second; one page gives its own records; no pages give
/// none; and every record of every page appears.
pub proof fn lemma_all_records_concat(a: Seq<Seq<Record>>, b: Seq<Seq<Record>>, page: Seq<Record>)
    ensures
        all_records(a + b) == all_records(a) + all_records(b),
        all_records(seq![page]) == page,
        all_records(Seq::<Seq<Record>>::empty()) == Seq::<Record>::empty(),
        all_records(a).len() + all_records(b).len() == all_records(a + b).len(),
    decreases b.len(),
{
    assert(seq![page].drop_last() =~= Seq::<Seq<Record>>::empty());
    assert(all_records(seq![page].drop_last()) == Seq::<Record>::empty());
    assert(seq![page].last() == page);
    assert(Seq::<Record>::empty() + page =~= page);
    if b.len() == 0 {
        assert(a + b =~= a);
        assert(all_records(a) + Seq::<Record>::empty() =~= all_records(a));
    } else {
        lemma_all_records_concat(a, b.drop_last(), page);
        assert((a + b).drop_last() =~= a + b.drop_last());
        assert((a + b).last() == b.last());
        assert(all_records(a) + all_records(b.drop_last()) + b.last() =~= all_records(a) + (all_records(
            b.drop_last(),
        ) + b.last()));
    }
}

/// Every record of every page is among the records of a union of the pages.
pub proof fn lemma_all_records_contains(pages: Seq<Seq<Record>>, i: int, j: int)
    requires
        0 <= i < pages.len(),
        0 <= j < pages[i].len(),
    ensures
        all_records(pages).contains(pages[i][j]),
    decreases pages.len(),
{
    let before = all_records(pages.drop_last());
    if i == pages.len() - 1 {
        assert((before + pages.last())[before.len() + j] == pages[i][j]);
    } else {
        lemma_all_records_contains(pages.drop_last(), i, j);
        let w = choose|w: int| 0 <= w < before.len() && before[w] == pages[i][j];
        assert((before + pages.last())[w] == pages[i][j]);
    }
}

/// Records of each page.
pub open spec fn page_records(pages: Seq<Page>) -> Seq<Seq<Record>> {
    pages.map_values(|p: Page| p.records@)
}

/// The records that composing `pages` with `op` gives.
pub open spec fn composed(pages: Seq<Seq<Record>>, op: SetOp) -> Seq<Record> {
    match op {
        SetOp::Union => all_records(pages),
        SetOp::Intersect => retained_all(pages, true),
        SetOp::Subtract => retained_all(pages, false),
    }
}

/// Every record that intersecting pages keeps comes from the first page
/// and has a match in every later page; every record that subtracting
/// keeps comes from the first page and has a match in no later page.
pub proof fn lemma_retained_all(pages: Seq<Seq<Record>>, keep_matches: bool, r: Record, k: int)
    requires
        pages.len() > 0,
        retained_all(pages, keep_matches).contains(r),
        1 <= k < pages.len(),
    ensures
        pages[0].contains(r),
        has_key(pages[k], r.primary_key) == keep_matches,
    decreases pages.len(),
{
    lemma_retained_first(pages, keep_matches, r);
    let before = retained_all(pages.drop_last(), keep_matches);
    lemma_retained_contains(before, pages.last(), keep_matches, r);
    if k < pages.len() - 1 {
        assert(before.contains(r));
        lemma_retained_all(pages.drop_last(), keep_matches, r, k);
    }
}

/// Retaining keeps every record of the base that passes the test.
proof fn lemma_retained_keeps(base: Seq<Record>, other: Seq<Record>, keep_matches: bool, r: Record)
    requires
        base.contains(r),
        has_key(other, r.primary_key) == keep_matches,
    ensures
        retained(base, other, keep_matches).contains(r),
    decreases base.len(),
{
    let before = retained(base.drop_last(), other, keep_matches);
    if base.last() == r {
        assert(before.push(r)[before.len() as int] == r);
    } else {
        let j = choose|j: int| 0 <= j < base.len() && base[j] == r;
        assert(j < base.len() - 1);
        assert(base.drop_last()[j] == r);
        lemma_retained_keeps(base.drop_last(), other, keep_matches, r);
        if has_key(other, base.last().primary_key) == keep_matches {
            let w = choose|w: int| 0 <= w < before.len() && before[w] == r;
            assert(before.push(base.last())[w] == r);
        }
    }
}

/// Intersecting keeps every record of the first page that has a match in
/// every later page, and subtracting keeps every record of the first page
/// that has a match in no later page.
pub proof fn lemma_retained_all_complete(pages: Seq<Seq<Record>>, keep_matches: bool, j: int)
    requires
        pages.len() > 0,
        0 <= j < pages[0].len(),
        forall|k: int| 1 <= k < pages.len() ==> has_key(#[trigger] pages[k], pages[0][j].primary_key) == keep_matches,
    ensures
        retained_all(pages, keep_matches).contains(pages[0][j]),
    decreases pages.len(),
{
    let r = pages[0][j];
    if pages.len() == 1 {
        assert(pages[0][j] == r);
    } else {
        let rest = pages.drop_last();
        assert forall|k: int| 1 <= k < rest.len() implies has_key(#[trigger] rest[k], rest[0][j].primary_key)
            == keep_matches by {
            assert(rest[k] == pages[k]);
        }
        lemma_retained_all_complete(rest, keep_matches, j);
        assert(rest[0] == pages[0]);
        assert(pages[pages.len() - 1] == pages.last());
        lemma_retained_keeps(retained_all(rest, keep_matches), pages.last(), keep_matches, r);
    }
}

/// What retaining keeps comes from the first page.
proof fn lemma_retained_first(pages: Seq<Seq<Record>>, keep_matches: bool, r: Record)
    requires
        pages.len() > 0,
        retained_all(pages, keep_matches).contains(r),
    ensures
        pages[0].contains(r),
    decreases pages.len(),
{
    if pages.len() > 1 {
        let before = retained_all(pages.drop_last(), keep_matches);
        lemma_retained_contains(before, pages.last(), keep_matches, r);
        lemma_retained_first(pages.drop_last(), keep_matches, r);
    }
}

/// Whether two optional primary keys are the same.
fn keys_match(a: &Option<serde_json::Value>, b: &Option<serde_json::Value>) -> (result: bool)
    ensures
        result == same_key(*a, *b),
{
    match (a, b) {
        (None, None) => true,
        (Some(x), Some(y)) => json_eq(x, y),
        _ => false,
    }
}

/// Whether some record of `records` has primary key `key`.
fn contains_key_of(records: &Vec<Record>, key: &Option<serde_json::Value>) -> (result: bool)
    ensures
        result == has_key(records@, *key),
{
    let mut i: usize = 0;
    while i < records.len()
        invariant
            i <= records@.len(),
            forall|j: int| 0 <= j < i ==> !#[trigger] same_key(records@[j].primary_key, *key),
        decreases records@.len() - i,
    {
        if keys_match(&records[i].primary_key, key) {
            return true;
        }
        i = i + 1;
    }
    false
}

/// Keep the records of `base` that match `other` (or that do not).
fn retain_against(base: Vec<Record>, other: &Vec<Record>, keep_matches: bool) -> (result: Vec<Record>)
    ensures
        result@ == retained(base@, other@, keep_matches),
{
    let ghost input = base@;
    let mut rest = base;
    let mut reversed: Vec<Record> = Vec::new();
    while rest.len() > 0
        invariant
            rest@.len() + reversed@.len() == input.len(),
            rest@ == input.take(rest@.len() as int),
            forall|k: int| 0 <= k < reversed@.len() ==> #[trigger] reversed@[k] == input[input.len() - 1 - k],
        decreases rest@.len(),
    {
        match rest.pop() {
            Some(r) => {
                reversed.push(r);
                proof {
                    assert(rest@ =~= input.take(rest@.len() as int));
                }
            },
            None => {},
        }
    }
    let mut kept: Vec<Record> = Vec::new();
    let ghost mut done: int = 0;
    while reversed.len() > 0
        invariant
            reversed@.len() + done == input.len(),
            0 <= done <= input.len(),
            forall|k: int| 0 <= k < reversed@.len() ==> #[trigger] reversed@[k] == input[input.len() - 1 - k],
            kept@ == retained(input.take(done), other@, keep_matches),
        decreases reversed@.len(),
    {
        match reversed.pop() {
            Some(r) => {
                proof {
                    assert(r == input[done]);
                    assert(input.take(done + 1).drop_last() =~= input.take(done));
                }
                let matched = contains_key_of(other, &r.primary_key);
                if matched == keep_matches {
                    kept.push(r);
                }
                proof {
                    done = done + 1;
                }
            },
            None => {},
        }
    }
    proof {
        assert(input.take(done) =~= input);
    }
    kept
}

/// The pages in reverse order, so that popping yields them first to last.
fn reversed_pages(pages: Vec<Page>) -> (result: Vec<Page>)
    ensures
        result@.len() == pages@.len(),
        forall|k: int| 0 <= k < result@.len() ==> #[trigger] result@[k] == pages@[pages@.len() - 1 - k],
{
    let mut rest = pages;
    let mut reversed: Vec<Page> = Vec::new();
    let ghost input = rest@;
    while rest.len() > 0
        invariant
            rest@.len() + reversed@.len() == input.len(),
            rest@ == input.take(rest@.len() as int),
            forall|k: int| 0 <= k < reversed@.len() ==> #[trigger] reversed@[k] == input[input.len() - 1 - k],
        decreases rest@.len(),
    {
        match rest.pop() {
            Some(p) => {
                reversed.push(p);
                proof {
                    assert(rest@ =~= input.take(rest@.len() as int));
                }
            },
            None => {},
        }
    }
    reversed
}

/// The records of the first page, retained against each later page in
/// turn: those with a match there when `keep_matches`, else those without.
fn retain_pages(pages: Vec<Page>, keep_matches: bool) -> (result: Vec<Record>)
    ensures
        result@ == retained_all(page_records(pages@), keep_matches),
{
    let ghost input = pages@;
    let ghost ps = page_records(input);
    let mut reversed = reversed_pages(pages);
    let mut out: Vec<Record> = Vec::new();
    let ghost mut done: int = 0;
    let mut first = true;
    while reversed.len() > 0
        invariant
            reversed@.len() + done == input.len(),
            0 <= done <= input.len(),
            ps == page_records(input),
            first == (done == 0),
            forall|k: int| 0 <= k < reversed@.len() ==> #[trigger] reversed@[k] == input[input.len() - 1 - k],
            done > 0 ==> out@ == retained_all(ps.take(done), keep_matches),
            done == 0 ==> out@.len() == 0,
        decreases reversed@.len(),
    {
        match reversed.pop() {
            Some(page) => {
                proof {
                    assert(page == input[done]);
                    assert(ps.take(done + 1).drop_last() =~= ps.take(done));
                    assert(ps.take(done + 1).last() == page.records@);
                    if done == 0 {
                        assert(ps.take(1)[0] == page.records@);
                    }
                }
                let Page { records, .. } = page;
                if first {
                    out = records;
                    first = false;
                } else {
                    out = retain_against(out, &records, keep_matches);
                }
                proof {
                    done = done + 1;
                }
            },
            None => {},
        }
    }
    proof {
        assert(ps.take(done) =~= ps);
    }
    out
}

/// Records present, by primary key, in every page: those of the first page
/// that have a match in each later page.
pub fn intersect_pages(pages: Vec<Page>) -> (result: Vec<Record>)
    ensures
        result@ == retained_all(page_records(pages@), true),
{
    retain_pages(pages, true)
}

/// Records of the first page that have a match, by primary key, in no
/// later page.
pub fn subtract_pages(pages: Vec<Page>) -> (result: Vec<Record>)
    ensures
        result@ == retained_all(page_records(pages@), false),
{
    retain_pages(pages, false)
}

/// All records of all pages, in order.
fn union_pages(pages: Vec<Page>) -> (result: Vec<Record>)
    ensures
        result@ == all_records(page_records(pages@)),
{
    let ghost input = pages@;
    let ghost ps = page_records(input);
    let mut reversed = reversed_pages(pages);
    let mut out: Vec<Record> = Vec::new();
    let ghost mut done: int = 0;
    while reversed.len() > 0
        invariant
            reversed@.len() + done == input.len(),
            0 <= done <= input.len(),
            ps == page_records(input),
            forall|k: int| 0 <= k < reversed@.len() ==> #[trigger] reversed@[k] == input[input.len() - 1 - k],
            out@ == all_records(ps.take(done)),
        decreases reversed@.len(),
    {
        match reversed.pop() {
            Some(page) => {
                proof {
                    assert(page == input[done]);
                    assert(ps.take(done + 1).drop_last() =~= ps.take(done));
                    assert(ps.take(done + 1).last() == page.records@);
                }
                let Page { records, .. } = page;
                let mut more = records;
                let ghost before = out@;
                let ghost added = more@;
                out.append(&mut more);
                proof {
                    assert(out@ =~= before + added);
                    done = done + 1;
                }
            },
            None => {},
        }
    }
    proof {
        assert(ps.take(done) =~= ps);
    }
    out
}

/// Compose the records of `pages` with `op`.
pub fn compose_pages(pages: Vec<Page>, op: SetOp) -> (result: Vec<Record>)
    ensures
        result@ == composed(page_records(pages@), op),
{
    match op {
        SetOp::Union => union_pages(pages),
        SetOp::Intersect => intersect_pages(pages),
        SetOp::Subtract => subtract_pages(pages),
    }
}

/// Drop the `redactions` fields of each record.
pub fn redact(records: &mut Vec<Record>, redactions: &Vec<ApiName>)
    requires
        forall|i: int| 0 <= i < old(records)@.len() ==> #[trigger] old(records)@[i].values.wf(),
    ensures
        final(records)@.len() == old(records)@.len(),
        forall|i: int| #![trigger final(records)@[i]]
            0 <= i < old(records)@.len() ==> {
                &&& final(records)@[i].values.wf()
                &&& final(records)@[i].primary_key == old(records)@[i].primary_key
                &&& final(records)@[i].values.as_map() == old(records)@[i].values.as_map().remove_keys(
                    redactions@.map_values(|n: ApiName| n@).to_set(),
                )
            },
{
    let ghost names = redactions@.map_values(|n: ApiName| n@);
    let mut i: usize = 0;
    while i < records.len()
        invariant
            i <= records@.len(),
            records@.len() == old(records)@.len(),
            names == redactions@.map_values(|n: ApiName| n@),
            forall|j: int| i <= j < records@.len() ==> #[trigger] records@[j] == old(records)@[j],
            forall|j: int| 0 <= j < old(records)@.len() ==> #[trigger] old(records)@[j].values.wf(),
            forall|j: int| #![trigger records@[j]]
                0 <= j < i ==> {
                    &&& records@[j].values.wf()
                    &&& records@[j].primary_key == old(records)@[j].primary_key
                    &&& records@[j].values.as_map() == old(records)@[j].values.as_map().remove_keys(names.to_set())
                },
        decreases records@.len() - i,
    {
        let mut record = Record { primary_key: None, values: StringMap::new() };
        records.set_and_swap(i, &mut record);
        let ghost original = record;
        let mut k: usize = 0;
        while k < redactions.len()
            invariant
                k <= redactions@.len(),
                names == redactions@.map_values(|n: ApiName| n@),
                original.values.wf(),
                record.values.wf(),
                record.primary_key == original.primary_key,
                record.values.as_map() == original.values.as_map().remove_keys(names.take(k as int).to_set()),
            decreases redactions@.len() - k,
        {
            record.values.remove(redactions[k].as_str());
            proof {
                assert(names.take(k + 1) =~= names.take(k as int).push(names[k as int]));
                names.take(k as int).lemma_push_to_set_commute(names[k as int]);
                assert(record.values.as_map() =~= original.values.as_map().remove_keys(names.take(k + 1).to_set()));
            }
            k = k + 1;
        }
        proof {
            assert(names.take(k as int) =~= names);
        }
        records.set_and_swap(i, &mut record);
        i = i + 1;
    }
}

/// Set the listed fields of a record to null.
pub fn apply_redactions(record: &mut Record, fields: &Vec<ApiName>)
    requires
        old(record).values.wf(),
    ensures
        final(record).values.wf(),
        final(record).primary_key == old(record).primary_key,
        final(record).values.as_map() == old(record).values.as_map().union_prefer_right(
            Map::new(|k: Seq<char>| fields@.map_values(|n: ApiName| n@).contains(k), |k: Seq<char>| json_null()),
        ),
{
    let ghost names = fields@.map_values(|n: ApiName| n@);
    let mut k: usize = 0;
    while k < fields.len()
        invariant
            k <= fields@.len(),
            names == fields@.map_values(|n: ApiName| n@),
            record.values.wf(),
            record.primary_key == old(record).primary_key,
            record.values.as_map() == old(record).values.as_map().union_prefer_right(
                Map::new(|q: Seq<char>| names.take(k as int).contains(q), |q: Seq<char>| json_null()),
            ),
        decreases fields@.len() - k,
    {
        let null = null_value();
        record.values.insert(fields[k].as_str().to_owned(), null);
        proof {
            assert forall|q: Seq<char>| #[trigger] names.take(k + 1).contains(q) <==> (names.take(k as int).contains(q)
                || q == names[k as int]) by {
                if names.take(k + 1).contains(q) {
                    let j = choose|j: int| 0 <= j < k + 1 && #[trigger] names.take(k + 1)[j] == q;
                    if j < k {
                        assert(names.take(k as int)[j] == q);
                    }
                }
                if names.take(k as int).contains(q) {
                    let j = choose|j: int| 0 <= j < k && #[trigger] names.take(k as int)[j] == q;
                    assert(names.take(k + 1)[j] == q);
                }
                if q == names[k as int] {
                    assert(names.take(k + 1)[k as int] == q);
                }
            }
            assert(record.values.as_map() =~= old(record).values.as_map().union_prefer_right(
                Map::new(|q: Seq<char>| names.take(k + 1).contains(q), |q: Seq<char>| json_null()),
            ));
        }
        k = k + 1;
    }
    proof {
        assert(names.take(k as int) =~= names);
    }
}

/// Text of a template parameter: a string as itself, anything else as JSON.
pub open spec fn param_text(value: serde_json::Value) -> Seq<char> {
    match json_str(value) {
        Some(s) => s,
        None => json_rendering(value),
    }
}

/// A template with each `{key}` replaced by its parameter, parameters taken
/// in entry order.
pub open spec fn filled(template: Seq<char>, keys: Seq<Seq<char>>, values: Seq<serde_json::Value>) -> Seq<char>
    decreases keys.len(),
{
    if keys.len() == 0 || values.len() < keys.len() {
        template
    } else {
        let k = keys.len() - 1;
        replace_all(filled(template, keys.drop_last(), values.take(k)), "{"@ + keys[k] + "}"@, param_text(values[k]))
    }
}

/// A path from `template` and `params`; fails when a brace is left over.
pub open spec fn rendered(template: Seq<char>, keys: Seq<Seq<char>>, values: Seq<serde_json::Value>) -> Result<Seq<char>, ErrorView> {
    let text = filled(template, keys, values);
    if contains_seq(text, "{"@) || contains_seq(text, "}"@) {
        Err(ErrorView::Validation("unresolved template placeholders in '"@ + template + "'"@))
    } else {
        Ok(text)
    }
}

/// Fill the placeholders `{key}` of `template` with `params`.
pub fn render_template(template: &str, params: &StringMap<serde_json::Value>) -> (result: Result<String, Error>)
    ensures
        match rendered(template@, params.key_seq(), params.value_seq()) {
            Ok(text) => result matches Ok(r) && r@ == text,
            Err(e) => result matches Err(x) && x@ == e,
        },
{
    let entries = params.entries();
    let ghost keys = params.key_seq();
    let ghost values = params.value_seq();
    let mut text = template.to_owned();
    let mut i: usize = 0;
    while i < entries.len()
        invariant
            i <= entries@.len(),
            keys == entries@.map_values(|e: (String, serde_json::Value)| e.0@),
            values == entries@.map_values(|e: (String, serde_json::Value)| e.1),
            text@ == filled(template@, keys.take(i as int), values.take(i as int)),
        decreases entries@.len() - i,
    {
        proof {
            assert(keys.take(i + 1).drop_last() =~= keys.take(i as int));
            assert(values.take(i + 1).take(i as int) =~= values.take(i as int));
        }
        let value = &entries[i].1;
        let shown = match json_as_str(value) {
            Some(s) => s.to_owned(),
            None => json_to_string(value),
        };
        let mut placeholder = concat("{", entries[i].0.as_str());
        placeholder.append("}");
        proof {
            reveal_strlit("{");
            reveal_strlit("}");
        }
        text = replace_text(text.as_str(), placeholder.as_str(), shown.as_str());
        i = i + 1;
    }
    proof {
        assert(keys.take(i as int) =~= keys);
        assert(values.take(i as int) =~= values);
    }
    if contains_text(text.as_str(), "{") || contains_text(text.as_str(), "}") {
        let mut message = concat("unresolved template placeholders in '", template);
        message.append("'");
        Err(Error::Validation { message })
    } else {
        Ok(text)
    }
}

} // verus!
