//! Evaluation suites: cases with inputs and expected outputs, selection of
//! cases by tag, and the exact-match check of an output.

use vstd::prelude::*;
use crate::agent_loop::{join_texts, joined};
use crate::agents::json_copy;
use crate::primitives::{concat, str_eq, StringMap};

verus! {

/// One evaluation case.
#[derive(Debug)]
pub struct Case {
    /// Identifier within the suite.
    pub id: String,
    /// Tags for selection.
    pub tags: Vec<String>,
    /// Input fed to the target.
    pub input: StringMap<serde_json::Value>,
    /// Expected output.
    pub expected: StringMap<serde_json::Value>,
}

/// A case as plain values.
pub struct CaseView {
    /// Identifier.
    pub id: Seq<char>,
    /// Tags.
    pub tags: Seq<Seq<char>>,
    /// Input, as keys in order and their values.
    pub input: (Seq<Seq<char>>, Seq<serde_json::Value>),
    /// Expected output, as keys in order and their values.
    pub expected: (Seq<Seq<char>>, Seq<serde_json::Value>),
}

/// Views of a list of texts.
pub open spec fn texts(items: Seq<String>) -> Seq<Seq<char>> {
    items.map_values(|s: String| s@)
}

impl View for Case {
    type V = CaseView;

    open spec fn view(&self) -> CaseView {
        CaseView {
            id: self.id@,
            tags: texts(self.tags@),
            input: (self.input.key_seq(), self.input.value_seq()),
            expected: (self.expected.key_seq(), self.expected.value_seq()),
        }
    }
}

/// A named collection of cases.
#[derive(Debug)]
pub struct Suite {
    /// Suite name.
    pub name: String,
    /// Description.
    pub description: String,
    /// Cases to run.
    pub cases: Vec<Case>,
}

/// Views of a list of cases.
pub open spec fn case_views(cases: Seq<Case>) -> Seq<CaseView> {
    cases.map_values(|c: Case| c@)
}

/// A case carries at least one of `tags`.
pub open spec fn tagged(case: CaseView, tags: Seq<Seq<char>>) -> bool {
    exists|i: int, j: int| 0 <= i < tags.len() && 0 <= j < case.tags.len() && #[trigger] tags[i] == #[trigger] case.tags[j]
}

/// The cases that carry at least one of `tags`, in order.
pub open spec fn with_tags(cases: Seq<CaseView>, tags: Seq<Seq<char>>) -> Seq<CaseView>
    decreases cases.len(),
{
    if cases.len() == 0 {
        Seq::empty()
    } else {
        let before = with_tags(cases.drop_last(), tags);
        if tagged(cases.last(), tags) {
            before.push(cases.last())
        } else {
            before
        }
    }
}

/// A copy of a case.
pub fn copy_case(case: &Case) -> (result: Case)
    ensures
        result@ == case@,
{
    let mut tags: Vec<String> = Vec::new();
    let mut i: usize = 0;
    while i < case.tags.len()
        invariant
            i <= case.tags@.len(),
            texts(tags@) == texts(case.tags@).take(i as int),
        decreases case.tags@.len() - i,
    {
        let ghost before = tags@;
        tags.push(case.tags[i].clone());
        proof {
            assert(texts(tags@) =~= texts(before).push(case.tags@[i as int]@));
            assert(texts(case.tags@).take(i + 1) =~= texts(case.tags@).take(i as int).push(case.tags@[i as int]@));
        }
        i = i + 1;
    }
    proof {
        assert(texts(case.tags@).take(i as int) =~= texts(case.tags@));
    }
    Case { id: case.id.clone(), tags, input: case.input.duplicate(), expected: case.expected.duplicate() }
}

/// Whether `case` carries one of `tags`.
fn has_tag(case: &Case, tags: &[&str]) -> (result: bool)
    ensures
        result == tagged(case@, tags@.map_values(|t: &str| t@)),
{
    let ghost ts = tags@.map_values(|t: &str| t@);
    let ghost cts = texts(case.tags@);
    let mut i: usize = 0;
    while i < tags.len()
        invariant
            i <= tags@.len(),
            ts == tags@.map_values(|t: &str| t@),
            cts == texts(case.tags@),
            forall|a: int, b: int| 0 <= a < i && 0 <= b < cts.len() ==> ts[a] != cts[b],
        decreases tags@.len() - i,
    {
        let mut j: usize = 0;
        while j < case.tags.len()
            invariant
                i < tags@.len(),
                j <= case.tags@.len(),
                ts == tags@.map_values(|t: &str| t@),
                cts == texts(case.tags@),
                forall|a: int, b: int| 0 <= a < i && 0 <= b < cts.len() ==> ts[a] != cts[b],
                forall|b: int| 0 <= b < j ==> ts[i as int] != cts[b],
            decreases case.tags@.len() - j,
        {
            if str_eq(case.tags[j].as_str(), tags[i]) {
                proof {
                    assert(ts[i as int] == cts[j as int]);
                    assert(case@.tags[j as int] == cts[j as int]);
                    assert(tagged(case@, ts));
                }
                return true;
            }
            j = j + 1;
        }
        i = i + 1;
    }
    false
}

impl Suite {
    /// The cases that carry at least one of `tags`; all cases when `tags`
    /// is empty.
    pub fn filter_tags(&self, tags: &[&str]) -> (result: Suite)
        ensures
            result.name@ == self.name@,
            result.description@ == self.description@,
            tags@.len() == 0 ==> case_views(result.cases@) == case_views(self.cases@),
            tags@.len() > 0 ==> case_views(result.cases@) == with_tags(
                case_views(self.cases@),
                tags@.map_values(|t: &str| t@),
            ),
    {
        let ghost ts = tags@.map_values(|t: &str| t@);
        let ghost all = case_views(self.cases@);
        let mut cases: Vec<Case> = Vec::new();
        let mut i: usize = 0;
        while i < self.cases.len()
            invariant
                i <= self.cases@.len(),
                ts == tags@.map_values(|t: &str| t@),
                all == case_views(self.cases@),
                tags@.len() == 0 ==> case_views(cases@) == all.take(i as int),
                tags@.len() > 0 ==> case_views(cases@) == with_tags(all.take(i as int), ts),
            decreases self.cases@.len() - i,
        {
            proof {
                assert(all.take(i + 1).drop_last() =~= all.take(i as int));
                assert(all.take(i + 1).last() == self.cases@[i as int]@);
            }
            let keep = tags.len() == 0 || has_tag(&self.cases[i], tags);
            if keep {
                let ghost before = cases@;
                cases.push(copy_case(&self.cases[i]));
                proof {
                    assert(case_views(cases@) =~= case_views(before).push(self.cases@[i as int]@));
                    assert(all.take(i + 1) =~= all.take(i as int).push(self.cases@[i as int]@));
                }
            }
            i = i + 1;
        }
        proof {
            assert(all.take(i as int) =~= all);
        }
        Suite { name: self.name.clone(), description: self.description.clone(), cases }
    }
}

/// Whether two JSON values are equal.
pub uninterp spec fn json_equal(a: serde_json::Value, b: serde_json::Value) -> bool;

/// `PartialEq::eq` of `serde_json::Value`. Its result is named; `Value`
/// implements `Eq` (numbers hold only finite floats), so a value equals
/// itself.
#[verifier::external_body]
pub(crate) fn json_eq(a: &serde_json::Value, b: &serde_json::Value) -> (result: bool)
    ensures
        result == json_equal(*a, *b),
        *a == *b ==> result,
{
    a == b
}

/// The `{:?}` text of a JSON value.
pub uninterp spec fn json_debug(value: serde_json::Value) -> Seq<char>;

/// The `{:?}` text of `value`.
#[verifier::external_body]
pub(crate) fn json_debug_text(value: &serde_json::Value) -> (result: String)
    ensures
        result@ == json_debug(*value),
{
    format!("{:?}", value)
}

/// Mismatches of the expected entries against `got`: a key that is missing,
/// or whose value differs; in the order of the expected entries.
pub open spec fn mismatches(
    keys: Seq<Seq<char>>,
    expected: Seq<serde_json::Value>,
    got: Map<Seq<char>, serde_json::Value>,
) -> Seq<Seq<char>>
    decreases keys.len(),
{
    if keys.len() == 0 || expected.len() < keys.len() {
        Seq::empty()
    } else {
        let k = keys.len() - 1;
        let before = mismatches(keys.drop_last(), expected.take(k), got);
        let key = keys[k];
        let exp = expected[k];
        if !got.contains_key(key) {
            before.push(key + ": missing"@)
        } else if json_equal(got[key], exp) {
            before
        } else {
            before.push(key + ": expected "@ + json_debug(exp) + " got "@ + json_debug(got[key]))
        }
    }
}

/// Why `got` does not match the expected output of `case`, if it does not:
/// its mismatches joined with `; `.
pub open spec fn exact_match_failure(case: CaseView, got: Map<Seq<char>, serde_json::Value>) -> Option<Seq<char>> {
    let ms = mismatches(case.expected.0, case.expected.1, got);
    if ms.len() == 0 {
        None
    } else {
        Some(joined(ms, "; "@))
    }
}

/// Why `got` does not match the expected output of `case` exactly, if it
/// does not.
pub fn exact_match_reason(case: &Case, got: &StringMap<serde_json::Value>) -> (result: Option<String>)
    requires
        got.wf(),
    ensures
        match exact_match_failure(case@, got.as_map()) {
            Some(reason) => result matches Some(r) && r@ == reason,
            None => result is None,
        },
{
    let entries = case.expected.entries();
    let ghost keys = case.expected.key_seq();
    let ghost values = case.expected.value_seq();
    let mut found: Vec<String> = Vec::new();
    let mut i: usize = 0;
    while i < entries.len()
        invariant
            i <= entries@.len(),
            got.wf(),
            keys == entries@.map_values(|e: (String, serde_json::Value)| e.0@),
            values == entries@.map_values(|e: (String, serde_json::Value)| e.1),
            texts(found@) == mismatches(keys.take(i as int), values.take(i as int), got.as_map()),
        decreases entries@.len() - i,
    {
        proof {
            assert(keys.take(i + 1).drop_last() =~= keys.take(i as int));
            assert(values.take(i + 1).take(i as int) =~= values.take(i as int));
        }
        let key = entries[i].0.as_str();
        let ghost before = found@;
        match got.get(key) {
            Some(actual) => {
                if !json_eq(actual, &entries[i].1) {
                    let mut line = concat(key, ": expected ");
                    let exp = json_debug_text(&entries[i].1);
                    line.append(exp.as_str());
                    line.append(" got ");
                    let act = json_debug_text(actual);
                    line.append(act.as_str());
                    found.push(line);
                }
            },
            None => {
                found.push(concat(key, ": missing"));
            },
        }
        proof {
            assert(texts(found@) =~= mismatches(keys.take(i + 1), values.take(i + 1), got.as_map()));
        }
        i = i + 1;
    }
    proof {
        assert(keys.take(i as int) =~= keys);
        assert(values.take(i as int) =~= values);
    }
    if found.len() == 0 {
        None
    } else {
        Some(join_texts(&found, "; "))
    }
}

/// Number of passes among `passes`.
pub open spec fn passed(passes: Seq<bool>) -> nat
    decreases passes.len(),
{
    if passes.len() == 0 {
        0
    } else {
        passed(passes.drop_last()) + if passes.last() { 1nat } else { 0nat }
    }
}

/// Counts of a suite run: how many cases passed and how many failed.
pub fn pass_fail_counts(passes: &Vec<bool>) -> (result: (usize, usize))
    ensures
        result.0 == passed(passes@),
        result.0 + result.1 == passes@.len(),
{
    let mut pass: usize = 0;
    let mut i: usize = 0;
    while i < passes.len()
        invariant
            i <= passes@.len(),
            pass == passed(passes@.take(i as int)),
            pass <= i,
        decreases passes@.len() - i,
    {
        assert(passes@.take(i + 1).drop_last() =~= passes@.take(i as int));
        if passes[i] {
            pass = pass + 1;
        }
        i = i + 1;
    }
    assert(passes@.take(i as int) =~= passes@);
    (pass, passes.len() - pass)
}

} // verus!
