use tesela::evals::{exact_match_reason, Case, Suite};
use tesela::primitives::StringMap;

fn map(entries: &[(&str, i64)]) -> StringMap<serde_json::Value> {
    let mut m = StringMap::new();
    for (k, v) in entries {
        m.insert(k.to_string(), serde_json::Value::from(*v));
    }
    m
}

fn simple_suite() -> Suite {
    Suite {
        name: "add".to_string(),
        description: String::new(),
        cases: vec![
            Case {
                id: "c1".to_string(),
                tags: vec!["smoke".to_string()],
                input: map(&[("a", 1), ("b", 2)]),
                expected: map(&[("result", 3)]),
            },
            Case {
                id: "c2".to_string(),
                tags: vec![],
                input: map(&[("a", 10), ("b", 5)]),
                expected: map(&[("result", 15)]),
            },
        ],
    }
}

#[test]
fn filter_tags_works() {
    let suite = simple_suite();
    let filtered = suite.filter_tags(&["smoke"]);
    assert_eq!(filtered.cases.len(), 1);
    assert_eq!(filtered.cases[0].id, "c1");
}

#[test]
fn filter_without_tags_keeps_every_case() {
    let suite = simple_suite();
    let all = suite.filter_tags(&[]);
    assert_eq!(all.cases.len(), 2);
    assert_eq!(all.name, "add");
    assert!(suite.filter_tags(&["nightly"]).cases.is_empty());
}

#[test]
fn exact_match_passes_on_equal_values() {
    let suite = simple_suite();
    assert_eq!(exact_match_reason(&suite.cases[0], &map(&[("result", 3), ("extra", 1)])), None);
}

#[test]
fn exact_match_lists_mismatches() {
    let case = Case {
        id: "c".to_string(),
        tags: vec![],
        input: StringMap::new(),
        expected: map(&[("x", 1), ("y", 2)]),
    };
    let reason = exact_match_reason(&case, &map(&[("x", 5)])).unwrap();
    assert_eq!(reason, "x: expected Number(1) got Number(5); y: missing");
}

#[test]
fn pass_and_fail_counts_add_up() {
    assert_eq!(tesela::evals::pass_fail_counts(&vec![true, false, true, true]), (3, 1));
    assert_eq!(tesela::evals::pass_fail_counts(&Vec::new()), (0, 0));
}
