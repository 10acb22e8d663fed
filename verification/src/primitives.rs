//! Names, text helpers and the small value types shared by the library.

use vstd::prelude::*;

verus! {

/// Validated-by-convention API name of an ontology element.
#[derive(Debug, Clone, PartialEq, Eq, Hash, PartialOrd, Ord)]
pub struct ApiName {
    name: String,
}

impl View for ApiName {
    type V = Seq<char>;

    closed spec fn view(&self) -> Seq<char> {
        self.name@
    }
}

impl ApiName {
    /// Build a name from text without validating it.
    pub fn new_unchecked(name: &str) -> (result: ApiName)
        ensures
            result@ == name@,
    {
        ApiName { name: name.to_owned() }
    }

    /// A copy of this name.
    pub fn duplicate(&self) -> (result: ApiName)
        ensures
            result@ == self@,
    {
        ApiName { name: self.name.clone() }
    }

    /// Whether two names are the same.
    pub fn same(&self, other: &ApiName) -> (result: bool)
        ensures
            result == (self@ == other@),
    {
        str_eq(self.name.as_str(), other.name.as_str())
    }

    /// The name as text.
    pub fn as_str(&self) -> (result: &str)
        ensures
            result@ == self@,
    {
        self.name.as_str()
    }
}

/// JSON values carried through definitions and requests.
#[verifier::external_type_specification]
#[verifier::external_body]
pub struct ExJsonValue(serde_json::Value);

/// Whether two strings hold the same characters.
#[verifier::external_body]
pub(crate) fn str_eq(left: &str, right: &str) -> (result: bool)
    ensures
        result == (left@ == right@),
{
    left == right
}

/// Errors reported by the library.
#[derive(Debug, Clone, PartialEq, Eq)]
pub enum Error {
    /// Input failed validation.
    Validation {
        /// What was wrong.
        message: String,
    },
    /// A named resource does not exist.
    NotFound {
        /// Kind of resource looked up.
        kind: String,
        /// Key that was looked up.
        key: String,
    },
    /// The operation is not supported here.
    Unsupported {
        /// What is unsupported.
        message: String,
    },
    /// The request is malformed.
    BadRequest {
        /// What was wrong.
        message: String,
    },
    /// An internal failure.
    Internal {
        /// What failed.
        message: String,
    },
    /// A policy or approval gate refused the operation.
    PolicyDenied {
        /// Why it was refused.
        message: String,
    },
    /// The caller could not be identified.
    Unauthorized {
        /// What was missing.
        message: String,
    },
    /// The write conflicts with what is stored.
    Conflict {
        /// What conflicts.
        message: String,
    },
}

/// An error as plain values.
pub enum ErrorView {
    /// Input failed validation.
    Validation(Seq<char>),
    /// A named resource does not exist: its kind and key.
    NotFound(Seq<char>, Seq<char>),
    /// The operation is not supported here.
    Unsupported(Seq<char>),
    /// The request is malformed.
    BadRequest(Seq<char>),
    /// An internal failure.
    Internal(Seq<char>),
    /// A policy or approval gate refused the operation.
    PolicyDenied(Seq<char>),
    /// The caller could not be identified.
    Unauthorized(Seq<char>),
    /// The write conflicts with what is stored.
    Conflict(Seq<char>),
}

impl View for Error {
    type V = ErrorView;

    open spec fn view(&self) -> ErrorView {
        match self {
            Error::Validation { message } => ErrorView::Validation(message@),
            Error::NotFound { kind, key } => ErrorView::NotFound(kind@, key@),
            Error::Unsupported { message } => ErrorView::Unsupported(message@),
            Error::BadRequest { message } => ErrorView::BadRequest(message@),
            Error::Internal { message } => ErrorView::Internal(message@),
            Error::PolicyDenied { message } => ErrorView::PolicyDenied(message@),
            Error::Unauthorized { message } => ErrorView::Unauthorized(message@),
            Error::Conflict { message } => ErrorView::Conflict(message@),
        }
    }
}

/// One-line rendering of an error.
pub open spec fn error_text(error: Error) -> Seq<char> {
    match error {
        Error::Validation { message } => "validation error: "@ + message@,
        Error::NotFound { kind, key } => kind@ + " not found: "@ + key@,
        Error::Unsupported { message } => "unsupported: "@ + message@,
        Error::BadRequest { message } => "bad request: "@ + message@,
        Error::Internal { message } => "internal error: "@ + message@,
        Error::PolicyDenied { message } => "policy denied: "@ + message@,
        Error::Unauthorized { message } => "unauthorized: "@ + message@,
        Error::Conflict { message } => "conflict: "@ + message@,
    }
}

impl Error {
    /// One-line rendering of this error.
    pub fn text(&self) -> (result: String)
        ensures
            result@ == error_text(*self),
    {
        match self {
            Error::Validation { message } => concat("validation error: ", message.as_str()),
            Error::NotFound { kind, key } => {
                let mut out = concat(kind.as_str(), " not found: ");
                out.append(key.as_str());
                out
            },
            Error::Unsupported { message } => concat("unsupported: ", message.as_str()),
            Error::BadRequest { message } => concat("bad request: ", message.as_str()),
            Error::Internal { message } => concat("internal error: ", message.as_str()),
            Error::PolicyDenied { message } => concat("policy denied: ", message.as_str()),
            Error::Unauthorized { message } => concat("unauthorized: ", message.as_str()),
            Error::Conflict { message } => concat("conflict: ", message.as_str()),
        }
    }
}

/// Text of the form `a` followed by `b`.
pub fn concat(a: &str, b: &str) -> (result: String)
    ensures
        result@ == a@ + b@,
{
    let mut out = a.to_owned();
    out.append(b);
    out
}

/// The JSON string value holding `text`.
pub uninterp spec fn json_string(text: Seq<char>) -> serde_json::Value;

/// JSON string value of `text`.
#[verifier::external_body]
pub(crate) fn json_from_str(text: &str) -> (result: serde_json::Value)
    ensures
        result == json_string(text@),
{
    serde_json::Value::from(text)
}

/// The JSON number value holding `n`.
pub uninterp spec fn json_integer(n: int) -> serde_json::Value;

/// JSON number value of `n`.
#[verifier::external_body]
pub(crate) fn json_from_i64(n: i64) -> (result: serde_json::Value)
    ensures
        result == json_integer(n as int),
{
    serde_json::Value::from(n)
}

/// Debug rendering of a string: quoted, with special characters escaped.
pub uninterp spec fn debug_text(text: Seq<char>) -> Seq<char>;

/// The `{:?}` rendering of `text`.
#[verifier::external_body]
pub(crate) fn debug_string(text: &str) -> (result: String)
    ensures
        result@ == debug_text(text@),
{
    format!("{:?}", text)
}

/// In a sequence without duplicates, an element's index is its position.
pub proof fn lemma_unique_index<A>(s: Seq<A>, i: int)
    requires
        s.no_duplicates(),
        0 <= i < s.len(),
    ensures
        s.index_of(s[i]) == i,
{
    assert(s.contains(s[i]));
    let j = s.index_of(s[i]);
    assert(0 <= j < s.len() && s[j] == s[i]);
}

/// An element that is contained sits at its index.
pub proof fn lemma_index_of_contains<A>(s: Seq<A>, a: A)
    requires
        s.contains(a),
    ensures
        0 <= s.index_of(a) < s.len(),
        s[s.index_of(a)] == a,
{
}

/// `a` comes before `b` in the order of `str`: character by character by
/// code point, a proper prefix first.
pub open spec fn text_less(a: Seq<char>, b: Seq<char>) -> bool
    decreases a.len(),
{
    if a.len() == 0 {
        b.len() > 0
    } else if b.len() == 0 {
        false
    } else if a[0] == b[0] {
        text_less(a.drop_first(), b.drop_first())
    } else {
        a[0] < b[0]
    }
}

/// No text comes before itself.
pub proof fn lemma_text_less_irreflexive(a: Seq<char>)
    ensures
        !text_less(a, a),
    decreases a.len(),
{
    if a.len() > 0 {
        lemma_text_less_irreflexive(a.drop_first());
    }
}

/// The order of text is transitive.
pub proof fn lemma_text_less_transitive(a: Seq<char>, b: Seq<char>, c: Seq<char>)
    requires
        text_less(a, b),
        text_less(b, c),
    ensures
        text_less(a, c),
    decreases a.len(),
{
    if a.len() > 0 && b.len() > 0 && c.len() > 0 && a[0] == b[0] && b[0] == c[0] {
        lemma_text_less_transitive(a.drop_first(), b.drop_first(), c.drop_first());
    }
}

/// Of two different texts, one comes before the other.
pub proof fn lemma_text_less_total(a: Seq<char>, b: Seq<char>)
    ensures
        a == b || text_less(a, b) || text_less(b, a),
    decreases a.len(),
{
    if a.len() > 0 && b.len() > 0 && a[0] == b[0] {
        lemma_text_less_total(a.drop_first(), b.drop_first());
        if a.drop_first() == b.drop_first() {
            assert(a =~= seq![a[0]] + a.drop_first());
            assert(b =~= seq![b[0]] + b.drop_first());
        }
    } else if a.len() == 0 && b.len() == 0 {
        assert(a =~= b);
    }
}

/// Texts that agree on their first `i` characters compare as what follows.
proof fn lemma_text_less_skip(a: Seq<char>, b: Seq<char>, i: int)
    requires
        0 <= i <= a.len(),
        i <= b.len(),
        a.take(i) == b.take(i),
    ensures
        text_less(a, b) == text_less(a.skip(i), b.skip(i)),
    decreases i,
{
    if i > 0 {
        assert(a[0] == a.take(i)[0]);
        assert(b[0] == b.take(i)[0]);
        assert(a.drop_first().take(i - 1) =~= a.take(i).drop_first());
        assert(b.drop_first().take(i - 1) =~= b.take(i).drop_first());
        lemma_text_less_skip(a.drop_first(), b.drop_first(), i - 1);
        assert(a.drop_first().skip(i - 1) =~= a.skip(i));
        assert(b.drop_first().skip(i - 1) =~= b.skip(i));
    } else {
        assert(a.skip(0) =~= a);
        assert(b.skip(0) =~= b);
    }
}

/// Whether `a` comes before `b`.
pub fn text_before(a: &str, b: &str) -> (result: bool)
    ensures
        result == text_less(a@, b@),
{
    let x = crate::text::chars_of(a);
    let y = crate::text::chars_of(b);
    let mut i: usize = 0;
    while i < x.len() && i < y.len() && x[i] == y[i]
        invariant
            x@ == a@,
            y@ == b@,
            i <= x@.len(),
            i <= y@.len(),
            x@.take(i as int) == y@.take(i as int),
        decreases x@.len() - i,
    {
        proof {
            assert(x@.take(i + 1) =~= x@.take(i as int).push(x@[i as int]));
            assert(y@.take(i + 1) =~= y@.take(i as int).push(y@[i as int]));
        }
        i = i + 1;
    }
    proof {
        lemma_text_less_skip(a@, b@, i as int);
    }
    if i == x.len() {
        i < y.len()
    } else if i == y.len() {
        false
    } else {
        x[i] < y[i]
    }
}

/// Keys in strictly increasing text order.
pub open spec fn keys_sorted(keys: Seq<Seq<char>>) -> bool {
    forall|a: int, b: int| 0 <= a < b < keys.len() ==> text_less(#[trigger] keys[a], #[trigger] keys[b])
}

/// Two sorted key sequences holding the same keys are the same sequence.
proof fn lemma_sorted_same_keys(x: Seq<Seq<char>>, y: Seq<Seq<char>>)
    requires
        keys_sorted(x),
        keys_sorted(y),
        forall|q: Seq<char>| x.contains(q) <==> y.contains(q),
    ensures
        x == y,
    decreases x.len(),
{
    if x.len() == 0 {
        if y.len() > 0 {
            assert(y.contains(y[0]));
        }
        assert(x =~= y);
    } else {
        assert(x.contains(x[0]));
        assert(y.len() > 0);
        assert(y.contains(y[0]));
        let j = choose|j: int| 0 <= j < y.len() && y[j] == x[0];
        let i = choose|i: int| 0 <= i < x.len() && x[i] == y[0];
        if j > 0 && i > 0 {
            assert(text_less(y[0], y[j]));
            assert(text_less(x[0], x[i]));
            lemma_text_less_transitive(y[0], x[0], y[0]);
            lemma_text_less_irreflexive(y[0]);
        } else if j > 0 {
            assert(text_less(y[0], y[j]));
            lemma_text_less_irreflexive(y[0]);
        } else if i > 0 {
            assert(text_less(x[0], x[i]));
            lemma_text_less_irreflexive(x[0]);
        }
        assert(x[0] == y[0]);
        let xs = x.drop_first();
        let ys = y.drop_first();
        assert forall|q: Seq<char>| xs.contains(q) <==> ys.contains(q) by {
            if xs.contains(q) {
                let a = choose|a: int| 0 <= a < xs.len() && xs[a] == q;
                assert(x[a + 1] == q);
                assert(text_less(x[0], x[a + 1]));
                assert(x.contains(q));
                let b = choose|b: int| 0 <= b < y.len() && y[b] == q;
                if b == 0 {
                    lemma_text_less_irreflexive(q);
                }
                assert(ys[b - 1] == q);
            }
            if ys.contains(q) {
                let a = choose|a: int| 0 <= a < ys.len() && ys[a] == q;
                assert(y[a + 1] == q);
                assert(text_less(y[0], y[a + 1]));
                assert(y.contains(q));
                let b = choose|b: int| 0 <= b < x.len() && x[b] == q;
                if b == 0 {
                    lemma_text_less_irreflexive(q);
                }
                assert(xs[b - 1] == q);
            }
        }
        assert forall|a: int, b: int| 0 <= a < b < xs.len() implies text_less(#[trigger] xs[a], #[trigger] xs[b]) by {
            assert(xs[a] == x[a + 1] && xs[b] == x[b + 1]);
        }
        assert forall|a: int, b: int| 0 <= a < b < ys.len() implies text_less(#[trigger] ys[a], #[trigger] ys[b]) by {
            assert(ys[a] == y[a + 1] && ys[b] == y[b + 1]);
        }
        lemma_sorted_same_keys(xs, ys);
        assert(x =~= seq![x[0]] + xs);
        assert(y =~= seq![y[0]] + ys);
    }
}

/// Strictly sorted keys hold no key twice.
proof fn lemma_sorted_distinct(keys: Seq<Seq<char>>)
    requires
        keys_sorted(keys),
    ensures
        keys.no_duplicates(),
{
    assert forall|a: int, b: int| 0 <= a < b < keys.len() implies keys[a] != keys[b] by {
        lemma_text_less_irreflexive(keys[a]);
    }
}

/// Putting `k` at position `i` of sorted keys keeps them sorted when the
/// keys before `i` come before `k` and the key at `i`, if any, does not
/// and differs from it; `k` was not among them.
proof fn lemma_insert_sorted(keys: Seq<Seq<char>>, i: int, k: Seq<char>)
    requires
        keys_sorted(keys),
        0 <= i <= keys.len(),
        forall|j: int| 0 <= j < i ==> text_less(#[trigger] keys[j], k),
        i < keys.len() ==> !text_less(keys[i], k) && keys[i] != k,
    ensures
        keys_sorted(keys.insert(i, k)),
        !keys.contains(k),
{
    let ks1 = keys.insert(i, k);
    if i < keys.len() {
        lemma_text_less_total(keys[i], k);
    }
    assert forall|j: int| i <= j < keys.len() implies text_less(k, #[trigger] keys[j]) by {
        if j > i {
            lemma_text_less_transitive(k, keys[i], keys[j]);
        }
    }
    assert forall|a: int, b: int| 0 <= a < b < ks1.len() implies text_less(#[trigger] ks1[a], #[trigger] ks1[b]) by {
        if b < i {
            assert(ks1[a] == keys[a] && ks1[b] == keys[b]);
        } else if b == i {
            assert(ks1[a] == keys[a]);
        } else if a < i {
            assert(ks1[a] == keys[a] && ks1[b] == keys[b - 1]);
            lemma_text_less_transitive(keys[a], k, keys[b - 1]);
        } else if a == i {
            assert(ks1[b] == keys[b - 1]);
        } else {
            assert(ks1[a] == keys[a - 1] && ks1[b] == keys[b - 1]);
        }
    }
    assert forall|j: int| 0 <= j < keys.len() implies keys[j] != k by {
        if j < i {
            lemma_text_less_irreflexive(k);
        } else {
            assert(text_less(k, keys[j]));
            lemma_text_less_irreflexive(k);
        }
    }
}

/// A map from text keys to values, each key held once.
///
/// Entries are kept in increasing key order (the order of `str`, as a
/// `BTreeMap<String, _>` keeps them); inserting a key that is present
/// replaces its value in place.
#[derive(Debug, Clone)]
pub struct StringMap<V> {
    entries: Vec<(String, V)>,
}

impl<V> StringMap<V> {
    /// Keys in entry order.
    pub closed spec fn key_seq(&self) -> Seq<Seq<char>> {
        self.entries@.map_values(|e: (String, V)| e.0@)
    }

    /// Values in entry order.
    pub closed spec fn value_seq(&self) -> Seq<V> {
        self.entries@.map_values(|e: (String, V)| e.1)
    }

    /// Keys are held in increasing text order, as a `BTreeMap` holds them,
    /// each key once.
    pub closed spec fn wf(&self) -> bool {
        keys_sorted(self.key_seq())
    }

    /// The map held, as a mathematical map.
    pub closed spec fn as_map(&self) -> Map<Seq<char>, V> {
        Map::new(
            |k: Seq<char>| self.key_seq().contains(k),
            |k: Seq<char>| self.value_seq()[self.key_seq().index_of(k)],
        )
    }

    /// A key is held exactly when it is among the entries; its value is that
    /// of the entry that `index_of` picks.
    pub proof fn lemma_as_map_entries(&self, k: Seq<char>)
        ensures
            self.as_map().contains_key(k) == self.key_seq().contains(k),
            self.key_seq().contains(k) ==> self.as_map()[k] == self.value_seq()[self.key_seq().index_of(k)],
            self.key_seq().len() == self.value_seq().len(),
            self.wf() ==> self.key_seq().no_duplicates(),
            self.wf() == keys_sorted(self.key_seq()),
    {
        if self.wf() {
            lemma_sorted_distinct(self.key_seq());
        }
    }

    /// Two well-formed maps with the same contents hold the same entries in
    /// the same order.
    pub proof fn lemma_same_contents(&self, other: &StringMap<V>)
        requires
            self.wf(),
            other.wf(),
            self.as_map() == other.as_map(),
        ensures
            self.key_seq() == other.key_seq(),
            self.value_seq() == other.value_seq(),
    {
        let x = self.key_seq();
        let y = other.key_seq();
        assert forall|q: Seq<char>| x.contains(q) <==> y.contains(q) by {
            assert(self.as_map().contains_key(q) == x.contains(q));
            assert(other.as_map().contains_key(q) == y.contains(q));
        }
        lemma_sorted_same_keys(x, y);
        lemma_sorted_distinct(x);
        assert forall|i: int| 0 <= i < x.len() implies self.value_seq()[i] == other.value_seq()[i] by {
            lemma_unique_index(x, i);
            assert(x.contains(x[i]));
            assert(self.as_map()[x[i]] == self.value_seq()[i]);
            assert(other.as_map()[x[i]] == other.value_seq()[i]);
        }
        assert(self.value_seq() =~= other.value_seq());
    }

    /// An empty map.
    pub fn new() -> (result: StringMap<V>)
        ensures
            result.wf(),
            result.as_map() == Map::<Seq<char>, V>::empty(),
            result.key_seq() == Seq::<Seq<char>>::empty(),
    {
        let result = StringMap { entries: Vec::new() };
        assert(result.as_map() =~= Map::<Seq<char>, V>::empty());
        assert(result.key_seq() =~= Seq::<Seq<char>>::empty());
        result
    }

    /// Number of entries.
    pub fn len(&self) -> (result: usize)
        requires
            self.wf(),
        ensures
            result == self.as_map().len(),
            result == self.key_seq().len(),
    {
        proof {
            self.lemma_len();
        }
        self.entries.len()
    }

    proof fn lemma_len(&self)
        requires
            self.wf(),
        ensures
            self.as_map().dom() == self.key_seq().to_set(),
            self.as_map().len() == self.key_seq().len(),
            self.key_seq().len() == self.entries@.len(),
    {
        lemma_sorted_distinct(self.key_seq());
        assert(self.as_map().dom() =~= self.key_seq().to_set());
        self.key_seq().unique_seq_to_set();
    }

    /// Position of `key` among the entries.
    fn find(&self, key: &str) -> (result: Option<usize>)
        ensures
            match result {
                Some(i) => i < self.entries@.len() && self.key_seq()[i as int] == key@,
                None => !self.key_seq().contains(key@),
            },
    {
        let mut i: usize = 0;
        while i < self.entries.len()
            invariant
                i <= self.entries@.len(),
                forall|j: int| 0 <= j < i ==> self.key_seq()[j] != key@,
            decreases self.entries@.len() - i,
        {
            if crate::primitives::str_eq(self.entries[i].0.as_str(), key) {
                return Some(i);
            }
            i = i + 1;
        }
        None
    }

    /// The value held under `key`.
    pub fn get(&self, key: &str) -> (result: Option<&V>)
        requires
            self.wf(),
        ensures
            match result {
                Some(v) => self.as_map().contains_key(key@) && *v == self.as_map()[key@],
                None => !self.as_map().contains_key(key@),
            },
    {
        match self.find(key) {
            Some(i) => {
                proof {
                    lemma_sorted_distinct(self.key_seq());
                    lemma_unique_index(self.key_seq(), i as int);
                }
                Some(&self.entries[i].1)
            },
            None => None,
        }
    }

    /// Whether `key` is held.
    pub fn contains_key(&self, key: &str) -> (result: bool)
        requires
            self.wf(),
        ensures
            result == self.as_map().contains_key(key@),
    {
        self.find(key).is_some()
    }

    /// Drop the entry under `key`, if any.
    pub fn remove(&mut self, key: &str)
        requires
            old(self).wf(),
        ensures
            final(self).wf(),
            final(self).as_map() == old(self).as_map().remove(key@),
    {
        let _ = self.take(key);
    }

    /// Drop the entry under `key`, if any, handing back its value.
    pub fn take(&mut self, key: &str) -> (result: Option<V>)
        requires
            old(self).wf(),
        ensures
            final(self).wf(),
            final(self).as_map() == old(self).as_map().remove(key@),
            match result {
                Some(v) => old(self).as_map().contains_key(key@) && v == old(self).as_map()[key@],
                None => !old(self).as_map().contains_key(key@),
            },
    {
        match self.find(key) {
            Some(i) => {
                let ghost before = self.entries@;
                let ghost k = key@;
                let (_, value) = self.entries.remove(i);
                proof {
                    lemma_sorted_distinct(old(self).key_seq());
                    lemma_unique_index(old(self).key_seq(), i as int);
                    let ks0 = old(self).key_seq();
                    assert(self.key_seq() =~= ks0.remove(i as int));
                    assert(self.value_seq() =~= old(self).value_seq().remove(i as int));
                    assert forall|a: int, b: int| 0 <= a < b < self.key_seq().len() implies text_less(
                        #[trigger] self.key_seq()[a],
                        #[trigger] self.key_seq()[b],
                    ) by {
                        let a0 = if a < i { a } else { a + 1 };
                        let b0 = if b < i { b } else { b + 1 };
                        assert(self.key_seq()[a] == ks0[a0]);
                        assert(self.key_seq()[b] == ks0[b0]);
                    }
                    assert forall|q: Seq<char>| #[trigger] self.key_seq().contains(q) <==> (ks0.contains(q) && q != k) by {
                        if self.key_seq().contains(q) {
                            let j = self.key_seq().index_of(q);
                            lemma_index_of_contains(self.key_seq(), q);
                            let j0 = if j < i { j } else { j + 1 };
                            assert(ks0[j0] == q);
                            lemma_unique_index(ks0, i as int);
                            if q == k {
                                assert(j0 != i);
                                assert(ks0[i as int] == k);
                            }
                        }
                        if ks0.contains(q) && q != k {
                            let j0 = ks0.index_of(q);
                            lemma_index_of_contains(ks0, q);
                            assert(j0 != i);
                            let j = if j0 < i { j0 } else { j0 - 1 };
                            assert(self.key_seq()[j] == q);
                        }
                    }
                    assert forall|q: Seq<char>| #[trigger] self.key_seq().contains(q) implies self.value_seq()[self.key_seq().index_of(q)]
                        == old(self).as_map()[q] by {
                        let j = self.key_seq().index_of(q);
                        lemma_index_of_contains(self.key_seq(), q);
                        let j0 = if j < i { j } else { j + 1 };
                        assert(ks0[j0] == q);
                        lemma_unique_index(ks0, j0);
                        assert(self.value_seq()[j] == old(self).value_seq()[j0]);
                    }
                    assert(self.as_map() =~= old(self).as_map().remove(k));
                    assert(value == old(self).value_seq()[i as int]);
                }
                Some(value)
            },
            None => {
                proof {
                    assert(old(self).as_map().remove(key@) =~= old(self).as_map());
                }
                None
            },
        }
    }

    /// Hold `value` under `key`, replacing the value held before; a new
    /// key takes its place in key order.
    pub fn insert(&mut self, key: String, value: V)
        requires
            old(self).wf(),
        ensures
            final(self).wf(),
            final(self).as_map() == old(self).as_map().insert(key@, value),
    {
        let ghost k = key@;
        let ghost ks0 = self.key_seq();
        let ghost vs0 = self.value_seq();
        let ghost e0 = self.entries@;
        proof {
            lemma_sorted_distinct(ks0);
        }
        let mut i: usize = 0;
        while i < self.entries.len() && text_before(self.entries[i].0.as_str(), key.as_str())
            invariant
                self.entries@ == e0,
                k == key@,
                ks0 == e0.map_values(|e: (String, V)| e.0@),
                i <= e0.len(),
                forall|j: int| 0 <= j < i ==> text_less(#[trigger] ks0[j], k),
            decreases e0.len() - i,
        {
            assert(ks0[i as int] == e0[i as int].0@);
            i = i + 1;
        }
        if i < self.entries.len() && str_eq(self.entries[i].0.as_str(), key.as_str()) {
            self.entries.set(i, (key, value));
            proof {
                assert(self.key_seq() =~= ks0);
                assert forall|q: Seq<char>| #[trigger] self.key_seq().contains(q) implies
                    self.value_seq()[self.key_seq().index_of(q)] == old(self).as_map().insert(k, value)[q] by {
                    lemma_unique_index(ks0, i as int);
                    if q != k {
                        let j = self.key_seq().index_of(q);
                        lemma_index_of_contains(self.key_seq(), q);
                        assert(j != i);
                    }
                }
                assert(self.as_map() =~= old(self).as_map().insert(k, value));
            }
        } else {
            self.entries.insert(i, (key, value));
            proof {
                let ks1 = ks0.insert(i as int, k);
                let vs1 = vs0.insert(i as int, value);
                assert(self.key_seq() =~= ks1);
                assert(self.value_seq() =~= vs1);
                lemma_insert_sorted(ks0, i as int, k);
                lemma_sorted_distinct(ks1);
                assert forall|q: Seq<char>| #[trigger] ks1.contains(q) <==> (ks0.contains(q) || q == k) by {
                    if ks0.contains(q) {
                        let j = ks0.index_of(q);
                        lemma_index_of_contains(ks0, q);
                        let j1 = if j < i { j } else { j + 1 };
                        assert(ks1[j1] == q);
                    }
                    if q == k {
                        assert(ks1[i as int] == q);
                    }
                    if ks1.contains(q) {
                        let j1 = ks1.index_of(q);
                        lemma_index_of_contains(ks1, q);
                        if j1 != i {
                            let j = if j1 < i { j1 } else { j1 - 1 };
                            assert(ks0[j] == q);
                        }
                    }
                }
                assert forall|q: Seq<char>| #[trigger] ks1.contains(q) implies vs1[ks1.index_of(q)]
                    == old(self).as_map().insert(k, value)[q] by {
                    if q == k {
                        lemma_unique_index(ks1, i as int);
                    } else {
                        let j = ks0.index_of(q);
                        lemma_index_of_contains(ks0, q);
                        let j1 = if j < i { j } else { j + 1 };
                        assert(ks1[j1] == q);
                        lemma_unique_index(ks1, j1);
                        lemma_unique_index(ks0, j);
                    }
                }
                assert(self.as_map() =~= old(self).as_map().insert(k, value));
            }
        }
    }
}

impl StringMap<serde_json::Value> {
    /// Write every entry of `other` over this map: its keys take its
    /// values, other keys keep theirs.
    pub fn merge(&mut self, other: &StringMap<serde_json::Value>)
        requires
            old(self).wf(),
            other.wf(),
        ensures
            final(self).wf(),
            final(self).as_map() == old(self).as_map().union_prefer_right(other.as_map()),
    {
        let ghost keys = other.key_seq();
        let ghost base = self.as_map();
        proof {
            lemma_sorted_distinct(keys);
        }
        let mut i: usize = 0;
        while i < other.entries.len()
            invariant
                i <= other.entries@.len(),
                keys == other.key_seq(),
                keys.len() == other.entries@.len(),
                keys.no_duplicates(),
                self.wf(),
                self.as_map() == base.union_prefer_right(
                    Map::new(|k: Seq<char>| keys.take(i as int).contains(k), |k: Seq<char>| other.as_map()[k]),
                ),
            decreases other.entries@.len() - i,
        {
            let key = other.entries[i].0.clone();
            let value = crate::agents::json_copy(&other.entries[i].1);
            proof {
                lemma_unique_index(keys, i as int);
                assert(keys[i as int] == key@);
                assert(value == other.as_map()[key@]);
            }
            self.insert(key, value);
            proof {
                assert forall|k: Seq<char>| #[trigger] keys.take(i + 1).contains(k) <==> (keys.take(i as int).contains(k)
                    || k == keys[i as int]) by {
                    if keys.take(i + 1).contains(k) {
                        let j = choose|j: int| 0 <= j < i + 1 && #[trigger] keys.take(i + 1)[j] == k;
                        if j < i {
                            assert(keys.take(i as int)[j] == k);
                        }
                    }
                    if keys.take(i as int).contains(k) {
                        let j = choose|j: int| 0 <= j < i && #[trigger] keys.take(i as int)[j] == k;
                        assert(keys.take(i + 1)[j] == k);
                    }
                    if k == keys[i as int] {
                        assert(keys.take(i + 1)[i as int] == k);
                    }
                }
                assert(self.as_map() =~= base.union_prefer_right(
                    Map::new(|k: Seq<char>| keys.take(i + 1).contains(k), |k: Seq<char>| other.as_map()[k]),
                ));
            }
            i = i + 1;
        }
        proof {
            assert(keys.take(i as int) =~= keys);
            assert(Map::new(|k: Seq<char>| keys.contains(k), |k: Seq<char>| other.as_map()[k]) =~= other.as_map());
        }
    }

    /// A copy of this map of JSON values, entries in the same order.
    pub fn duplicate(&self) -> (result: StringMap<serde_json::Value>)
        ensures
            result.key_seq() == self.key_seq(),
            result.value_seq() == self.value_seq(),
            result.wf() == self.wf(),
            result.as_map() == self.as_map(),
    {
        let mut entries: Vec<(String, serde_json::Value)> = Vec::new();
        let mut i: usize = 0;
        while i < self.entries.len()
            invariant
                i <= self.entries@.len(),
                entries@.len() == i,
                forall|k: int| 0 <= k < i ==> (#[trigger] entries@[k]).0@ == self.entries@[k].0@ && entries@[k].1
                    == self.entries@[k].1,
            decreases self.entries@.len() - i,
        {
            let key = self.entries[i].0.clone();
            let value = crate::agents::json_copy(&self.entries[i].1);
            entries.push((key, value));
            i = i + 1;
        }
        let result = StringMap { entries };
        proof {
            assert(result.key_seq() =~= self.key_seq());
            assert(result.value_seq() =~= self.value_seq());
            assert(result.as_map() =~= self.as_map());
        }
        result
    }

    /// Keys and values in entry order.
    pub fn entries(&self) -> (result: &Vec<(String, serde_json::Value)>)
        ensures
            result@.map_values(|e: (String, serde_json::Value)| e.0@) == self.key_seq(),
            result@.map_values(|e: (String, serde_json::Value)| e.1) == self.value_seq(),
    {
        &self.entries
    }
}

/// Entries of an optional map; none when absent.
pub open spec fn entries_of<V>(m: Option<StringMap<V>>) -> Map<Seq<char>, V> {
    match m {
        Some(m) => m.as_map(),
        None => Map::empty(),
    }
}

/// An optional map that, when present, holds each key once.
pub open spec fn opt_wf<V>(m: Option<StringMap<V>>) -> bool {
    match m {
        Some(m) => m.wf(),
        None => true,
    }
}

/// Hold `value` under `key` in an optional map, creating the map when absent.
pub fn insert_into<V>(m: Option<StringMap<V>>, key: &str, value: V) -> (result: Option<StringMap<V>>)
    requires
        opt_wf(m),
    ensures
        result is Some,
        opt_wf(result),
        entries_of(result) == entries_of(m).insert(key@, value),
{
    let mut map = match m {
        Some(map) => map,
        None => StringMap::new(),
    };
    map.insert(key.to_owned(), value);
    Some(map)
}

/// Some copy of `text`.
pub fn some_text(text: &str) -> (result: Option<String>)
    ensures
        result matches Some(s) && s@ == text@,
{
    Some(text.to_owned())
}

/// `after` is `before` with one more element, whose view is `last`.
pub open spec fn pushed<T: View>(after: Seq<T>, before: Seq<T>, last: T::V) -> bool {
    &&& after.len() == before.len() + 1
    &&& after.drop_last() == before
    &&& after.last()@ == last
}

/// What a map holds after a removal: nothing under the removed key, and
/// every other key as before.
pub proof fn lemma_read_after_remove<V>(before: StringMap<V>, after: StringMap<V>, key: Seq<char>, other: Seq<char>)
    requires
        after.as_map() == before.as_map().remove(key),
        other != key,
    ensures
        !after.as_map().contains_key(key),
        after.as_map().contains_key(other) == before.as_map().contains_key(other),
        before.as_map().contains_key(other) ==> after.as_map()[other] == before.as_map()[other],
{
}

/// What a map holds after an insertion: the inserted value under its key,
/// and every other key as before.
pub proof fn lemma_read_after_insert<V>(
    before: StringMap<V>,
    after: StringMap<V>,
    key: Seq<char>,
    value: V,
    other: Seq<char>,
)
    requires
        after.as_map() == before.as_map().insert(key, value),
        other != key,
    ensures
        after.as_map().contains_key(key),
        after.as_map()[key] == value,
        after.as_map().contains_key(other) == before.as_map().contains_key(other),
        before.as_map().contains_key(other) ==> after.as_map()[other] == before.as_map()[other],
{
}

} // verus!
