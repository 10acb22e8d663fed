//! Field-level encryption for properties marked `encrypted: true`: a sealed
//! value is stored as the base64 text of the sealer's ciphertext of its JSON
//! bytes, and opened the same way back.

use vstd::prelude::*;
use crate::ir::Property;
use crate::primitives::{concat, json_from_str, json_string, ApiName, Error, StringMap};
use crate::condition::{json_as_str, json_str};
use crate::upload_mapping::{is_json_null, json_is_null};
use crate::versioning::Record;

verus! {

/// Seals and opens bytes, such as a key held by a key-management service.
pub trait Sealer {
    /// Whether `ciphertext` is a sealing of `plaintext` by this sealer. A
    /// sealer may narrow this down; by default any bytes may be.
    closed spec fn sealed(&self, plaintext: Seq<u8>, ciphertext: Seq<u8>) -> bool {
        true
    }

    /// Whether this sealer may refuse to seal `plaintext` with `error`; by
    /// default any error may come.
    closed spec fn refuses_seal(&self, plaintext: Seq<u8>, error: Error) -> bool {
        true
    }

    /// Whether `plaintext` is what this sealer opens `ciphertext` to; by
    /// default any bytes may be.
    closed spec fn opened(&self, ciphertext: Seq<u8>, plaintext: Seq<u8>) -> bool {
        true
    }

    /// Whether this sealer may refuse to open `ciphertext` with `error`; by
    /// default any error may come.
    closed spec fn refuses_open(&self, ciphertext: Seq<u8>, error: Error) -> bool {
        true
    }

    /// Encrypt `plaintext`.
    fn seal(&self, plaintext: &[u8]) -> (result: Result<Vec<u8>, Error>)
        ensures
            result matches Ok(c) ==> self.sealed(plaintext@, c@),
            result matches Err(e) ==> self.refuses_seal(plaintext@, e),
    ;

    /// Decrypt `ciphertext`.
    fn open(&self, ciphertext: &[u8]) -> (result: Result<Vec<u8>, Error>)
        ensures
            result matches Ok(p) ==> self.opened(ciphertext@, p@),
            result matches Err(e) ==> self.refuses_open(ciphertext@, e),
    ;
}

/// The JSON bytes that `serde_json::to_vec` writes for `value`.
pub uninterp spec fn json_encoding(value: serde_json::Value) -> Seq<u8>;

/// `serde_json::to_vec`: the JSON bytes of `value`, `json_encoding(value)`.
/// Claimed: it succeeds for every `Value`. `Value`'s `Serialize` fails only
/// through its serializer, whose failures here are a non-string map key
/// (a `Value` object has string keys) or a write error (writing to a `Vec`
/// cannot fail); non-finite floats cannot be held in a `Value`.
#[verifier::external_body]
fn json_to_bytes(value: &serde_json::Value) -> (result: Result<Vec<u8>, String>)
    ensures
        result is Ok,
        result matches Ok(b) ==> b@ == json_encoding(*value),
{
    match serde_json::to_vec(value) {
        Ok(b) => Ok(b),
        Err(e) => Err(e.to_string()),
    }
}

/// The value that `serde_json::from_slice` reads from `bytes`, if any.
pub uninterp spec fn json_from_bytes(bytes: Seq<u8>) -> Option<serde_json::Value>;

/// `serde_json::from_slice`: the JSON value in `bytes`; fails exactly when
/// `json_from_bytes(bytes)` is none. The text of a failure is not stated.
#[verifier::external_body]
fn parse_json_bytes(bytes: &[u8]) -> (result: Result<serde_json::Value, String>)
    ensures
        match json_from_bytes(bytes@) {
            Some(v) => result matches Ok(r) && r == v,
            None => result is Err,
        },
{
    match serde_json::from_slice(bytes) {
        Ok(v) => Ok(v),
        Err(e) => Err(e.to_string()),
    }
}

/// The standard, padded base64 text of `bytes`.
pub uninterp spec fn base64_text(bytes: Seq<u8>) -> Seq<char>;

/// The bytes that standard base64 decoding reads from `text`, if it is
/// valid base64.
pub uninterp spec fn base64_bytes(text: Seq<char>) -> Option<Seq<u8>>;

/// `base64::engine::general_purpose::STANDARD.encode`: the base64 text of
/// `bytes`, which decodes back to them. Its length computation cannot
/// overflow for a slice that exists, as no allocation exceeds `isize::MAX`
/// bytes.
#[verifier::external_body]
fn base64_encode(bytes: &[u8]) -> (result: String)
    ensures
        result@ == base64_text(bytes@),
        base64_bytes(result@) == Some(bytes@),
{
    base64::Engine::encode(&base64::engine::general_purpose::STANDARD, bytes)
}

/// `base64::engine::general_purpose::STANDARD.decode`: the bytes of
/// `text`; fails exactly when `base64_bytes(text)` is none. The text of a
/// failure is not stated.
#[verifier::external_body]
fn base64_decode(text: &str) -> (result: Result<Vec<u8>, String>)
    ensures
        match base64_bytes(text@) {
            Some(b) => result matches Ok(r) && r@ == b,
            None => result is Err,
        },
{
    match base64::Engine::decode(&base64::engine::general_purpose::STANDARD, text) {
        Ok(b) => Ok(b),
        Err(e) => Err(e.to_string()),
    }
}

/// Names of the properties marked `encrypted: true`.
pub open spec fn encrypted_names(props: Seq<Property>) -> Set<Seq<char>> {
    Set::new(
        |n: Seq<char>|
            exists|i: int| 0 <= i < props.len() && #[trigger] props[i].api_name@ == n && props[i].encrypted == Some(true),
    )
}

/// Whether field `k` of `values` is sealed by encryption: it belongs to an
/// encrypted property and holds a value other than null.
pub open spec fn needs_sealing(values: Map<Seq<char>, serde_json::Value>, props: Seq<Property>, k: Seq<char>) -> bool {
    encrypted_names(props).contains(k) && values.contains_key(k) && !json_is_null(values[k])
}

/// Whether field `k` of `values` is opened by decryption: it belongs to an
/// encrypted property and holds a JSON string.
pub open spec fn needs_opening(values: Map<Seq<char>, serde_json::Value>, props: Seq<Property>, k: Seq<char>) -> bool {
    encrypted_names(props).contains(k) && values.contains_key(k) && json_str(values[k]) is Some
}

/// What one encrypted property does to a field holding `before`: a null
/// stays; any other value becomes the base64 text of the sealer's
/// ciphertext of its JSON bytes.
pub open spec fn seal_step<S: Sealer + ?Sized>(sealer: &S, before: serde_json::Value, after: serde_json::Value) -> bool {
    if json_is_null(before) {
        after == before
    } else {
        exists|c: Seq<u8>| #[trigger] sealer.sealed(json_encoding(before), c) && after == json_string(base64_text(c))
    }
}

/// Each value of `chain` is what one encrypted property makes of the one
/// before it.
pub open spec fn seal_chain<S: Sealer + ?Sized>(sealer: &S, chain: Seq<serde_json::Value>) -> bool {
    forall|j: int| 0 <= j < chain.len() - 1 ==> #[trigger] seal_step(sealer, chain[j], chain[j + 1])
}

/// `after` is what `n` encrypted properties of one name, in turn, make of a
/// field holding `before`.
pub open spec fn sealed_times<S: Sealer + ?Sized>(sealer: &S, before: serde_json::Value, after: serde_json::Value, n: nat) -> bool {
    exists|chain: Seq<serde_json::Value>|
        #![trigger seal_chain(sealer, chain)]
        chain.len() == n + 1 && chain[0] == before && chain[n as int] == after && seal_chain(sealer, chain)
}

/// Number of properties named `k` marked `encrypted: true`; one in a
/// usual schema.
pub open spec fn copies(props: Seq<Property>, k: Seq<char>) -> nat
    decreases props.len(),
{
    if props.len() == 0 {
        0
    } else {
        copies(props.drop_last(), k) + if props.last().api_name@ == k && props.last().encrypted == Some(true) {
            1nat
        } else {
            0nat
        }
    }
}

proof fn lemma_sealed_times_zero<S: Sealer + ?Sized>(sealer: &S, v: serde_json::Value)
    ensures
        sealed_times(sealer, v, v, 0),
{
    assert(seal_chain(sealer, seq![v]));
}

proof fn lemma_sealed_times_step<S: Sealer + ?Sized>(
    sealer: &S,
    before: serde_json::Value,
    mid: serde_json::Value,
    after: serde_json::Value,
    m: nat,
)
    requires
        sealed_times(sealer, before, mid, m),
        seal_step(sealer, mid, after),
    ensures
        sealed_times(sealer, before, after, m + 1),
{
    let chain = choose|chain: Seq<serde_json::Value>|
        #![trigger seal_chain(sealer, chain)]
        chain.len() == m + 1 && chain[0] == before && chain[m as int] == mid && seal_chain(sealer, chain);
    let longer = chain.push(after);
    assert forall|j: int| 0 <= j < longer.len() - 1 implies #[trigger] seal_step(sealer, longer[j], longer[j + 1]) by {
        if j < m {
            assert(longer[j] == chain[j] && longer[j + 1] == chain[j + 1]);
            assert(seal_step(sealer, chain[j], chain[j + 1]));
        }
    }
    assert(seal_chain(sealer, longer));
}

proof fn lemma_copies_prefix(props: Seq<Property>, k: Seq<char>, j: int)
    requires
        0 <= j <= props.len(),
    ensures
        copies(props.take(j), k) <= copies(props, k),
    decreases props.len() - j,
{
    if j < props.len() {
        lemma_copies_prefix(props, k, j + 1);
        assert(props.take(j + 1).drop_last() =~= props.take(j));
    } else {
        assert(props.take(j) =~= props);
    }
}

/// What one encrypted property does to a field holding `before` when
/// records are read: a JSON string is base64-decoded, opened by the sealer
/// and read back as JSON; any other value stays.
pub open spec fn open_step<S: Sealer + ?Sized>(sealer: &S, before: serde_json::Value, after: serde_json::Value) -> bool {
    match json_str(before) {
        Some(t) => exists|c: Seq<u8>, p: Seq<u8>|
            #![trigger sealer.opened(c, p)]
            base64_bytes(t) == Some(c) && sealer.opened(c, p) && json_from_bytes(p) == Some(after),
        None => after == before,
    }
}

/// Each value of `chain` is what one encrypted property makes, on reading,
/// of the one before it.
pub open spec fn open_chain<S: Sealer + ?Sized>(sealer: &S, chain: Seq<serde_json::Value>) -> bool {
    forall|j: int| 0 <= j < chain.len() - 1 ==> #[trigger] open_step(sealer, chain[j], chain[j + 1])
}

/// `after` is what `n` encrypted properties of one name, in turn, make on
/// reading of a field holding `before`.
pub open spec fn opened_times<S: Sealer + ?Sized>(sealer: &S, before: serde_json::Value, after: serde_json::Value, n: nat) -> bool {
    exists|chain: Seq<serde_json::Value>|
        #![trigger open_chain(sealer, chain)]
        chain.len() == n + 1 && chain[0] == before && chain[n as int] == after && open_chain(sealer, chain)
}

/// Why opening the field `k` holding the text `t` failed with `e`: the
/// text is not base64 (an internal error naming the field), or the sealer
/// refused the decoded bytes, or what it opened them to is not JSON (an
/// internal error naming the field).
pub open spec fn open_failure<S: Sealer + ?Sized>(sealer: &S, k: Seq<char>, t: Seq<char>, e: Error) -> bool {
    match base64_bytes(t) {
        None => e matches Error::Internal { message } && message@.take(
            ("base64 decode for field '"@.len() + k.len() + 3) as int,
        ) == "base64 decode for field '"@ + k + "': "@,
        Some(c) => sealer.refuses_open(c, e) || exists|p: Seq<u8>|
            #![trigger sealer.opened(c, p)]
            sealer.opened(c, p) && json_from_bytes(p) is None && (e matches Error::Internal { message } && message@.take(
                ("deserialize decrypted '"@.len() + k.len() + 3) as int,
            ) == "deserialize decrypted '"@ + k + "': "@),
    }
}

proof fn lemma_opened_times_zero<S: Sealer + ?Sized>(sealer: &S, v: serde_json::Value)
    ensures
        opened_times(sealer, v, v, 0),
{
    assert(open_chain(sealer, seq![v]));
}

proof fn lemma_opened_times_step<S: Sealer + ?Sized>(
    sealer: &S,
    before: serde_json::Value,
    mid: serde_json::Value,
    after: serde_json::Value,
    m: nat,
)
    requires
        opened_times(sealer, before, mid, m),
        open_step(sealer, mid, after),
    ensures
        opened_times(sealer, before, after, m + 1),
{
    let chain = choose|chain: Seq<serde_json::Value>|
        #![trigger open_chain(sealer, chain)]
        chain.len() == m + 1 && chain[0] == before && chain[m as int] == mid && open_chain(sealer, chain);
    let longer = chain.push(after);
    assert forall|j: int| 0 <= j < longer.len() - 1 implies #[trigger] open_step(sealer, longer[j], longer[j + 1]) by {
        if j < m {
            assert(longer[j] == chain[j] && longer[j + 1] == chain[j + 1]);
            assert(open_step(sealer, chain[j], chain[j + 1]));
        }
    }
    assert(open_chain(sealer, longer));
}

/// Whether `v` is the base64 text of some ciphertext.
pub open spec fn is_sealed(v: serde_json::Value) -> bool {
    exists|c: Seq<u8>| v == json_string(base64_text(c))
}

/// Whether `v` is the JSON read from some plaintext.
pub open spec fn is_opened(v: serde_json::Value) -> bool {
    exists|p: Seq<u8>| json_from_bytes(p) == Some(v)
}

/// The stored form of a sealer's `ciphertext`: its base64 text as a JSON
/// string; the sealer's error otherwise.
pub fn sealed_value(ciphertext: Result<Vec<u8>, Error>) -> (result: Result<serde_json::Value, Error>)
    ensures
        match ciphertext {
            Ok(c) => result == Ok::<serde_json::Value, Error>(json_string(base64_text(c@))),
            Err(e) => result == Err::<serde_json::Value, Error>(e),
        },
{
    match ciphertext {
        Ok(c) => {
            let text = base64_encode(c.as_slice());
            Ok(json_from_str(text.as_str()))
        },
        Err(e) => Err(e),
    }
}

/// The value a sealer's `plaintext` for field `name` holds: the JSON it
/// reads as, or an internal error when it is not JSON; the sealer's error
/// otherwise.
pub fn opened_value(name: &ApiName, plaintext: Result<Vec<u8>, Error>) -> (result: Result<serde_json::Value, Error>)
    ensures
        match plaintext {
            Ok(p) => match json_from_bytes(p@) {
                Some(v) => result == Ok::<serde_json::Value, Error>(v),
                None => result matches Err(Error::Internal { message }) && message@.take(
                    ("deserialize decrypted '"@.len() + name@.len() + 3) as int,
                ) == "deserialize decrypted '"@ + name@ + "': "@,
            },
            Err(e) => result == Err::<serde_json::Value, Error>(e),
        },
{
    match plaintext {
        Ok(p) => match parse_json_bytes(p.as_slice()) {
            Ok(v) => Ok(v),
            Err(d) => {
                let mut message = concat("deserialize decrypted '", name.as_str());
                message.append("': ");
                let ghost head = message@;
                message.append(d.as_str());
                proof {
                    reveal_strlit("deserialize decrypted '");
                    reveal_strlit("': ");
                    assert(message@.take(head.len() as int) =~= head);
                }
                Err(Error::Internal { message })
            },
        },
        Err(e) => Err(e),
    }
}

/// Encrypt the values of properties marked `encrypted: true`.
///
/// Each such field that holds a value other than null is replaced by the
/// base64 text of the sealer's ciphertext of its JSON bytes; the first
/// failure stops the walk. Other fields are never touched, and when no field
/// needs sealing nothing changes and nothing fails.
#[verifier::spinoff_prover]
pub fn encrypt_sensitive_fields<S: Sealer + ?Sized>(
    values: &mut StringMap<serde_json::Value>,
    properties: &Vec<Property>,
    sealer: &S,
) -> (result: Result<(), Error>)
    requires
        old(values).wf(),
    ensures
        final(values).wf(),
        final(values).as_map().dom() == old(values).as_map().dom(),
        forall|k: Seq<char>| !needs_sealing(old(values).as_map(), properties@, k) ==> #[trigger] final(values).as_map()[k]
            == old(values).as_map()[k],
        result is Ok ==> forall|k: Seq<char>| needs_sealing(old(values).as_map(), properties@, k) ==> is_sealed(
            #[trigger] final(values).as_map()[k],
        ),
        !(exists|k: Seq<char>| needs_sealing(old(values).as_map(), properties@, k)) ==> result is Ok
            && final(values).as_map() == old(values).as_map(),
        result is Ok ==> forall|k: Seq<char>|
            #![trigger encrypted_names(properties@).contains(k)]
            encrypted_names(properties@).contains(k) && old(values).as_map().contains_key(k) ==> sealed_times(
                sealer,
                old(values).as_map()[k],
                final(values).as_map()[k],
                copies(properties@, k),
            ),
        result matches Err(e) ==> exists|k: Seq<char>, w: serde_json::Value, m: nat|
            #![trigger sealed_times(sealer, old(values).as_map()[k], w, m)]
            encrypted_names(properties@).contains(k) && old(values).as_map().contains_key(k) && m < copies(
                properties@,
                k,
            ) && sealed_times(sealer, old(values).as_map()[k], w, m) && !json_is_null(w) && sealer.refuses_seal(
                json_encoding(w),
                e,
            ),
{
    let ghost props = properties@;
    let ghost before = values.as_map();
    proof {
        assert forall|k: Seq<char>|
            #![trigger encrypted_names(props).contains(k)]
            encrypted_names(props).contains(k) && before.contains_key(k) implies sealed_times(
                sealer,
                before[k],
                values.as_map()[k],
                copies(props.take(0), k),
            ) by {
            assert(props.take(0).len() == 0);
            assert(copies(props.take(0), k) == 0);
            lemma_sealed_times_zero(sealer, before[k]);
        }
    }
    let mut i: usize = 0;
    while i < properties.len()
        invariant
            i <= props.len(),
            props == properties@,
            values.wf(),
            before == old(values).as_map(),
            values.as_map().dom() == before.dom(),
            forall|k: Seq<char>| !needs_sealing(before, props.take(i as int), k) ==> #[trigger] values.as_map()[k]
                == before[k],
            forall|k: Seq<char>| needs_sealing(before, props.take(i as int), k) ==> is_sealed(
                #[trigger] values.as_map()[k],
            ),
            forall|k: Seq<char>| needs_sealing(before, props.take(i as int), k) ==> needs_sealing(before, props, k),
            forall|k: Seq<char>|
                #![trigger encrypted_names(props).contains(k)]
                encrypted_names(props).contains(k) && before.contains_key(k) ==> sealed_times(
                    sealer,
                    before[k],
                    values.as_map()[k],
                    copies(props.take(i as int), k),
                ),
        decreases props.len() - i,
    {
        let ghost cur_map = values.as_map();
        let prop = &properties[i];
        let ghost taken = props.take(i as int);
        let ghost next = props.take(i + 1);
        let ghost n = prop.api_name@;
        proof {
            assert(next.drop_last() =~= taken);
            assert(next[i as int] == props[i as int]);
            assert forall|k: Seq<char>| encrypted_names(taken).contains(k) implies encrypted_names(next).contains(k) by {
                let j = choose|j: int| 0 <= j < taken.len() && #[trigger] taken[j].api_name@ == k && taken[j].encrypted == Some(true);
                assert(next[j] == taken[j]);
            }
            assert forall|k: Seq<char>| encrypted_names(next).contains(k) && k != n implies encrypted_names(taken).contains(k) by {
                let j = choose|j: int| 0 <= j < next.len() && #[trigger] next[j].api_name@ == k && next[j].encrypted == Some(true);
                if j == i {
                    assert(next[j].api_name@ == n);
                } else {
                    assert(taken[j] == next[j]);
                }
            }
            assert forall|k: Seq<char>| encrypted_names(next).contains(k) implies encrypted_names(props).contains(k) by {
                let j = choose|j: int| 0 <= j < next.len() && #[trigger] next[j].api_name@ == k && next[j].encrypted == Some(true);
                assert(props[j] == next[j]);
            }
            assert forall|k: Seq<char>| #[trigger] copies(next, k) == copies(taken, k) + if k == n && props[i as int].encrypted
                == Some(true) {
                1nat
            } else {
                0nat
            } by {
                assert(next.last() == props[i as int]);
            }
            lemma_copies_prefix(props, n, i + 1);
        }
        if prop.encrypted == Some(true) {
            proof {
                assert(encrypted_names(next).contains(n)) by {
                    assert(next[i as int].api_name@ == n);
                }
            }
            let current = values.get(prop.api_name.as_str());
            match current {
                Some(val) => {
                    if !is_json_null(val) {
                        let ghost untouched = !needs_sealing(before, taken, n);
                        proof {
                            if untouched {
                                assert(values.as_map()[n] == before[n]);
                            }
                            assert(needs_sealing(before, next, n));
                            assert(needs_sealing(before, props, n));
                        }
                        let plaintext = match json_to_bytes(val) {
                            Ok(b) => b,
                            Err(d) => {
                                let message = concat("serialize for encryption: ", d.as_str());
                                return Err(Error::Internal { message });
                            },
                        };
                        let outcome = sealer.seal(plaintext.as_slice());
                        let ghost sealing = outcome;
                        let sealed = sealed_value(outcome);
                        match sealed {
                            Ok(v) => {
                                let ghost held = *val;
                                proof {
                                    let c = sealing->Ok_0@;
                                    assert(sealer.sealed(json_encoding(held), c));
                                    assert(seal_step(sealer, held, v));
                                    assert(sealed_times(sealer, before[n], held, copies(taken, n)));
                                    assert(copies(next, n) == copies(taken, n) + 1);
                                    lemma_sealed_times_step(sealer, before[n], held, v, copies(taken, n));
                                }
                                values.insert(prop.api_name.as_str().to_owned(), v);
                            },
                            Err(e) => {
                                proof {
                                    assert(sealed_times(sealer, before[n], *val, copies(taken, n)));
                                    assert(sealer.refuses_seal(json_encoding(*val), e));
                                }
                                return Err(e);
                            },
                        }
                    } else {
                        proof {
                            if !needs_sealing(before, taken, n) {
                                assert(values.as_map()[n] == before[n]);
                            }
                            assert(seal_step(sealer, *val, *val));
                            assert(sealed_times(sealer, before[n], *val, copies(taken, n)));
                            assert(copies(next, n) == copies(taken, n) + 1);
                            lemma_sealed_times_step(sealer, before[n], *val, *val, copies(taken, n));
                        }
                    }
                },
                None => {},
            }
        }
        proof {
            assert forall|k: Seq<char>| !needs_sealing(before, next, k) implies #[trigger] values.as_map()[k] == before[k] by {
                if k != n {
                    assert(!needs_sealing(before, taken, k));
                }
            }
            assert forall|k: Seq<char>| needs_sealing(before, next, k) implies is_sealed(#[trigger] values.as_map()[k]) by {
                if k != n {
                    assert(needs_sealing(before, taken, k));
                }
            }
            assert forall|k: Seq<char>|
                #![trigger encrypted_names(props).contains(k)]
                encrypted_names(props).contains(k) && before.contains_key(k) implies sealed_times(
                    sealer,
                    before[k],
                    values.as_map()[k],
                    copies(next, k),
                ) by {
                assert(copies(next, k) == copies(taken, k) + if k == n && props[i as int].encrypted == Some(true) {
                    1nat
                } else {
                    0nat
                });
                if k == n && props[i as int].encrypted == Some(true) {
                } else {
                    assert(values.as_map()[k] == cur_map[k]);
                }
            }
        }
        i = i + 1;
    }
    proof {
        assert(props.take(props.len() as int) =~= props);
        if !(exists|k: Seq<char>| needs_sealing(before, props, k)) {
            assert(values.as_map() =~= before);
        }
    }
    Ok(())
}

/// Decrypt the fields of `record` for properties marked `encrypted: true`.
///
/// Each such field that holds a JSON string is base64-decoded, opened by the
/// sealer and read back as JSON; the first failure stops the walk. Other
/// fields are never touched, and when no field needs opening nothing
/// changes and nothing fails.
#[verifier::spinoff_prover]
pub fn decrypt_record_fields<S: Sealer + ?Sized>(
    record: &mut Record,
    properties: &Vec<Property>,
    sealer: &S,
) -> (result: Result<(), Error>)
    requires
        old(record).values.wf(),
    ensures
        final(record).values.wf(),
        final(record).primary_key == old(record).primary_key,
        final(record).values.as_map().dom() == old(record).values.as_map().dom(),
        forall|k: Seq<char>| !needs_opening(old(record).values.as_map(), properties@, k)
            ==> #[trigger] final(record).values.as_map()[k] == old(record).values.as_map()[k],
        result is Ok ==> forall|k: Seq<char>| needs_opening(old(record).values.as_map(), properties@, k) ==> is_opened(
            #[trigger] final(record).values.as_map()[k],
        ),
        !(exists|k: Seq<char>| needs_opening(old(record).values.as_map(), properties@, k)) ==> result is Ok
            && final(record).values.as_map() == old(record).values.as_map(),
        result is Ok ==> forall|k: Seq<char>|
            #![trigger encrypted_names(properties@).contains(k)]
            encrypted_names(properties@).contains(k) && old(record).values.as_map().contains_key(k) ==> opened_times(
                sealer,
                old(record).values.as_map()[k],
                final(record).values.as_map()[k],
                copies(properties@, k),
            ),
        result matches Err(e) ==> exists|k: Seq<char>, w: serde_json::Value, m: nat|
            #![trigger opened_times(sealer, old(record).values.as_map()[k], w, m)]
            encrypted_names(properties@).contains(k) && old(record).values.as_map().contains_key(k) && m < copies(
                properties@,
                k,
            ) && opened_times(sealer, old(record).values.as_map()[k], w, m) && (json_str(w) matches Some(t)
                && open_failure(sealer, k, t, e)),
{
    let ghost props = properties@;
    let ghost before = record.values.as_map();
    proof {
        assert forall|k: Seq<char>|
            #![trigger encrypted_names(props).contains(k)]
            encrypted_names(props).contains(k) && before.contains_key(k) implies opened_times(
                sealer,
                before[k],
                record.values.as_map()[k],
                copies(props.take(0), k),
            ) by {
            assert(props.take(0).len() == 0);
            assert(copies(props.take(0), k) == 0);
            lemma_opened_times_zero(sealer, before[k]);
        }
    }
    let mut i: usize = 0;
    while i < properties.len()
        invariant
            i <= props.len(),
            props == properties@,
            record.values.wf(),
            record.primary_key == old(record).primary_key,
            before == old(record).values.as_map(),
            record.values.as_map().dom() == before.dom(),
            forall|k: Seq<char>| !needs_opening(before, props.take(i as int), k) ==> #[trigger] record.values.as_map()[k]
                == before[k],
            forall|k: Seq<char>| needs_opening(before, props.take(i as int), k) ==> is_opened(
                #[trigger] record.values.as_map()[k],
            ),
            forall|k: Seq<char>| needs_opening(before, props.take(i as int), k) ==> needs_opening(before, props, k),
            forall|k: Seq<char>|
                #![trigger encrypted_names(props).contains(k)]
                encrypted_names(props).contains(k) && before.contains_key(k) ==> opened_times(
                    sealer,
                    before[k],
                    record.values.as_map()[k],
                    copies(props.take(i as int), k),
                ),
        decreases props.len() - i,
    {
        let ghost cur_map = record.values.as_map();
        let prop = &properties[i];
        let ghost taken = props.take(i as int);
        let ghost next = props.take(i + 1);
        let ghost n = prop.api_name@;
        proof {
            assert(next.drop_last() =~= taken);
            assert(next[i as int] == props[i as int]);
            assert forall|k: Seq<char>| encrypted_names(taken).contains(k) implies encrypted_names(next).contains(k) by {
                let j = choose|j: int| 0 <= j < taken.len() && #[trigger] taken[j].api_name@ == k && taken[j].encrypted == Some(true);
                assert(next[j] == taken[j]);
            }
            assert forall|k: Seq<char>| encrypted_names(next).contains(k) && k != n implies encrypted_names(taken).contains(k) by {
                let j = choose|j: int| 0 <= j < next.len() && #[trigger] next[j].api_name@ == k && next[j].encrypted == Some(true);
                if j == i {
                    assert(next[j].api_name@ == n);
                } else {
                    assert(taken[j] == next[j]);
                }
            }
            assert forall|k: Seq<char>| encrypted_names(next).contains(k) implies encrypted_names(props).contains(k) by {
                let j = choose|j: int| 0 <= j < next.len() && #[trigger] next[j].api_name@ == k && next[j].encrypted == Some(true);
                assert(props[j] == next[j]);
            }
            assert forall|k: Seq<char>| #[trigger] copies(next, k) == copies(taken, k) + if k == n && props[i as int].encrypted
                == Some(true) {
                1nat
            } else {
                0nat
            } by {
                assert(next.last() == props[i as int]);
            }
            lemma_copies_prefix(props, n, i + 1);
        }
        if prop.encrypted == Some(true) {
            proof {
                assert(encrypted_names(next).contains(n)) by {
                    assert(next[i as int].api_name@ == n);
                }
            }
            let current = record.values.get(prop.api_name.as_str());
            let text = match current {
                Some(val) => json_as_str(val),
                None => None,
            };
            match text {
                Some(encoded) => {
                    proof {
                        if !needs_opening(before, taken, n) {
                            assert(record.values.as_map()[n] == before[n]);
                        }
                        assert(needs_opening(before, next, n));
                        assert(needs_opening(before, props, n));
                    }
                    let ghost held = record.values.as_map()[n];
                    proof {
                        assert(opened_times(sealer, before[n], held, copies(taken, n)));
                        assert(copies(next, n) == copies(taken, n) + 1);
                    }
                    let ciphertext = match base64_decode(encoded) {
                        Ok(c) => c,
                        Err(d) => {
                            let mut message = concat("base64 decode for field '", prop.api_name.as_str());
                            message.append("': ");
                            let ghost head = message@;
                            message.append(d.as_str());
                            proof {
                                reveal_strlit("base64 decode for field '");
                                reveal_strlit("': ");
                                assert(message@.take(head.len() as int) =~= head);
                                assert(open_failure(sealer, n, encoded@, Error::Internal { message }));
                            }
                            return Err(Error::Internal { message });
                        },
                    };
                    let outcome = sealer.open(ciphertext.as_slice());
                    let ghost opening = outcome;
                    let opened = opened_value(&prop.api_name, outcome);
                    match opened {
                        Ok(v) => {
                            proof {
                                let p = opening->Ok_0@;
                                assert(sealer.opened(ciphertext@, p));
                                assert(open_step(sealer, held, v));
                                lemma_opened_times_step(sealer, before[n], held, v, copies(taken, n));
                            }
                            record.values.insert(prop.api_name.as_str().to_owned(), v);
                        },
                        Err(e) => {
                            proof {
                                match opening {
                                    Ok(p) => {
                                        assert(sealer.opened(ciphertext@, p@));
                                    },
                                    Err(_) => {},
                                }
                                assert(open_failure(sealer, n, encoded@, e));
                            }
                            return Err(e);
                        },
                    }
                },
                None => {
                    proof {
                        if !needs_opening(before, taken, n) {
                            if record.values.as_map().contains_key(n) {
                                assert(record.values.as_map()[n] == before[n]);
                            }
                        }
                        if before.contains_key(n) {
                            let held = record.values.as_map()[n];
                            assert(open_step(sealer, held, held));
                            lemma_opened_times_step(sealer, before[n], held, held, copies(taken, n));
                            assert(copies(next, n) == copies(taken, n) + 1);
                        }
                    }
                },
            }
        }
        proof {
            assert forall|k: Seq<char>| !needs_opening(before, next, k) implies #[trigger] record.values.as_map()[k]
                == before[k] by {
                if k != n {
                    assert(!needs_opening(before, taken, k));
                }
            }
            assert forall|k: Seq<char>| needs_opening(before, next, k) implies is_opened(
                #[trigger] record.values.as_map()[k],
            ) by {
                if k != n {
                    assert(needs_opening(before, taken, k));
                }
            }
            assert forall|k: Seq<char>|
                #![trigger encrypted_names(props).contains(k)]
                encrypted_names(props).contains(k) && before.contains_key(k) implies opened_times(
                    sealer,
                    before[k],
                    record.values.as_map()[k],
                    copies(next, k),
                ) by {
                assert(copies(next, k) == copies(taken, k) + if k == n && props[i as int].encrypted == Some(true) {
                    1nat
                } else {
                    0nat
                });
                if k == n && props[i as int].encrypted == Some(true) {
                } else {
                    assert(record.values.as_map()[k] == cur_map[k]);
                }
            }
        }
        i = i + 1;
    }
    proof {
        assert(props.take(props.len() as int) =~= props);
        if !(exists|k: Seq<char>| needs_opening(before, props, k)) {
            assert(record.values.as_map() =~= before);
        }
    }
    Ok(())
}

} // verus!
