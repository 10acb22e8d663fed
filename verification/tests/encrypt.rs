use tesela::encrypt::{decrypt_record_fields, encrypt_sensitive_fields, opened_value, sealed_value, Sealer};
use tesela::ir::{DataType, Property};
use tesela::primitives::{ApiName, Error, StringMap};
use tesela::versioning::Record;

struct Xor(u8);

impl Sealer for Xor {
    fn seal(&self, plaintext: &[u8]) -> Result<Vec<u8>, Error> {
        Ok(plaintext.iter().map(|b| b ^ self.0).collect())
    }
    fn open(&self, ciphertext: &[u8]) -> Result<Vec<u8>, Error> {
        Ok(ciphertext.iter().map(|b| b ^ self.0).collect())
    }
}

struct Broken;

impl Sealer for Broken {
    fn seal(&self, _plaintext: &[u8]) -> Result<Vec<u8>, Error> {
        Err(Error::Internal { message: "kms down".to_string() })
    }
    fn open(&self, _ciphertext: &[u8]) -> Result<Vec<u8>, Error> {
        Err(Error::Internal { message: "kms down".to_string() })
    }
}

fn property(name: &str, encrypted: Option<bool>) -> Property {
    Property {
        api_name: ApiName::new_unchecked(name),
        display: None,
        description: None,
        data_type: DataType::String,
        nullable: None,
        unique: None,
        indexed: None,
        default: None,
        computed: None,
        source_column: None,
        allowed_values: None,
        sort_order: None,
        tags: Vec::new(),
        markings: Vec::new(),
        encrypted,
        quality: Vec::new(),
        metadata: None,
    }
}

fn props() -> Vec<Property> {
    vec![property("ssn", Some(true)), property("name", None), property("note", Some(false))]
}

#[test]
fn encrypt_then_decrypt_gives_back_the_values() {
    let mut values = StringMap::new();
    values.insert("ssn".to_string(), serde_json::Value::from("123-45-6789"));
    values.insert("name".to_string(), serde_json::Value::from("Ada"));
    values.insert("note".to_string(), serde_json::Value::from("plain"));
    encrypt_sensitive_fields(&mut values, &props(), &Xor(0x5a)).unwrap();
    let sealed = values.get("ssn").unwrap().as_str().unwrap().to_string();
    assert_ne!(sealed, "123-45-6789");
    assert_eq!(values.get("name"), Some(&serde_json::Value::from("Ada")));
    assert_eq!(values.get("note"), Some(&serde_json::Value::from("plain")));

    let mut record = Record { primary_key: Some(serde_json::Value::from(1)), values };
    decrypt_record_fields(&mut record, &props(), &Xor(0x5a)).unwrap();
    assert_eq!(record.values.get("ssn"), Some(&serde_json::Value::from("123-45-6789")));
    assert_eq!(record.values.get("name"), Some(&serde_json::Value::from("Ada")));
    assert_eq!(record.primary_key, Some(serde_json::Value::from(1)));
}

#[test]
fn sealed_value_is_base64_of_the_ciphertext() {
    assert_eq!(sealed_value(Ok(b"hello".to_vec())).unwrap(), serde_json::Value::from("aGVsbG8="));
    assert!(sealed_value(Err(Error::Internal { message: "x".to_string() })).is_err());
}

#[test]
fn opened_value_reads_json() {
    let name = ApiName::new_unchecked("ssn");
    let expected: serde_json::Value = serde_json::from_str("[1,2]").unwrap();
    assert_eq!(opened_value(&name, Ok(b"[1,2]".to_vec())).unwrap(), expected);
    match opened_value(&name, Ok(b"not json".to_vec())) {
        Err(Error::Internal { message }) => assert!(message.starts_with("deserialize decrypted 'ssn': ")),
        other => panic!("unexpected {:?}", other),
    }
}

#[test]
fn null_and_absent_fields_are_left_alone() {
    let mut values = StringMap::new();
    values.insert("ssn".to_string(), serde_json::Value::Null);
    encrypt_sensitive_fields(&mut values, &props(), &Broken).unwrap();
    assert_eq!(values.get("ssn"), Some(&serde_json::Value::Null));
    let mut empty = StringMap::new();
    encrypt_sensitive_fields(&mut empty, &props(), &Broken).unwrap();
    assert_eq!(empty.len(), 0);
}

#[test]
fn sealer_errors_are_returned() {
    let mut values = StringMap::new();
    values.insert("ssn".to_string(), serde_json::Value::from("x"));
    let err = encrypt_sensitive_fields(&mut values, &props(), &Broken).unwrap_err();
    assert_eq!(err.text(), "internal error: kms down");
}

#[test]
fn bad_base64_is_an_internal_error() {
    let mut values = StringMap::new();
    values.insert("ssn".to_string(), serde_json::Value::from("***"));
    let mut record = Record { primary_key: None, values };
    match decrypt_record_fields(&mut record, &props(), &Xor(1)) {
        Err(Error::Internal { message }) => assert!(message.starts_with("base64 decode for field 'ssn': ")),
        other => panic!("unexpected {:?}", other),
    }
}

#[test]
fn non_string_fields_are_not_decrypted() {
    let mut values = StringMap::new();
    values.insert("ssn".to_string(), serde_json::Value::from(5));
    let mut record = Record { primary_key: None, values };
    decrypt_record_fields(&mut record, &props(), &Broken).unwrap();
    assert_eq!(record.values.get("ssn"), Some(&serde_json::Value::from(5)));
}

/// A sealer that records what it is handed.
struct Recording {
    seen: std::cell::RefCell<Vec<Vec<u8>>>,
}

impl Sealer for Recording {
    fn seal(&self, plaintext: &[u8]) -> Result<Vec<u8>, Error> {
        self.seen.borrow_mut().push(plaintext.to_vec());
        Ok(b"sealed".to_vec())
    }
    fn open(&self, ciphertext: &[u8]) -> Result<Vec<u8>, Error> {
        self.seen.borrow_mut().push(ciphertext.to_vec());
        Ok(b"{\"a\":1}".to_vec())
    }
}

#[test]
fn the_sealer_gets_the_json_bytes_of_the_field() {
    let sealer = Recording { seen: std::cell::RefCell::new(Vec::new()) };
    let mut values = StringMap::new();
    values.insert("ssn".to_string(), serde_json::Value::from("123"));
    encrypt_sensitive_fields(&mut values, &props(), &sealer).unwrap();
    assert_eq!(sealer.seen.borrow().as_slice(), &[b"\"123\"".to_vec()]);
    assert_eq!(values.get("ssn"), Some(&serde_json::Value::from("c2VhbGVk")));
}

#[test]
fn the_sealer_opens_the_decoded_bytes() {
    let sealer = Recording { seen: std::cell::RefCell::new(Vec::new()) };
    let mut values = StringMap::new();
    values.insert("ssn".to_string(), serde_json::Value::from("aGVsbG8="));
    let mut record = Record { primary_key: None, values };
    decrypt_record_fields(&mut record, &props(), &sealer).unwrap();
    assert_eq!(sealer.seen.borrow().as_slice(), &[b"hello".to_vec()]);
    let expected: serde_json::Value = serde_json::from_str("{\"a\":1}").unwrap();
    assert_eq!(record.values.get("ssn"), Some(&expected));
}
