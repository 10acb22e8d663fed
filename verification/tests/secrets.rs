use tesela::primitives::{Error, StringMap};
use tesela::secrets::{ChainSecretResolver, EnvSecretResolver, SecretResolver, StaticSecretResolver};

#[test]
fn static_resolver_hits() {
    let mut m = StringMap::new();
    m.insert("DB_PASS".to_string(), "hunter2".to_string());
    let r = StaticSecretResolver::new(m);
    assert_eq!(r.resolve("DB_PASS").unwrap(), "hunter2");
}

#[test]
fn static_resolver_miss() {
    let r = StaticSecretResolver::new(StringMap::new());
    assert!(r.resolve("NOPE").is_err());
}

#[test]
fn chain_falls_through() {
    let a = StaticSecretResolver::new(StringMap::new());
    let mut m = StringMap::new();
    m.insert("KEY".to_string(), "val".to_string());
    let b = StaticSecretResolver::new(m);
    let chain = ChainSecretResolver::new(vec![a, b]);
    assert_eq!(chain.resolve("KEY").unwrap(), "val");
}

#[test]
fn empty_chain_reports_not_found() {
    let chain: ChainSecretResolver<StaticSecretResolver> = ChainSecretResolver::new(Vec::new());
    match chain.resolve("X") {
        Err(Error::NotFound { kind, key }) => {
            assert_eq!(kind, "secret");
            assert_eq!(key, "X");
        },
        _ => panic!("expected not found"),
    }
}

#[test]
fn env_resolver_strips_prefix() {
    let r = EnvSecretResolver::with_prefix("env:");
    assert_eq!(r.key_for("env:DB_PASS"), "DB_PASS");
    assert_eq!(r.key_for("DB_PASS"), "DB_PASS");
    assert_eq!(EnvSecretResolver::new().key_for("env:X"), "env:X");
}
