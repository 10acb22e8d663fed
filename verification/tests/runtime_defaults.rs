use tesela::runtime::{default_ef, default_top_k, default_upload_format, default_upload_ttl_secs, ComputedLang};

#[test]
fn request_defaults() {
    assert_eq!(default_top_k(), 10);
    assert_eq!(default_ef(), 50);
    assert_eq!(default_upload_format(), "csv");
    assert_eq!(default_upload_ttl_secs(), 900);
}

#[test]
fn expression_languages_default_to_cel() {
    assert_eq!(ComputedLang::from_spec_str("sql"), ComputedLang::Sql);
    assert_eq!(ComputedLang::from_spec_str("python"), ComputedLang::Python);
    assert_eq!(ComputedLang::from_spec_str("cel"), ComputedLang::Cel);
    assert_eq!(ComputedLang::from_spec_str("anything"), ComputedLang::Cel);
}
