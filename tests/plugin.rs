use std::collections::HashMap;

use pgoutput_decode::{DecodingPlugin, PgOutput, Raw};

#[test]
fn pgoutput_options_join_publications() {
    let p = PgOutput::new(vec!["pub_a".to_string(), "pub_b".to_string()]);
    assert_eq!(p.name(), "pgoutput");
    let opts = p.options();
    assert_eq!(opts.len(), 2);
    assert_eq!(opts.get("proto_version").map(|s| s.as_str()), Some("1"));
    assert_eq!(opts.get("publication_names").map(|s| s.as_str()), Some("pub_a,pub_b"));
}

#[test]
fn pgoutput_empty_publications() {
    let p = PgOutput::new(Vec::new());
    let opts = p.options();
    assert_eq!(opts.get("publication_names").map(|s| s.as_str()), Some(""));
    assert_eq!(opts.get("proto_version").map(|s| s.as_str()), Some("1"));
}

#[test]
fn pgoutput_single_publication() {
    let p = PgOutput::new(vec!["only".to_string()]);
    assert_eq!(p.options().get("publication_names").map(|s| s.as_str()), Some("only"));
}

#[test]
fn raw_passes_through() {
    let mut opts = HashMap::new();
    opts.insert("k".to_string(), "v".to_string());
    let r = Raw::new("test_decoding".to_string(), opts.clone());
    assert_eq!(r.name(), "test_decoding");
    assert_eq!(r.options(), opts);
}
