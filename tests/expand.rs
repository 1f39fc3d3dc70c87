use default_config::expand::{
    expand_with_options, extract_config_trait, use_default_config_for, ExpandError, ExpandedBlock, ImplBlock,
};
use default_config::options::{classify, contains_bracket, parse_options, AttrToken, Expected, ParseError, RawToken};
use default_config::path::{construct_path_to_macro, QualifiedName, Segment};

fn seg(ident: &str, arguments: &str) -> Segment {
    Segment { ident: ident.to_string(), arguments: arguments.to_string() }
}

fn name(idents: &[&str]) -> QualifiedName {
    QualifiedName { leading_colon: false, segments: idents.iter().map(|i| seg(i, "")).collect() }
}

fn ident(s: &str) -> AttrToken {
    AttrToken::Ident(s.to_string())
}

fn word(s: &str) -> RawToken {
    RawToken::Word(s.to_string())
}

fn comma() -> RawToken {
    RawToken::Punct(',')
}

fn block(trait_ref: Option<QualifiedName>, items: &[&str]) -> ImplBlock<String> {
    ImplBlock {
        attrs: String::new(),
        generics: String::new(),
        trait_ref,
        self_ty: "Pallet".to_string(),
        items: items.iter().map(|i| i.to_string()).collect(),
    }
}

fn expanded(r: Result<ExpandedBlock<String>, ExpandError>) -> ExpandedBlock<String> {
    match r {
        Ok(e) => e,
        Err(e) => panic!("expansion failed: {:?}", e),
    }
}

fn failure(r: Result<ExpandedBlock<String>, ExpandError>) -> ExpandError {
    match r {
        Ok(_) => panic!("expansion succeeded"),
        Err(e) => e,
    }
}

fn delegation_texts(e: &ExpandedBlock<String>) -> Vec<String> {
    e.default_items.iter().map(|d| d.to_text()).collect()
}

#[test]
fn single_option_on_plain_config() {
    let attr = vec![word("OptA")];
    let e = expanded(use_default_config_for(&attr, block(Some(name(&["Config"])), &["type X = u32;"])));
    assert_eq!(e.config_trait.to_text(), "Config");
    assert_eq!(e.self_ty, "Pallet");
    assert_eq!(e.items, vec!["type X = u32;".to_string()]);
    assert_eq!(
        delegation_texts(&e),
        vec!["__substrate_config_defaults::use_default_config_for!(OptA);".to_string()]
    );
}

#[test]
fn empty_payload_adds_nothing() {
    let attr: Vec<RawToken> = vec![];
    let e = expanded(use_default_config_for(&attr, block(Some(name(&["some", "path", "Config"])), &[])));
    assert_eq!(e.config_trait.to_text(), "some::path::Config");
    assert!(e.items.is_empty());
    assert!(e.default_items.is_empty());
}

#[test]
fn other_trait_is_rejected() {
    let attr = vec![word("OptA"), comma(), word("OptB")];
    let r = use_default_config_for(&attr, block(Some(name(&["Other"])), &[]));
    assert_eq!(failure(r), ExpandError::NotConfig);
}

#[test]
fn namespaced_other_trait_is_rejected() {
    let attr = vec![word("OptA")];
    let r = use_default_config_for(&attr, block(Some(name(&["pallet", "Config", "Other"])), &[]));
    assert_eq!(failure(r), ExpandError::NotConfig);
}

#[test]
fn inherent_impl_is_rejected() {
    let attr = vec![word("OptA")];
    let r = use_default_config_for(&attr, block(None, &["fn f() {}"]));
    assert_eq!(failure(r), ExpandError::NotConfig);
}

#[test]
fn contract_error_comes_before_payload_error() {
    let attr = vec![RawToken::Other];
    let r = use_default_config_for(&attr, block(None, &[]));
    assert_eq!(failure(r), ExpandError::NotConfig);
}

#[test]
fn literal_in_payload_is_rejected() {
    let attr = vec![RawToken::Other];
    let r = use_default_config_for(&attr, block(Some(name(&["Config"])), &[]));
    assert_eq!(failure(r), ExpandError::Payload(ParseError { at: 0, expected: Expected::Ident }));
}

#[test]
fn double_comma_is_rejected() {
    let attr = vec![word("OptA"), comma(), comma()];
    let r = use_default_config_for(&attr, block(Some(name(&["Config"])), &[]));
    assert_eq!(failure(r), ExpandError::Payload(ParseError { at: 2, expected: Expected::Ident }));
}

#[test]
fn missing_comma_is_rejected() {
    let attr = vec![word("OptA"), word("OptB")];
    let r = use_default_config_for(&attr, block(Some(name(&["Config"])), &[]));
    assert_eq!(failure(r), ExpandError::Payload(ParseError { at: 1, expected: Expected::Comma }));
}

#[test]
fn members_then_delegations_in_order() {
    let attr = vec![word("OptB"), comma(), word("OptA"), comma(), word("OptB"), comma()];
    let items = ["type X = u32;", "type Y = u64;"];
    let e = expanded(use_default_config_for(&attr, block(Some(name(&["frame", "Config"])), &items)));
    assert_eq!(e.items, vec!["type X = u32;".to_string(), "type Y = u64;".to_string()]);
    assert_eq!(
        delegation_texts(&e),
        vec![
            "frame::__substrate_config_defaults::use_default_config_for!(OptB);".to_string(),
            "frame::__substrate_config_defaults::use_default_config_for!(OptA);".to_string(),
            "frame::__substrate_config_defaults::use_default_config_for!(OptB);".to_string(),
        ]
    );
}

#[test]
fn generic_config_is_accepted() {
    let trait_ref = QualifiedName {
        leading_colon: true,
        segments: vec![seg("other_crate", ""), seg("Config", "<T>")],
    };
    let attr = vec![word("OptA")];
    let e = expanded(use_default_config_for(&attr, block(Some(trait_ref), &[])));
    assert_eq!(e.config_trait.to_text(), "::other_crate::Config<T>");
    assert_eq!(
        delegation_texts(&e),
        vec!["::other_crate::__substrate_config_defaults::use_default_config_for!(OptA);".to_string()]
    );
}

#[test]
fn expansion_is_repeatable() {
    let attr = vec![word("OptA"), comma(), word("OptB")];
    let first = expanded(use_default_config_for(&attr, block(Some(name(&["a", "Config"])), &["type X = u32;"])));
    let second = expanded(use_default_config_for(&attr, block(Some(name(&["a", "Config"])), &["type X = u32;"])));
    assert_eq!(first.config_trait.to_text(), second.config_trait.to_text());
    assert_eq!(first.items, second.items);
    assert_eq!(delegation_texts(&first), delegation_texts(&second));
}

#[test]
fn delegate_path_keeps_namespace() {
    let p = construct_path_to_macro(&name(&["a", "b", "Config"]));
    assert_eq!(p.to_text(), "a::b::__substrate_config_defaults");
    assert_eq!(p.segments.len(), 3);
    assert!(p.segments[2].arguments.is_empty());
}

#[test]
fn delegate_path_without_namespace() {
    let p = construct_path_to_macro(&name(&["Config"]));
    assert_eq!(p.to_text(), "__substrate_config_defaults");
    assert_eq!(p.segments.len(), 1);
}

#[test]
fn delegate_path_drops_generic_arguments_of_last_segment() {
    let trait_ref = QualifiedName {
        leading_colon: false,
        segments: vec![seg("a", "<U>"), seg("Config", "<T>")],
    };
    let p = construct_path_to_macro(&trait_ref);
    assert_eq!(p.to_text(), "a<U>::__substrate_config_defaults");
}

#[test]
fn extract_accepts_only_config() {
    assert!(extract_config_trait(Some(name(&["x", "Config"]))).is_ok());
    assert!(extract_config_trait(Some(name(&["config"]))).is_err());
    assert!(extract_config_trait(Some(name(&[]))).is_err());
    assert!(extract_config_trait(None).is_err());
}

#[test]
fn payload_with_trailing_comma() {
    let names = parse_options(&vec![ident("OptA"), AttrToken::Comma, ident("OptB"), AttrToken::Comma]).unwrap();
    assert_eq!(names, vec!["OptA".to_string(), "OptB".to_string()]);
}

#[test]
fn payload_empty() {
    assert_eq!(parse_options(&vec![]).unwrap(), Vec::<String>::new());
}

#[test]
fn payload_leading_comma() {
    assert_eq!(
        parse_options(&vec![AttrToken::Comma, ident("OptA")]),
        Err(ParseError { at: 0, expected: Expected::Ident })
    );
}

#[test]
fn keyword_in_payload_is_rejected() {
    let attr = vec![word("OptA"), comma(), word("type")];
    let r = use_default_config_for(&attr, block(Some(name(&["Config"])), &[]));
    assert_eq!(failure(r), ExpandError::Payload(ParseError { at: 2, expected: Expected::Ident }));
}

#[test]
fn other_punctuation_is_not_a_separator() {
    let attr = vec![word("OptA"), RawToken::Punct(';'), word("OptB")];
    let r = use_default_config_for(&attr, block(Some(name(&["Config"])), &[]));
    assert_eq!(failure(r), ExpandError::Payload(ParseError { at: 1, expected: Expected::Comma }));
}

#[test]
fn classify_tells_identifiers_from_keywords() {
    let toks = classify(&vec![word("OptA"), word("fn"), word("_"), word("r#type"), comma(), RawToken::Punct('.'), RawToken::Other]);
    assert_eq!(toks.len(), 7);
    assert!(matches!(&toks[0], AttrToken::Ident(s) if s == "OptA"));
    assert!(matches!(toks[1], AttrToken::Other));
    assert!(matches!(toks[2], AttrToken::Other));
    assert!(matches!(&toks[3], AttrToken::Ident(s) if s == "r#type"));
    assert!(matches!(toks[4], AttrToken::Comma));
    assert!(matches!(toks[5], AttrToken::Other));
    assert!(matches!(toks[6], AttrToken::Other));
}

#[test]
fn bracketed_word_is_not_an_identifier() {
    let toks = classify(&vec![word("(a)"), word("a[0]"), word("OptA")]);
    assert!(matches!(toks[0], AttrToken::Other));
    assert!(matches!(toks[1], AttrToken::Other));
    assert!(matches!(&toks[2], AttrToken::Ident(s) if s == "OptA"));
}

#[test]
fn deeply_nested_word_is_classified_without_lexing() {
    let deep = format!("{}{}", "(".repeat(100_000), ")".repeat(100_000));
    let toks = classify(&vec![RawToken::Word(deep)]);
    assert!(matches!(toks[0], AttrToken::Other));
}

#[test]
fn contains_bracket_finds_each_kind() {
    for w in ["(", ")", "[", "]", "{", "}", "a{b", "ab)"] {
        assert!(contains_bracket(w), "{}", w);
    }
    assert!(!contains_bracket(""));
    assert!(!contains_bracket("OptA"));
    assert!(!contains_bracket("<T>"));
}

#[test]
fn classified_payload_expands() {
    let attr = vec![ident("OptA"), AttrToken::Comma, ident("OptB")];
    let e = expanded(expand_with_options(&attr, block(Some(name(&["x", "Config"])), &["type X = u32;"])));
    assert_eq!(e.items, vec!["type X = u32;".to_string()]);
    assert_eq!(
        delegation_texts(&e),
        vec![
            "x::__substrate_config_defaults::use_default_config_for!(OptA);".to_string(),
            "x::__substrate_config_defaults::use_default_config_for!(OptB);".to_string(),
        ]
    );
}

#[test]
fn classified_payload_error_is_reported() {
    let attr = vec![ident("OptA"), AttrToken::Other];
    let r = expand_with_options(&attr, block(Some(name(&["Config"])), &[]));
    assert_eq!(failure(r), ExpandError::Payload(ParseError { at: 1, expected: Expected::Comma }));
}

#[test]
fn non_ascii_identifier_is_accepted() {
    let toks = classify(&vec![word("été"), word("_x1")]);
    assert!(matches!(&toks[0], AttrToken::Ident(s) if s == "été"));
    assert!(matches!(&toks[1], AttrToken::Ident(s) if s == "_x1"));
}
