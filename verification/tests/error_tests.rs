use transformer::errors::{ClauseKind, TranslationError};
use transformer::lexer::{tokenize, TokKind};
use transformer::translate;

#[test]
fn multi_hop_chain_is_rejected() {
    match translate("MATCH (a)-[]->(b)-[]->(c) RETURN a") {
        Err(TranslationError::UnsupportedPatternError { reason }) => {
            assert_eq!(reason, "multi-hop pattern chains are not supported");
        }
        _ => panic!("expected an unsupported-pattern error"),
    }
}

#[test]
fn reverse_arrow_is_rejected() {
    match translate("MATCH (a)<-[r:EATS]-(b) RETURN a") {
        Err(TranslationError::LexError { offset, character }) => {
            assert_eq!(character, '<');
            assert_eq!(offset, 9);
        }
        _ => panic!("expected a lex error on the reverse arrow"),
    }
}

#[test]
fn undirected_relationship_is_rejected() {
    match translate("MATCH (a)-[r:EATS]-(b) RETURN a") {
        Err(TranslationError::UnsupportedPatternError { reason }) => {
            assert_eq!(reason, "only left-to-right '->' relationships are supported");
        }
        _ => panic!("expected an unsupported-pattern error"),
    }
}

#[test]
fn duplicate_property_key_is_rejected() {
    match translate("CREATE (n:B {k: '1', k: '2'})") {
        Err(TranslationError::DuplicatePropertyKeyError { key }) => {
            assert_eq!(key, "k");
        }
        _ => panic!("expected a duplicate-property-key error"),
    }
}

#[test]
fn unrecognized_character_fails_lexing() {
    match translate("MATCH (n;) RETURN n") {
        Err(TranslationError::LexError { offset, character }) => {
            assert_eq!(character, ';');
            assert_eq!(offset, 8);
        }
        _ => panic!("expected a lex error"),
    }
}

#[test]
fn unterminated_string_literal_fails_lexing() {
    match translate("CREATE (n:B {k: 'open})") {
        Err(TranslationError::LexError { character, .. }) => {
            assert_eq!(character, '\'');
        }
        _ => panic!("expected a lex error on the unterminated string"),
    }
}

#[test]
fn parse_error_names_expected_and_found() {
    match translate("MATCH (n RETURN n") {
        Err(TranslationError::ParseError { position, expected, found }) => {
            assert_eq!(position, 3);
            assert_eq!(expected, "')'");
            assert_eq!(found, "RETURN");
        }
        _ => panic!("expected a parse error"),
    }
}

#[test]
fn unterminated_property_map_is_unsupported() {
    match translate("CREATE (n:B {k: '1'") {
        Err(TranslationError::UnsupportedPatternError { reason }) => {
            assert_eq!(reason, "unterminated property map");
        }
        _ => panic!("expected an unsupported-pattern error"),
    }
}

#[test]
fn multiple_labels_are_rejected() {
    match translate("MATCH (n:A:B) RETURN n") {
        Err(TranslationError::UnsupportedPatternError { reason }) => {
            assert_eq!(reason, "multiple labels on one pattern element");
        }
        _ => panic!("expected an unsupported-pattern error"),
    }
}

#[test]
fn unbound_variable_in_return() {
    match translate("MATCH (a) RETURN b") {
        Err(TranslationError::UnboundVariableError { variable, clause }) => {
            assert_eq!(variable, "b");
            assert!(matches!(clause, ClauseKind::Return));
        }
        _ => panic!("expected an unbound-variable error"),
    }
}

#[test]
fn unbound_variable_in_delete() {
    match translate("MATCH (a) DELETE c") {
        Err(TranslationError::UnboundVariableError { variable, clause }) => {
            assert_eq!(variable, "c");
            assert!(matches!(clause, ClauseKind::Delete));
        }
        _ => panic!("expected an unbound-variable error"),
    }
}

#[test]
fn unbound_endpoint_in_create_relationship() {
    match translate("MATCH (a) CREATE (a)-[:T]->(zz)") {
        Err(TranslationError::UnboundVariableError { variable, clause }) => {
            assert_eq!(variable, "zz");
            assert!(matches!(clause, ClauseKind::Create));
        }
        _ => panic!("expected an unbound-variable error"),
    }
}

#[test]
fn rebinding_in_later_match_is_rejected() {
    match translate("MATCH (a) MATCH (a:B) RETURN a") {
        Err(TranslationError::UnsupportedPatternError { reason }) => {
            assert_eq!(reason, "variable rebound by a later MATCH");
        }
        _ => panic!("expected an unsupported-pattern error"),
    }
}

#[test]
fn return_across_two_patterns_is_rejected() {
    match translate("MATCH (a) MATCH (b) RETURN a, b") {
        Err(TranslationError::UnsupportedPatternError { reason }) => {
            assert_eq!(reason, "RETURN variables must come from one MATCH pattern");
        }
        _ => panic!("expected an unsupported-pattern error"),
    }
}

#[test]
fn empty_input_is_a_parse_error() {
    match translate("") {
        Err(TranslationError::ParseError { position, .. }) => {
            assert_eq!(position, 0);
        }
        _ => panic!("expected a parse error"),
    }
}

#[test]
fn tokenize_classifies_and_keeps_spans() {
    let toks = tokenize("MATCH (n:Bug {w: 1.5})->").expect("lexes");
    let kinds: Vec<TokKind> = toks.iter().map(|t| t.kind).collect();
    assert_eq!(
        kinds,
        vec![
            TokKind::Ident,
            TokKind::LParen,
            TokKind::Ident,
            TokKind::Colon,
            TokKind::Ident,
            TokKind::LBrace,
            TokKind::Ident,
            TokKind::Colon,
            TokKind::NumLit,
            TokKind::RBrace,
            TokKind::RParen,
            TokKind::Arrow,
        ]
    );
    let texts: Vec<&str> = toks.iter().map(|t| t.text.as_str()).collect();
    assert_eq!(
        texts,
        vec!["MATCH", "(", "n", ":", "Bug", "{", "w", ":", "1.5", "}", ")", "->"]
    );
}

#[test]
fn string_values_are_escaped_in_json() {
    let out = translate("CREATE (n:B {k: '1'})").expect("translates");
    assert_eq!(
        out,
        vec!["INSERT INTO nodes (label, properties) VALUES ('B', '{\"k\":\"1\"}');"]
    );
}
