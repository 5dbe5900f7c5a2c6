use transformer::errors::TranslationError;
use transformer::translate;

fn ok(query: &str) -> Vec<String> {
    match translate(query) {
        Ok(v) => v,
        Err(e) => panic!("translation failed: {:?}", describe(&e)),
    }
}

fn describe(e: &TranslationError) -> String {
    match e {
        TranslationError::LexError { offset, character } => {
            format!("lex error at byte {}: {:?}", offset, character)
        }
        TranslationError::ParseError { position, expected, found } => {
            format!("parse error at token {}: expected {}, found {}", position, expected, found)
        }
        TranslationError::DuplicatePropertyKeyError { key } => {
            format!("duplicate property key {}", key)
        }
        TranslationError::UnboundVariableError { variable, clause } => {
            format!("unbound variable {} in {:?}", variable, clause)
        }
        TranslationError::UnsupportedPatternError { reason } => {
            format!("unsupported pattern: {}", reason)
        }
    }
}

#[test]
fn create_node_with_label() {
    let out = ok("CREATE (b:Bug)");
    assert_eq!(out, vec!["INSERT INTO nodes (label, properties) VALUES ('Bug', '{}');"]);
}

#[test]
fn create_node_bare() {
    let out = ok("CREATE (n)");
    assert_eq!(out, vec!["INSERT INTO nodes (label, properties) VALUES ('', '{}');"]);
}

#[test]
fn match_label_and_property_return() {
    let out = ok("MATCH (b:Bug {name: 'Ant'}) RETURN b");
    assert_eq!(
        out,
        vec![
            "SELECT b.* FROM nodes b WHERE b.label = 'Bug' AND JSON_EXTRACT(b.properties,'$.name') = 'Ant';"
        ]
    );
}

#[test]
fn match_relationship_with_type_return() {
    let out = ok("MATCH (a)-[r:EATS]->(b) RETURN a, r, b");
    assert_eq!(
        out,
        vec![
            "SELECT a.*, r.*, b.* FROM nodes a JOIN edges r ON a.id = r.src_id JOIN nodes b ON r.dst_id = b.id WHERE r.type = 'EATS';"
        ]
    );
}

#[test]
fn match_relationship_without_type_omits_where() {
    let out = ok("MATCH (a)-[r]->(b) RETURN a, r, b");
    assert_eq!(
        out,
        vec![
            "SELECT a.*, r.*, b.* FROM nodes a JOIN edges r ON a.id = r.src_id JOIN nodes b ON r.dst_id = b.id;"
        ]
    );
}

#[test]
fn detach_delete_emits_edge_delete_first() {
    let out = ok("MATCH (b:Bug) DETACH DELETE b");
    assert_eq!(
        out,
        vec![
            "DELETE FROM edges WHERE src_id IN (SELECT id FROM nodes WHERE label = 'Bug') OR dst_id IN (SELECT id FROM nodes WHERE label = 'Bug');",
            "DELETE FROM nodes WHERE label = 'Bug';",
        ]
    );
    let edge_pos = out.iter().position(|s| s.starts_with("DELETE FROM edges")).expect("edge delete");
    let node_pos = out.iter().position(|s| s.starts_with("DELETE FROM nodes")).expect("node delete");
    assert!(edge_pos < node_pos);
}

#[test]
fn plain_delete_node() {
    let out = ok("MATCH (b:Bug) DELETE b");
    assert_eq!(out, vec!["DELETE FROM nodes WHERE label = 'Bug';"]);
}

#[test]
fn delete_unfiltered_node() {
    let out = ok("MATCH (n) DELETE n");
    assert_eq!(out, vec!["DELETE FROM nodes;"]);
}

#[test]
fn delete_edge_variable() {
    let out = ok("MATCH (a)-[r:EATS]->(b) DELETE r");
    assert_eq!(out, vec!["DELETE FROM edges WHERE type = 'EATS';"]);
}

#[test]
fn create_relationship_between_matched_nodes() {
    let out = ok("MATCH (a:Bug),(b:Leaf) CREATE (a)-[:EATS]->(b)");
    assert_eq!(
        out,
        vec![
            "INSERT INTO edges (src_id, dst_id, type) SELECT a.id, b.id, 'EATS' FROM nodes a, nodes b WHERE a.label = 'Bug' AND b.label = 'Leaf';"
        ]
    );
}

#[test]
fn match_alone_emits_nothing() {
    let out = ok("MATCH (n:Bug)");
    assert!(out.is_empty());
}

#[test]
fn numeric_property_unquoted_in_json_and_predicate() {
    let out = ok("CREATE (n:B {x: 42})");
    assert_eq!(out, vec!["INSERT INTO nodes (label, properties) VALUES ('B', '{\"x\":42}');"]);
    let out = ok("MATCH (n:B {x: 42}) RETURN n");
    assert_eq!(
        out,
        vec!["SELECT n.* FROM nodes n WHERE n.label = 'B' AND JSON_EXTRACT(n.properties,'$.x') = 42;"]
    );
}

#[test]
fn property_order_is_preserved() {
    let out = ok("CREATE (n:B {beta: '2', alpha: '1'})");
    assert_eq!(
        out,
        vec!["INSERT INTO nodes (label, properties) VALUES ('B', '{\"beta\":\"2\",\"alpha\":\"1\"}');"]
    );
}

#[test]
fn keywords_match_case_insensitively() {
    let out = ok("match (b:Bug) return b");
    assert_eq!(out, vec!["SELECT b.* FROM nodes b WHERE b.label = 'Bug';"]);
}

#[test]
fn translation_is_deterministic() {
    let q = "MATCH (b:Bug {name: 'Ant'}) RETURN b";
    assert_eq!(ok(q), ok(q));
    let bad = "MATCH (a)-[]->(b)-[]->(c) RETURN a";
    let r1 = translate(bad).err().map(|e| describe(&e));
    let r2 = translate(bad).err().map(|e| describe(&e));
    assert_eq!(r1, r2);
}

#[test]
fn test_create_simple() {
    let out = ok("CREATE (n:Bug)").join("\n");
    assert!(out.contains("INSERT INTO nodes"));
    assert!(out.contains("Bug"));
}

#[test]
fn test_create_with_properties() {
    let out = ok("CREATE (n:Bug {name: 'Ant'})").join("\n");
    assert!(out.contains("INSERT INTO nodes"));
    assert!(out.contains("\"name\""));
    assert!(out.contains("Ant"));
}
