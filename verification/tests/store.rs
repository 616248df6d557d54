use semantic_gateway::api::{plan_query, validate, QueryRequest};
use semantic_gateway::auth::Claims;
use semantic_gateway::query::build_query;
use semantic_gateway::schema::{Block, DataType, Dimension, Measure};
use semantic_gateway::store::{ConfigParseError, SchemaSnapshot, SchemaStore};

fn block(name: &str, day_sql: &str) -> Block {
    Block {
        name: name.to_string(),
        dimensions: vec![Dimension {
            name: "day".to_string(),
            sql: day_sql.to_string(),
            data_type: DataType::Date,
        }],
        measures: vec![Measure { name: "total".to_string(), sql: "sum(amount)".to_string() }],
        auth_filter_field: None,
    }
}

fn by_day(block: &str) -> QueryRequest {
    QueryRequest {
        name: block.to_string(),
        dimensions: Some(vec!["day".to_string()]),
        measures: Some(vec!["total".to_string()]),
        include_meta: None,
    }
}

fn no_claims() -> Claims {
    Claims(serde_json::Map::new())
}

#[test]
fn new_snapshot_is_empty() {
    let snapshot = SchemaSnapshot::new();
    assert_eq!(snapshot.get("orders"), None);
    assert!(snapshot.block_names().is_empty());
    assert!(snapshot.blocks().is_empty());
}

#[test]
fn blocks_are_found_by_name() {
    let snapshot =
        SchemaSnapshot::from_blocks(vec![block("orders", "created_at"), block("visits", "seen_at")]);
    assert_eq!(snapshot.get("orders"), Some(&block("orders", "created_at")));
    assert_eq!(snapshot.get("visits"), Some(&block("visits", "seen_at")));
    assert_eq!(snapshot.get("customers"), None);
    assert_eq!(snapshot.get("order"), None);
    assert_eq!(snapshot.get(""), None);
}

#[test]
fn a_later_block_replaces_an_earlier_one_of_its_name() {
    let snapshot = SchemaSnapshot::from_blocks(vec![
        block("orders", "created_at"),
        block("visits", "seen_at"),
        block("orders", "shipped_at"),
    ]);
    assert_eq!(snapshot.get("orders"), Some(&block("orders", "shipped_at")));
    assert_eq!(snapshot.get("visits"), Some(&block("visits", "seen_at")));
    assert_eq!(snapshot.blocks().len(), 2);
}

#[test]
fn block_names_are_listed_once_each() {
    let snapshot = SchemaSnapshot::from_blocks(vec![
        block("orders", "created_at"),
        block("visits", "seen_at"),
        block("orders", "shipped_at"),
    ]);
    let mut names = snapshot.block_names();
    names.sort();
    assert_eq!(names, vec!["orders".to_string(), "visits".to_string()]);
}

#[test]
fn insert_adds_and_replaces() {
    let mut snapshot = SchemaSnapshot::new();
    snapshot.insert(block("orders", "created_at"));
    assert_eq!(snapshot.get("orders"), Some(&block("orders", "created_at")));
    snapshot.insert(block("visits", "seen_at"));
    snapshot.insert(block("orders", "shipped_at"));
    assert_eq!(snapshot.get("orders"), Some(&block("orders", "shipped_at")));
    assert_eq!(snapshot.get("visits"), Some(&block("visits", "seen_at")));
    assert_eq!(snapshot.block_names().len(), 2);
}

#[test]
fn unique_names_are_recognised() {
    let mut orders = block("orders", "created_at");
    assert!(orders.has_unique_names());
    orders.measures.push(Measure { name: "day".to_string(), sql: "count()".to_string() });
    assert!(orders.has_unique_names());
    orders.dimensions.push(Dimension {
        name: "day".to_string(),
        sql: "shipped_at".to_string(),
        data_type: DataType::Date,
    });
    assert!(!orders.has_unique_names());
    let mut visits = block("visits", "seen_at");
    visits.measures.push(Measure { name: "total".to_string(), sql: "count()".to_string() });
    assert!(!visits.has_unique_names());
}

#[test]
fn declared_names_are_listed_in_order() {
    let mut orders = block("orders", "created_at");
    orders.dimensions.push(Dimension {
        name: "region".to_string(),
        sql: "region_code".to_string(),
        data_type: DataType::String,
    });
    assert_eq!(orders.dimension_names(), vec!["day".to_string(), "region".to_string()]);
    assert_eq!(orders.measure_names(), vec!["total".to_string()]);
    assert_eq!(orders.find_dimension("region").map(|d| d.sql.as_str()), Some("region_code"));
    assert_eq!(orders.find_dimension("total"), None);
    assert_eq!(orders.find_measure("total").map(|m| m.sql.as_str()), Some("sum(amount)"));
    assert_eq!(orders.find_measure("day"), None);
}

#[test]
fn store_hands_out_its_current_snapshot() {
    let store = SchemaStore::new(SchemaSnapshot::from_blocks(vec![block("orders", "created_at")]));
    let snapshot = store.get_snapshot();
    assert_eq!(snapshot.get("orders"), Some(&block("orders", "created_at")));
}

#[test]
fn replace_is_seen_by_later_readers() {
    let mut store =
        SchemaStore::new(SchemaSnapshot::from_blocks(vec![block("orders", "created_at")]));
    store.replace(SchemaSnapshot::from_blocks(vec![block("visits", "seen_at")]));
    let snapshot = store.get_snapshot();
    assert_eq!(snapshot.get("orders"), None);
    assert_eq!(snapshot.get("visits"), Some(&block("visits", "seen_at")));
}

#[test]
fn a_captured_snapshot_outlives_a_replacement() {
    let mut store =
        SchemaStore::new(SchemaSnapshot::from_blocks(vec![block("orders", "created_at")]));
    let captured = store.get_snapshot();
    store.replace(SchemaSnapshot::from_blocks(vec![block("orders", "shipped_at")]));
    assert_eq!(captured.get("orders"), Some(&block("orders", "created_at")));
    assert_eq!(
        plan_query(&captured, &by_day("orders"), &no_claims()),
        Ok("SELECT toDate(created_at) AS day, sum(amount) AS total FROM orders GROUP BY created_at FORMAT JSON".to_string())
    );
    assert_eq!(
        plan_query(&store.get_snapshot(), &by_day("orders"), &no_claims()),
        Ok("SELECT toDate(shipped_at) AS day, sum(amount) AS total FROM orders GROUP BY shipped_at FORMAT JSON".to_string())
    );
}

#[test]
fn a_validated_selection_outlives_a_replacement() {
    let mut store =
        SchemaStore::new(SchemaSnapshot::from_blocks(vec![block("orders", "created_at")]));
    let selection = validate(&store.get_snapshot(), &by_day("orders"), &no_claims()).unwrap();
    store.replace(SchemaSnapshot::new());
    assert_eq!(
        build_query(&selection),
        "SELECT toDate(created_at) AS day, sum(amount) AS total FROM orders GROUP BY created_at"
    );
    assert!(validate(&store.get_snapshot(), &by_day("orders"), &no_claims()).is_err());
}

#[test]
fn a_reload_that_parsed_is_installed() {
    let mut store =
        SchemaStore::new(SchemaSnapshot::from_blocks(vec![block("orders", "created_at")]));
    let outcome = store.reload(Ok(SchemaSnapshot::from_blocks(vec![block("visits", "seen_at")])));
    assert_eq!(outcome, Ok(()));
    assert_eq!(store.get_snapshot().get("orders"), None);
    assert_eq!(store.get_snapshot().get("visits"), Some(&block("visits", "seen_at")));
}

#[test]
fn a_reload_that_failed_keeps_the_last_good_snapshot() {
    let mut store =
        SchemaStore::new(SchemaSnapshot::from_blocks(vec![block("orders", "created_at")]));
    let error = ConfigParseError { message: "expected a table".to_string() };
    let outcome = store.reload(Err(error));
    assert_eq!(outcome, Err(ConfigParseError { message: "expected a table".to_string() }));
    assert_eq!(store.get_snapshot().get("orders"), Some(&block("orders", "created_at")));
}

#[test]
fn a_copied_block_equals_its_source() {
    let mut orders = block("orders", "created_at");
    orders.auth_filter_field = Some("tenant_id".to_string());
    orders.dimensions.push(Dimension {
        name: "region".to_string(),
        sql: "region_code".to_string(),
        data_type: DataType::String,
    });
    assert_eq!(orders.clone(), orders);
    let empty = Block {
        name: "empty".to_string(),
        dimensions: vec![],
        measures: vec![],
        auth_filter_field: None,
    };
    assert_eq!(empty.clone(), empty);
}
