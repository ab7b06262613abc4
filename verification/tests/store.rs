use std::collections::BTreeMap;

use vss_store::calls::{
    Attribute, DeleteItem, Fault, GetItem, Item, Named, Page, Precondition, Query, WriteItem,
};
use vss_store::store::{build_vss_item, is_conflict, DynamoDbBackend, UNCONDITIONAL};
use vss_store::types::{
    DeleteObjectRequest, GetObjectRequest, GetObjectResponse, KeyValue, ListKeyVersionsRequest,
    PutObjectRequest, PutObjectResponse, StoreError,
};

/// A table in memory that answers as the real one does while it is up.
struct Table {
    rows: BTreeMap<(String, String), (Vec<u8>, i64)>,
    page_size: usize,
}

fn holds(condition: &Precondition, current: Option<i64>) -> bool {
    match condition {
        Precondition::Always => true,
        Precondition::VersionEquals(n) => current == Some(*n),
        Precondition::AbsentOrVersionEquals(n) => current.is_none() || current == Some(*n),
    }
}

impl Table {
    fn new(page_size: usize) -> Table {
        Table { rows: BTreeMap::new(), page_size }
    }

    fn version_at(&self, store_id: &str, key: &str) -> Option<i64> {
        self.rows.get(&(store_id.to_string(), key.to_string())).map(|row| row.1)
    }

    fn get_item(&self, call: &GetItem) -> Result<Option<Item>, Fault> {
        assert!(call.consistent_read);
        Ok(self
            .rows
            .get(&(call.store_id.clone(), call.key.clone()))
            .map(|row| Item::new(&call.store_id, &call.key, &row.0, row.1)))
    }

    fn transact(&mut self, writes: &[WriteItem]) -> Result<(), Fault> {
        let mut keys: Vec<(String, String)> = Vec::new();
        let mut codes: Vec<String> = Vec::new();
        for write in writes {
            let (store_id, key, condition) = match write {
                WriteItem::Put { item, condition } => (
                    item.store_id().unwrap_or_default(),
                    item.key().unwrap_or_default(),
                    condition,
                ),
                WriteItem::Delete { store_id, key, condition } => {
                    (store_id.clone(), key.clone(), condition)
                }
            };
            if store_id.is_empty() || key.is_empty() || keys.contains(&(store_id.clone(), key.clone())) {
                return Err(Fault::Other);
            }
            let code = if holds(condition, self.version_at(&store_id, &key)) {
                "None"
            } else {
                "ConditionalCheckFailed"
            };
            codes.push(code.to_string());
            keys.push((store_id, key));
        }
        if writes.is_empty() {
            return Err(Fault::Other);
        }
        if codes.iter().any(|code| code != "None") {
            return Err(Fault::Canceled(codes));
        }
        for write in writes {
            match write {
                WriteItem::Put { item, .. } => {
                    self.rows.insert(
                        (item.store_id().unwrap(), item.key().unwrap()),
                        (item.value().unwrap_or_default(), item.version().unwrap_or(0)),
                    );
                }
                WriteItem::Delete { store_id, key, .. } => {
                    self.rows.remove(&(store_id.clone(), key.clone()));
                }
            }
        }
        Ok(())
    }

    fn delete_item(&mut self, call: &DeleteItem) -> Result<(), Fault> {
        if call.store_id.is_empty() || call.key.is_empty() {
            return Err(Fault::Other);
        }
        if !holds(&call.condition, self.version_at(&call.store_id, &call.key)) {
            return Err(Fault::ConditionFailed);
        }
        self.rows.remove(&(call.store_id.clone(), call.key.clone()));
        Ok(())
    }

    fn query(&self, query: &Query) -> Result<Page, Fault> {
        let mut wanted: Vec<Item> = Vec::new();
        for ((store_id, key), (value, version)) in &self.rows {
            let under = match &query.key_prefix {
                Some(prefix) => key.starts_with(prefix.as_str()),
                None => true,
            };
            let after = match &query.exclusive_start_key {
                Some(start) => key > start,
                None => true,
            };
            if *store_id == query.store_id && under && after {
                wanted.push(Item::new(store_id, key, value, *version));
            }
        }
        if wanted.len() > self.page_size {
            wanted.truncate(self.page_size);
            let last = wanted[wanted.len() - 1].key().unwrap();
            Ok(Page {
                items: wanted,
                last_evaluated_key: Some(Item::naming(&query.store_id, &last)),
            })
        } else {
            Ok(Page { items: wanted, last_evaluated_key: None })
        }
    }
}

fn named(name: &str, value: Attribute) -> Named {
    Named { name: name.to_string(), value }
}

fn text(text: &str) -> Attribute {
    Attribute::S(text.to_string())
}

fn number(digits: &str) -> Attribute {
    Attribute::N(digits.to_string())
}

fn backend() -> DynamoDbBackend<()> {
    DynamoDbBackend::new(())
}

fn kv(key: &str, value: &[u8], version: i64) -> KeyValue {
    KeyValue { key: key.to_string(), version, value: value.to_vec() }
}

fn put(
    table: &mut Table,
    store_id: &str,
    upserts: Vec<KeyValue>,
    deletes: Vec<KeyValue>,
) -> Result<PutObjectResponse, StoreError> {
    let store = backend();
    let request = PutObjectRequest {
        store_id: store_id.to_string(),
        transaction_items: upserts,
        delete_items: deletes,
    };
    let writes = store.put(&request);
    let reply = table.transact(&writes);
    store.put_response(reply)
}

fn get(table: &Table, store_id: &str, key: &str) -> Result<GetObjectResponse, StoreError> {
    let store = backend();
    let request = GetObjectRequest { store_id: store_id.to_string(), key: key.to_string() };
    let call = store.get(&request);
    let reply = table.get_item(&call);
    store.get_response(request, reply)
}

fn delete(table: &mut Table, store_id: &str, key: &str, version: i64) -> Result<(), StoreError> {
    let store = backend();
    let request = DeleteObjectRequest {
        store_id: store_id.to_string(),
        key_value: Some(kv(key, &[], version)),
    };
    let call = store.delete(&request)?;
    let reply = table.delete_item(&call);
    store.delete_response(reply).map(|_| ())
}

fn list_all(table: &Table, store_id: &str, prefix: Option<&str>) -> (Vec<(String, i64)>, usize) {
    let store = backend();
    let mut seen: Vec<(String, i64)> = Vec::new();
    let mut token: Option<String> = None;
    let mut pages = 0;
    loop {
        let request = ListKeyVersionsRequest {
            store_id: store_id.to_string(),
            key_prefix: prefix.map(|p| p.to_string()),
            page_token: token.clone(),
        };
        let query = store.list_key_versions(&request).unwrap();
        let response = store.list_key_versions_response(table.query(&query)).unwrap();
        pages += 1;
        for shown in &response.key_versions {
            assert!(shown.value.is_empty());
            seen.push((shown.key.clone(), shown.version));
        }
        match response.next_page_token {
            Some(next) => token = Some(next),
            None => return (seen, pages),
        }
    }
}

fn stored(key: &str, value: &[u8], version: i64) -> Result<GetObjectResponse, StoreError> {
    Ok(GetObjectResponse { value: Some(kv(key, value, version)) })
}

#[test]
fn create_then_get_returns_value_and_version_zero() {
    let mut table = Table::new(10);
    assert_eq!(put(&mut table, "S", vec![kv("k", &[9, 8], 0)], vec![]), Ok(PutObjectResponse {}));
    assert_eq!(get(&table, "S", "k"), stored("k", &[9, 8], 0));
}

#[test]
fn get_of_absent_key_is_not_found() {
    let table = Table::new(10);
    assert_eq!(get(&table, "S", "k"), Err(StoreError::NotFound));
}

#[test]
fn keys_are_scoped_to_their_store() {
    let mut table = Table::new(10);
    put(&mut table, "S1", vec![kv("k", &[1], 0)], vec![]).unwrap();
    assert_eq!(get(&table, "S2", "k"), Err(StoreError::NotFound));
}

#[test]
fn update_with_stored_version_succeeds() {
    let mut table = Table::new(10);
    put(&mut table, "S", vec![kv("k", &[1], 3)], vec![]).unwrap();
    assert_eq!(put(&mut table, "S", vec![kv("k", &[2], 3)], vec![]), Ok(PutObjectResponse {}));
    assert_eq!(get(&table, "S", "k"), stored("k", &[2], 3));
}

#[test]
fn update_with_version_zero_over_version_zero_succeeds() {
    let mut table = Table::new(10);
    put(&mut table, "S", vec![kv("k", &[1], 0)], vec![]).unwrap();
    assert_eq!(put(&mut table, "S", vec![kv("k", &[2], 0)], vec![]), Ok(PutObjectResponse {}));
    assert_eq!(get(&table, "S", "k"), stored("k", &[2], 0));
}

#[test]
fn update_with_other_version_conflicts_and_changes_nothing() {
    let mut table = Table::new(10);
    put(&mut table, "S", vec![kv("k", &[1], 3)], vec![]).unwrap();
    assert_eq!(
        put(&mut table, "S", vec![kv("k", &[2], 4)], vec![]),
        Err(StoreError::VersionConflict)
    );
    assert_eq!(get(&table, "S", "k"), stored("k", &[1], 3));
}

#[test]
fn batch_with_one_conflict_commits_nothing() {
    let mut table = Table::new(10);
    put(&mut table, "S", vec![kv("old", &[1], 5)], vec![]).unwrap();
    let result = put(&mut table, "S", vec![kv("new", &[7], 0), kv("old", &[2], 6)], vec![]);
    assert_eq!(result, Err(StoreError::VersionConflict));
    assert_eq!(get(&table, "S", "new"), Err(StoreError::NotFound));
    assert_eq!(get(&table, "S", "old"), stored("old", &[1], 5));
}

#[test]
fn batch_with_conflicting_delete_commits_nothing() {
    let mut table = Table::new(10);
    put(&mut table, "S", vec![kv("a", &[1], 1)], vec![]).unwrap();
    let result = put(&mut table, "S", vec![kv("b", &[2], 0)], vec![kv("a", &[], 2)]);
    assert_eq!(result, Err(StoreError::VersionConflict));
    assert_eq!(get(&table, "S", "a"), stored("a", &[1], 1));
    assert_eq!(get(&table, "S", "b"), Err(StoreError::NotFound));
}

#[test]
fn batch_of_upserts_and_delete_commits_together() {
    let mut table = Table::new(10);
    put(&mut table, "S", vec![kv("a", &[1], 1), kv("gone", &[0], 2)], vec![]).unwrap();
    let result =
        put(&mut table, "S", vec![kv("a", &[3], 1), kv("b", &[4], 0)], vec![kv("gone", &[], 2)]);
    assert_eq!(result, Ok(PutObjectResponse {}));
    assert_eq!(get(&table, "S", "a"), stored("a", &[3], 1));
    assert_eq!(get(&table, "S", "b"), stored("b", &[4], 0));
    assert_eq!(get(&table, "S", "gone"), Err(StoreError::NotFound));
}

#[test]
fn batch_delete_of_absent_key_conflicts() {
    let mut table = Table::new(10);
    let result = put(&mut table, "S", vec![kv("a", &[1], 0)], vec![kv("absent", &[], 0)]);
    assert_eq!(result, Err(StoreError::VersionConflict));
    assert_eq!(get(&table, "S", "a"), Err(StoreError::NotFound));
}

#[test]
fn unconditional_delete_of_absent_key_succeeds() {
    let mut table = Table::new(10);
    assert_eq!(delete(&mut table, "S", "k", UNCONDITIONAL), Ok(()));
    assert_eq!(delete(&mut table, "S", "k", -1), Ok(()));
    assert_eq!(get(&table, "S", "k"), Err(StoreError::NotFound));
}

#[test]
fn unconditional_delete_removes_whatever_version() {
    let mut table = Table::new(10);
    put(&mut table, "S", vec![kv("k", &[1], 12)], vec![]).unwrap();
    assert_eq!(delete(&mut table, "S", "k", -1), Ok(()));
    assert_eq!(get(&table, "S", "k"), Err(StoreError::NotFound));
}

#[test]
fn delete_with_version_zero_of_absent_key_succeeds() {
    let mut table = Table::new(10);
    assert_eq!(delete(&mut table, "S", "k", 0), Ok(()));
}

#[test]
fn versioned_delete_of_absent_key_conflicts() {
    let mut table = Table::new(10);
    assert_eq!(delete(&mut table, "S", "k", 4), Err(StoreError::VersionConflict));
}

#[test]
fn versioned_delete_needs_stored_version() {
    let mut table = Table::new(10);
    put(&mut table, "S", vec![kv("k", &[1], 4)], vec![]).unwrap();
    assert_eq!(delete(&mut table, "S", "k", 3), Err(StoreError::VersionConflict));
    assert_eq!(get(&table, "S", "k"), stored("k", &[1], 4));
    assert_eq!(delete(&mut table, "S", "k", 4), Ok(()));
    assert_eq!(get(&table, "S", "k"), Err(StoreError::NotFound));
}

#[test]
fn delete_without_key_is_invalid() {
    let request = DeleteObjectRequest { store_id: "S".to_string(), key_value: None };
    assert_eq!(backend().delete(&request), Err(StoreError::InvalidArgument));
}

#[test]
fn delete_conditions_by_version() {
    let store = backend();
    let ask = |version: i64| {
        let request = DeleteObjectRequest {
            store_id: "S".to_string(),
            key_value: Some(kv("k", &[5], version)),
        };
        store.delete(&request).unwrap()
    };
    let expect = |condition: Precondition| DeleteItem {
        store_id: "S".to_string(),
        key: "k".to_string(),
        condition,
    };
    assert_eq!(ask(-1), expect(Precondition::Always));
    assert_eq!(ask(0), expect(Precondition::AbsentOrVersionEquals(0)));
    assert_eq!(ask(7), expect(Precondition::VersionEquals(7)));
    assert_eq!(ask(-2), expect(Precondition::VersionEquals(-2)));
}

#[test]
fn pages_cover_full_scan_in_order() {
    let mut table = Table::new(2);
    for (i, key) in ["d", "a", "e", "c", "b"].iter().enumerate() {
        put(&mut table, "S", vec![kv(key, &[1], i as i64)], vec![]).unwrap();
    }
    put(&mut table, "T", vec![kv("z", &[1], 0)], vec![]).unwrap();
    let (paged, pages) = list_all(&table, "S", None);
    assert_eq!(pages, 3);
    let expected: Vec<(String, i64)> = vec![
        ("a".to_string(), 1),
        ("b".to_string(), 4),
        ("c".to_string(), 3),
        ("d".to_string(), 0),
        ("e".to_string(), 2),
    ];
    assert_eq!(paged, expected);
    table.page_size = 100;
    let (whole, pages) = list_all(&table, "S", None);
    assert_eq!(pages, 1);
    assert_eq!(whole, expected);
}

#[test]
fn listing_of_empty_store_is_one_empty_page() {
    let table = Table::new(2);
    assert_eq!(list_all(&table, "S", None), (vec![], 1));
}

#[test]
fn prefix_listing_shows_only_prefixed_keys() {
    let mut table = Table::new(1);
    for key in ["a", "a/1", "a/2", "a0", "b/1", "a/"] {
        put(&mut table, "S", vec![kv(key, &[1], 0)], vec![]).unwrap();
    }
    let (paged, pages) = list_all(&table, "S", Some("a/"));
    assert_eq!(pages, 3);
    assert_eq!(
        paged,
        vec![("a/".to_string(), 0), ("a/1".to_string(), 0), ("a/2".to_string(), 0)]
    );
    assert!(paged.iter().all(|shown| shown.0.starts_with("a/")));
}

#[test]
fn scenario_put_get_stale_put() {
    let mut table = Table::new(10);
    assert_eq!(put(&mut table, "S1", vec![kv("x", &[1, 2, 3], 0)], vec![]), Ok(PutObjectResponse {}));
    assert_eq!(get(&table, "S1", "x"), stored("x", &[1, 2, 3], 0));
    assert_eq!(
        put(&mut table, "S1", vec![kv("x", &[4], 1)], vec![]),
        Err(StoreError::VersionConflict)
    );
    assert_eq!(get(&table, "S1", "x"), stored("x", &[1, 2, 3], 0));
}

#[test]
fn get_asks_for_consistent_read_of_the_key() {
    let request = GetObjectRequest { store_id: "S".to_string(), key: "k".to_string() };
    assert_eq!(
        backend().get(&request),
        GetItem { store_id: "S".to_string(), key: "k".to_string(), consistent_read: true }
    );
}

#[test]
fn get_response_defaults_missing_attributes() {
    let request = GetObjectRequest { store_id: "S".to_string(), key: "k".to_string() };
    let reply = Ok(Some(Item::default()));
    assert_eq!(backend().get_response(request, reply), stored("k", &[], 0));
}

#[test]
fn get_response_of_failed_read_is_backend_unavailable() {
    let request = GetObjectRequest { store_id: "S".to_string(), key: "k".to_string() };
    assert_eq!(
        backend().get_response(request.clone(), Err(Fault::Other)),
        Err(StoreError::BackendUnavailable)
    );
    assert_eq!(
        backend().get_response(request, Err(Fault::ConditionFailed)),
        Err(StoreError::BackendUnavailable)
    );
}

#[test]
fn put_plans_upserts_then_deletes() {
    let request = PutObjectRequest {
        store_id: "S".to_string(),
        transaction_items: vec![kv("a", &[1, 2], 3), kv("b", &[], 0)],
        delete_items: vec![kv("c", &[9], 8)],
    };
    let row = |key: &str, value: &[u8], digits: &str| Item {
        attributes: vec![
            named("store_id", text("S")),
            named("key", text(key)),
            named("value", Attribute::B(value.to_vec())),
            named("version", number(digits)),
        ],
    };
    assert_eq!(
        backend().put(&request),
        vec![
            WriteItem::Put {
                item: row("a", &[1, 2], "3"),
                condition: Precondition::AbsentOrVersionEquals(3),
            },
            WriteItem::Put {
                item: row("b", &[], "0"),
                condition: Precondition::AbsentOrVersionEquals(0),
            },
            WriteItem::Delete {
                store_id: "S".to_string(),
                key: "c".to_string(),
                condition: Precondition::VersionEquals(8),
            },
        ]
    );
}

#[test]
fn put_of_empty_batch_plans_nothing() {
    let request = PutObjectRequest::default();
    assert_eq!(backend().put(&request), vec![]);
}

#[test]
fn put_response_by_fault() {
    let store = backend();
    assert_eq!(store.put_response(Ok(())), Ok(PutObjectResponse {}));
    assert_eq!(store.put_response(Err(Fault::ConditionFailed)), Err(StoreError::VersionConflict));
    assert_eq!(store.put_response(Err(Fault::Other)), Err(StoreError::BackendUnavailable));
    let codes = |codes: &[&str]| Fault::Canceled(codes.iter().map(|c| c.to_string()).collect());
    assert_eq!(
        store.put_response(Err(codes(&["None", "ConditionalCheckFailed"]))),
        Err(StoreError::VersionConflict)
    );
    assert_eq!(
        store.put_response(Err(codes(&["None", "ThrottlingError"]))),
        Err(StoreError::BackendUnavailable)
    );
    assert_eq!(store.put_response(Err(codes(&[]))), Err(StoreError::BackendUnavailable));
}

#[test]
fn delete_response_by_fault() {
    let store = backend();
    assert!(store.delete_response(Ok(())).is_ok());
    assert_eq!(
        store.delete_response(Err(Fault::ConditionFailed)),
        Err(StoreError::VersionConflict)
    );
    assert_eq!(store.delete_response(Err(Fault::Other)), Err(StoreError::BackendUnavailable));
}

#[test]
fn conflict_is_told_from_other_faults() {
    assert!(is_conflict(&Fault::ConditionFailed));
    assert!(!is_conflict(&Fault::Other));
    assert!(is_conflict(&Fault::Canceled(vec!["ConditionalCheckFailed".to_string()])));
    assert!(!is_conflict(&Fault::Canceled(vec!["None".to_string(), "None".to_string()])));
}

#[test]
fn build_vss_item_holds_store_key_value_version() {
    assert_eq!(
        build_vss_item("S", &kv("k", &[1, 2, 3], 42)),
        Item {
            attributes: vec![
                named("store_id", text("S")),
                named("key", text("k")),
                named("value", Attribute::B(vec![1, 2, 3])),
                named("version", number("42")),
            ],
        }
    );
    let lowest = build_vss_item("S", &kv("k", &[], i64::MIN));
    assert_eq!(lowest.attributes[3], named("version", number("-9223372036854775808")));
    assert_eq!(lowest.version(), Some(i64::MIN));
}

#[test]
fn listing_plans_walk_under_prefix_after_token() {
    let request = ListKeyVersionsRequest {
        store_id: "S".to_string(),
        key_prefix: Some("a/".to_string()),
        page_token: Some("a/1".to_string()),
    };
    assert_eq!(
        backend().list_key_versions(&request),
        Ok(Query {
            store_id: "S".to_string(),
            key_prefix: Some("a/".to_string()),
            exclusive_start_key: Some("a/1".to_string()),
        })
    );
    let plain = ListKeyVersionsRequest { store_id: "S".to_string(), ..Default::default() };
    assert_eq!(
        backend().list_key_versions(&plain),
        Ok(Query { store_id: "S".to_string(), key_prefix: None, exclusive_start_key: None })
    );
}

#[test]
fn listing_refuses_malformed_prefix_or_token() {
    let ask = |prefix: Option<&str>, token: Option<&str>| {
        let request = ListKeyVersionsRequest {
            store_id: "S".to_string(),
            key_prefix: prefix.map(|p| p.to_string()),
            page_token: token.map(|t| t.to_string()),
        };
        backend().list_key_versions(&request).map(|_| ())
    };
    assert_eq!(ask(Some(""), None), Err(StoreError::InvalidArgument));
    assert_eq!(ask(None, Some("")), Err(StoreError::InvalidArgument));
    assert_eq!(ask(Some("a/"), Some("b/1")), Err(StoreError::InvalidArgument));
    assert_eq!(ask(Some("a/"), Some("a")), Err(StoreError::InvalidArgument));
    assert_eq!(ask(Some("a/"), Some("a/")), Ok(()));
    assert_eq!(ask(None, Some("b/1")), Ok(()));
}

#[test]
fn listing_response_shows_keys_and_versions_without_values() {
    let page = Page {
        items: vec![
            Item::new("S", "a", &vec![1], 3),
            Item { attributes: vec![named("key", text("b"))] },
        ],
        last_evaluated_key: Some(Item::naming("S", "b")),
    };
    let response = backend().list_key_versions_response(Ok(page)).unwrap();
    assert_eq!(response.key_versions, vec![kv("a", &[], 3), kv("b", &[], 0)]);
    assert_eq!(response.next_page_token, Some("b".to_string()));
}

#[test]
fn listing_response_of_unreadable_page_is_backend_unavailable() {
    let store = backend();
    let nameless = Page {
        items: vec![Item { attributes: vec![named("version", number("1"))] }],
        last_evaluated_key: None,
    };
    assert_eq!(
        store.list_key_versions_response(Ok(nameless)),
        Err(StoreError::BackendUnavailable)
    );
    let lost = Page {
        items: vec![],
        last_evaluated_key: Some(Item { attributes: vec![named("key", number("1"))] }),
    };
    assert_eq!(store.list_key_versions_response(Ok(lost)), Err(StoreError::BackendUnavailable));
    assert_eq!(
        store.list_key_versions_response(Err(Fault::Other)),
        Err(StoreError::BackendUnavailable)
    );
}

#[test]
fn conditions_in_the_language_of_the_table() {
    assert_eq!(Precondition::Always.expression(), None);
    assert_eq!(Precondition::Always.operand(), None);
    assert_eq!(Precondition::VersionEquals(4).expression(), Some("version = :v"));
    assert_eq!(Precondition::VersionEquals(4).operand(), Some(number("4")));
    assert_eq!(
        Precondition::AbsentOrVersionEquals(0).expression(),
        Some("attribute_not_exists(store_id) OR version = :v")
    );
    assert_eq!(Precondition::AbsentOrVersionEquals(-7).operand(), Some(number("-7")));
}

#[test]
fn walks_in_the_language_of_the_table() {
    let plain = Query { store_id: "S".to_string(), key_prefix: None, exclusive_start_key: None };
    assert_eq!(plain.key_condition(), "store_id = :storeIdVal");
    assert_eq!(plain.expression_values(), vec![named(":storeIdVal", text("S"))]);
    assert_eq!(plain.expression_name(), None);
    assert_eq!(plain.start(), None);
    let under = Query {
        store_id: "S".to_string(),
        key_prefix: Some("a/".to_string()),
        exclusive_start_key: Some("a/1".to_string()),
    };
    assert_eq!(
        under.key_condition(),
        "store_id = :storeIdVal and begins_with(#key, :keyPrefixVal)"
    );
    assert_eq!(
        under.expression_values(),
        vec![named(":storeIdVal", text("S")), named(":keyPrefixVal", text("a/"))]
    );
    assert_eq!(under.expression_name(), Some(("#key".to_string(), "key".to_string())));
    assert_eq!(under.start(), Some(Item::naming("S", "a/1")));
}

#[test]
fn item_reads_attributes_by_name_and_type() {
    let item = Item {
        attributes: vec![
            named("version", number("12")),
            named("key", text("k")),
            named("value", Attribute::B(vec![7])),
            named("version", number("13")),
            named("extra", Attribute::Other),
        ],
    };
    assert_eq!(item.key(), Some("k".to_string()));
    assert_eq!(item.value(), Some(vec![7]));
    assert_eq!(item.version(), Some(12));
    assert_eq!(item.store_id(), None);
    assert_eq!(item.attribute("extra"), Some(&Attribute::Other));
    assert_eq!(item.attribute("Key"), None);
}

#[test]
fn item_does_not_read_attributes_of_another_type() {
    let item = Item {
        attributes: vec![
            named("store_id", number("1")),
            named("key", Attribute::B(vec![1])),
            named("value", text("v")),
            named("version", text("3")),
        ],
    };
    assert_eq!(item.store_id(), None);
    assert_eq!(item.key(), None);
    assert_eq!(item.value(), None);
    assert_eq!(item.version(), None);
}

#[test]
fn item_reads_no_version_from_what_is_no_number_of_64_bits() {
    let version_of = |digits: &str| Item { attributes: vec![named("version", number(digits))] }.version();
    assert_eq!(version_of("0"), Some(0));
    assert_eq!(version_of("-1"), Some(-1));
    assert_eq!(version_of("9223372036854775807"), Some(i64::MAX));
    assert_eq!(version_of("9223372036854775808"), None);
    assert_eq!(version_of("1.5"), None);
    assert_eq!(version_of("1e3"), None);
    assert_eq!(version_of(""), None);
    assert_eq!(version_of("x"), None);
}

#[test]
fn get_response_takes_unreadable_version_for_zero() {
    let request = GetObjectRequest { store_id: "S".to_string(), key: "k".to_string() };
    let item = Item {
        attributes: vec![named("value", Attribute::B(vec![5])), named("version", number("1.5"))],
    };
    assert_eq!(backend().get_response(request, Ok(Some(item))), stored("k", &[5], 0));
}

#[test]
fn naming_item_holds_store_and_key() {
    assert_eq!(
        Item::naming("S", "k"),
        Item { attributes: vec![named("store_id", text("S")), named("key", text("k"))] }
    );
}
