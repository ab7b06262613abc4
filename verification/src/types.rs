//! The values that callers hand to the store and get back from it.

use vstd::prelude::*;

verus! {

/// The kinds of failure that the store reports.
#[derive(Clone, Copy, Debug, PartialEq, Eq, Structural)]
pub enum StoreError {
    /// A read found no record under the key.
    NotFound,
    /// The version that a write or a delete expected is not the stored one.
    VersionConflict,
    /// The request cannot be put to the table as it stands.
    InvalidArgument,
    /// The table failed for any other reason.
    BackendUnavailable,
}

/// A record as callers see it. A listing leaves `value` empty.
#[derive(Clone, Debug, PartialEq, Eq, Default)]
pub struct KeyValue {
    pub key: String,
    pub version: i64,
    pub value: Vec<u8>,
}

/// What a [`KeyValue`] holds.
pub struct Entry {
    pub key: Seq<char>,
    pub version: i64,
    pub value: Seq<u8>,
}

impl View for KeyValue {
    type V = Entry;

    open spec fn view(&self) -> Entry {
        Entry { key: self.key@, version: self.version, value: self.value@ }
    }
}

/// What a list of records holds, in order.
pub open spec fn entries(items: Seq<KeyValue>) -> Seq<Entry> {
    Seq::new(items.len(), |i: int| items[i]@)
}

/// What an optional text holds.
pub open spec fn text_of(text: Option<String>) -> Option<Seq<char>> {
    match text {
        Some(t) => Some(t@),
        None => None,
    }
}

#[derive(Clone, Debug, PartialEq, Eq, Default)]
pub struct GetObjectRequest {
    pub store_id: String,
    pub key: String,
}

#[derive(Clone, Debug, PartialEq, Eq, Default)]
pub struct GetObjectResponse {
    pub value: Option<KeyValue>,
}

/// Upserts and deletes that take effect together or not at all.
#[derive(Clone, Debug, PartialEq, Eq, Default)]
pub struct PutObjectRequest {
    pub store_id: String,
    pub transaction_items: Vec<KeyValue>,
    pub delete_items: Vec<KeyValue>,
}

#[derive(Clone, Copy, Debug, PartialEq, Eq, Default)]
pub struct PutObjectResponse {}

#[derive(Clone, Debug, PartialEq, Eq, Default)]
pub struct DeleteObjectRequest {
    pub store_id: String,
    /// The key to delete and the version expected there; the value is not read.
    pub key_value: Option<KeyValue>,
}

#[derive(Clone, Copy, Debug, PartialEq, Eq, Default)]
pub struct DeleteObjectResponse {}

#[derive(Clone, Debug, PartialEq, Eq, Default)]
pub struct ListKeyVersionsRequest {
    pub store_id: String,
    pub key_prefix: Option<String>,
    pub page_token: Option<String>,
}

#[derive(Clone, Debug, PartialEq, Eq, Default)]
pub struct ListKeyVersionsResponse {
    pub key_versions: Vec<KeyValue>,
    pub next_page_token: Option<String>,
}

} // verus!
