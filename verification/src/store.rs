//! The four operations of the store.
//!
//! Each operation is one round trip to the table, so each comes in two
//! halves: one that says what to ask of the table, and one that says what the
//! table's reply means for the caller. Nothing is retried and nothing is kept
//! between calls.
//!
//! Versions. The store assigns none: a record holds the version that the
//! put which wrote it came with, so that a record created with version `0`
//! is read back with version `0`. An upsert goes through where no record is
//! under its key or the record there has the upsert's version, and the
//! record then holds the upsert's value and version. A delete inside a batch goes through only
//! where a record is there and has the delete's version. A single delete with
//! version `-1` goes through whatever is there; with version `0` where no
//! record is there or the record has version `0`; with any other version
//! only where a record is there and has that version, so that a missing
//! record is a [`StoreError::VersionConflict`] then.

use vstd::prelude::*;
use crate::types::{
    StoreError, KeyValue, Entry, entries, text_of, GetObjectRequest, GetObjectResponse,
    PutObjectRequest, PutObjectResponse, DeleteObjectRequest, DeleteObjectResponse,
    ListKeyVersionsRequest, ListKeyVersionsResponse,
};
use crate::calls::{
    Precondition, Item, ItemView, GetItem, WriteItem, WriteView, writes_of, DeleteItem, Query,
    QueryView, Page, PageView, Fault, FaultView, texts_of, is_row, CONDITION_FAILED,
};

verus! {

/// The version that makes a single delete unconditional.
pub const UNCONDITIONAL: i64 = -1;

/// The store over a table that is reached through `client`.
pub struct DynamoDbBackend<C> {
    pub client: C,
}

/// The write that an upsert of `entry` into `store_id` asks for.
pub open spec fn upsert_of(store_id: Seq<char>, entry: Entry) -> WriteView {
    WriteView::Put {
        item: ItemView {
            store_id: Some(store_id),
            key: Some(entry.key),
            value: Some(entry.value),
            version: Some(entry.version),
        },
        condition: Precondition::AbsentOrVersionEquals(entry.version),
    }
}

/// The write that a delete of `entry` from `store_id` asks for inside a batch.
pub open spec fn removal_of(store_id: Seq<char>, entry: Entry) -> WriteView {
    WriteView::Delete {
        store_id,
        key: entry.key,
        condition: Precondition::VersionEquals(entry.version),
    }
}

/// The transaction that a batch asks for: the upserts in their order, then
/// the deletes in theirs.
pub open spec fn put_plan(store_id: Seq<char>, upserts: Seq<Entry>, deletes: Seq<Entry>) -> Seq<
    WriteView,
> {
    Seq::new(
        upserts.len() + deletes.len(),
        |i: int|
            if i < upserts.len() {
                upsert_of(store_id, upserts[i])
            } else {
                removal_of(store_id, deletes[i - upserts.len()])
            },
    )
}

/// The condition under which a single delete that expects `version` goes
/// through.
pub open spec fn delete_condition(version: i64) -> Precondition {
    if version == UNCONDITIONAL {
        Precondition::Always
    } else if version == 0 {
        Precondition::AbsentOrVersionEquals(0)
    } else {
        Precondition::VersionEquals(version)
    }
}

/// Whether `write` puts the row that holds `entry` in store `store_id`, as
/// [`build_vss_item`] makes it.
pub open spec fn writes_row(write: WriteItem, store_id: Seq<char>, entry: Entry) -> bool {
    write matches WriteItem::Put { item, .. } && is_row(
        item,
        store_id,
        entry.key,
        entry.value,
        entry.version,
    )
}

/// What the table's reply to a read of `key` means.
pub open spec fn read_outcome(key: Seq<char>, reply: Result<Option<ItemView>, FaultView>) -> Result<
    Entry,
    StoreError,
> {
    match reply {
        Ok(Some(item)) => Ok(
            Entry {
                key,
                version: match item.version {
                    Some(v) => v,
                    None => 0,
                },
                value: match item.value {
                    Some(v) => v,
                    None => Seq::empty(),
                },
            },
        ),
        Ok(None) => Err(StoreError::NotFound),
        Err(_) => Err(StoreError::BackendUnavailable),
    }
}

/// What the table's reply to a write means.
pub open spec fn write_outcome(reply: Result<(), FaultView>) -> Result<(), StoreError> {
    match reply {
        Ok(_) => Ok(()),
        Err(fault) => if fault.is_conflict() {
            Err(StoreError::VersionConflict)
        } else {
            Err(StoreError::BackendUnavailable)
        },
    }
}

/// Whether a listing with this prefix and this token is refused before the
/// table is asked: an empty prefix or token names nothing that the table
/// could look for, and a token is a key that an earlier page of the same
/// listing returned, so it begins with the prefix.
pub open spec fn listing_refused(prefix: Option<Seq<char>>, token: Option<Seq<char>>) -> bool {
    ||| prefix matches Some(p) && p.len() == 0
    ||| token matches Some(t) && t.len() == 0
    ||| prefix matches Some(p) && token matches Some(t) && !p.is_prefix_of(t)
}

/// The key and version that a listing shows for a row. No bytes are shown.
pub open spec fn listed(item: ItemView) -> Entry {
    Entry {
        key: match item.key {
            Some(k) => k,
            None => Seq::empty(),
        },
        version: match item.version {
            Some(v) => v,
            None => 0,
        },
        value: Seq::empty(),
    }
}

/// A page as callers see it.
pub struct Listing {
    pub key_versions: Seq<Entry>,
    pub next_page_token: Option<Seq<char>>,
}

/// Whether a page can be shown: every row names its key, and so does the
/// place to go on from.
pub open spec fn page_readable(page: PageView) -> bool {
    &&& forall|i: int| 0 <= i < page.items.len() ==> (#[trigger] page.items[i]).key is Some
    &&& page.last_evaluated_key matches Some(last) ==> last.key is Some
}

/// What the table's reply to a walk means.
pub open spec fn page_outcome(reply: Result<PageView, FaultView>) -> Result<Listing, StoreError> {
    match reply {
        Ok(page) => if page_readable(page) {
            Ok(
                Listing {
                    key_versions: Seq::new(page.items.len(), |i: int| listed(page.items[i])),
                    next_page_token: match page.last_evaluated_key {
                        Some(last) => last.key,
                        None => None,
                    },
                },
            )
        } else {
            Err(StoreError::BackendUnavailable)
        },
        Err(_) => Err(StoreError::BackendUnavailable),
    }
}

/// What a reply to a read holds.
pub open spec fn item_reply(reply: Result<Option<Item>, Fault>) -> Result<
    Option<ItemView>,
    FaultView,
> {
    match reply {
        Ok(Some(item)) => Ok(Some(item@)),
        Ok(None) => Ok(None),
        Err(fault) => Err(fault@),
    }
}

/// What a reply to a write holds.
pub open spec fn write_reply(reply: Result<(), Fault>) -> Result<(), FaultView> {
    match reply {
        Ok(_) => Ok(()),
        Err(fault) => Err(fault@),
    }
}

/// What a reply to a walk holds.
pub open spec fn page_reply(reply: Result<Page, Fault>) -> Result<PageView, FaultView> {
    match reply {
        Ok(page) => Ok(page@),
        Err(fault) => Err(fault@),
    }
}

/// `str::starts_with` with a text for its pattern: whether `text` begins
/// with `prefix`, character for character.
#[verifier::external_body]
fn starts_with(text: &str, prefix: &str) -> (r: bool)
    ensures
        r == prefix@.is_prefix_of(text@),
{
    text.starts_with(prefix)
}

/// Whether `fault` says that the condition of a write did not hold.
pub fn is_conflict(fault: &Fault) -> (r: bool)
    ensures
        r == fault@.is_conflict(),
{
    match fault {
        Fault::ConditionFailed => true,
        Fault::Other => false,
        Fault::Canceled(codes) => {
            let wanted: String = CONDITION_FAILED.to_owned();
            let ghost seen = texts_of(codes@);
            let mut i: usize = 0;
            while i < codes.len()
                invariant
                    i <= codes.len(),
                    wanted@ == CONDITION_FAILED@,
                    seen == texts_of(codes@),
                    fault@ == FaultView::Canceled(seen),
                    forall|j: int| 0 <= j < i ==> seen[j] != CONDITION_FAILED@,
                decreases codes.len() - i,
            {
                if codes[i] == wanted {
                    assert(seen[i as int] == CONDITION_FAILED@);
                    assert(seen.contains(CONDITION_FAILED@));
                    return true;
                }
                i += 1;
            }
            false
        },
    }
}

/// The row that holds `kv` in the store `store_id`: the attributes
/// `store_id`, `key`, `value` and `version`, in this order.
pub fn build_vss_item(store_id: &str, kv: &KeyValue) -> (item: Item)
    ensures
        item@ == (ItemView {
            store_id: Some(store_id@),
            key: Some(kv.key@),
            value: Some(kv.value@),
            version: Some(kv.version),
        }),
        is_row(item, store_id@, kv.key@, kv.value@, kv.version),
{
    Item::new(store_id, kv.key.as_str(), &kv.value, kv.version)
}

impl<C> DynamoDbBackend<C> {
    /// The store over the table that `client` reaches.
    pub fn new(client: C) -> (r: Self)
        ensures
            r.client == client,
    {
        Self { client }
    }

    /// The read that a get asks for: a consistent one, of the request's key
    /// in the request's store.
    pub fn get(&self, request: &GetObjectRequest) -> (call: GetItem)
        ensures
            call.store_id@ == request.store_id@,
            call.key@ == request.key@,
            call.consistent_read,
    {
        GetItem {
            store_id: request.store_id.clone(),
            key: request.key.clone(),
            consistent_read: true,
        }
    }

    /// What a get returns once the table has replied: the record under the
    /// request's key, with version 0 and no bytes where the row lacks them;
    /// [`StoreError::NotFound`] where there is no row;
    /// [`StoreError::BackendUnavailable`] where the table failed.
    pub fn get_response(
        &self,
        request: GetObjectRequest,
        reply: Result<Option<Item>, Fault>,
    ) -> (r: Result<GetObjectResponse, StoreError>)
        ensures
            match read_outcome(request.key@, item_reply(reply)) {
                Ok(entry) => r matches Ok(response) && response.value matches Some(kv) && kv@
                    == entry,
                Err(e) => r matches Err(x) && x == e,
            },
    {
        match reply {
            Ok(Some(item)) => {
                let version: i64 = match item.version() {
                    Some(v) => v,
                    None => 0,
                };
                let value: Vec<u8> = match item.value() {
                    Some(v) => v,
                    None => Vec::new(),
                };
                Ok(GetObjectResponse { value: Some(KeyValue { key: request.key, version, value }) })
            },
            Ok(None) => Err(StoreError::NotFound),
            Err(_) => Err(StoreError::BackendUnavailable),
        }
    }

    /// The one transaction that a batch asks for.
    pub fn put(&self, request: &PutObjectRequest) -> (writes: Vec<WriteItem>)
        ensures
            writes_of(writes@) == put_plan(
                request.store_id@,
                entries(request.transaction_items@),
                entries(request.delete_items@),
            ),
            forall|i: int|
                0 <= i < request.transaction_items.len() ==> writes_row(
                    #[trigger] writes[i],
                    request.store_id@,
                    request.transaction_items[i]@,
                ),
    {
        let ghost plan = put_plan(
            request.store_id@,
            entries(request.transaction_items@),
            entries(request.delete_items@),
        );
        let upserts: usize = request.transaction_items.len();
        let mut writes: Vec<WriteItem> = Vec::new();
        let mut i: usize = 0;
        while i < upserts
            invariant
                i <= upserts,
                upserts == request.transaction_items.len(),
                writes.len() == i,
                plan == put_plan(
                    request.store_id@,
                    entries(request.transaction_items@),
                    entries(request.delete_items@),
                ),
                forall|j: int| 0 <= j < i ==> (#[trigger] writes[j])@ == plan[j],
                forall|j: int|
                    0 <= j < i ==> writes_row(
                        #[trigger] writes[j],
                        request.store_id@,
                        request.transaction_items[j]@,
                    ),
            decreases upserts - i,
        {
            let kv: &KeyValue = &request.transaction_items[i];
            let item: Item = build_vss_item(request.store_id.as_str(), kv);
            writes.push(
                WriteItem::Put { item, condition: Precondition::AbsentOrVersionEquals(kv.version) },
            );
            i += 1;
        }
        let mut k: usize = 0;
        while k < request.delete_items.len()
            invariant
                k <= request.delete_items.len(),
                upserts == request.transaction_items.len(),
                writes.len() == upserts + k,
                plan == put_plan(
                    request.store_id@,
                    entries(request.transaction_items@),
                    entries(request.delete_items@),
                ),
                forall|j: int| 0 <= j < upserts + k ==> (#[trigger] writes[j])@ == plan[j],
                forall|j: int|
                    0 <= j < upserts ==> writes_row(
                        #[trigger] writes[j],
                        request.store_id@,
                        request.transaction_items[j]@,
                    ),
            decreases request.delete_items.len() - k,
        {
            let kv: &KeyValue = &request.delete_items[k];
            writes.push(
                WriteItem::Delete {
                    store_id: request.store_id.clone(),
                    key: kv.key.clone(),
                    condition: Precondition::VersionEquals(kv.version),
                },
            );
            k += 1;
        }
        assert(writes_of(writes@) =~= plan);
        writes
    }

    /// What a put returns once the table has replied: success where the
    /// transaction went through; [`StoreError::VersionConflict`] where the
    /// condition of one of its writes did not hold;
    /// [`StoreError::BackendUnavailable`] where it failed otherwise.
    pub fn put_response(&self, reply: Result<(), Fault>) -> (r: Result<
        PutObjectResponse,
        StoreError,
    >)
        ensures
            match write_outcome(write_reply(reply)) {
                Ok(_) => r is Ok,
                Err(e) => r matches Err(x) && x == e,
            },
    {
        match reply {
            Ok(_) => Ok(PutObjectResponse {  }),
            Err(fault) => if is_conflict(&fault) {
                Err(StoreError::VersionConflict)
            } else {
                Err(StoreError::BackendUnavailable)
            },
        }
    }

    /// The removal that a single delete asks for, or
    /// [`StoreError::InvalidArgument`] where the request names no key.
    pub fn delete(&self, request: &DeleteObjectRequest) -> (r: Result<DeleteItem, StoreError>)
        ensures
            match request.key_value {
                Some(kv) => r matches Ok(call) && call.store_id@ == request.store_id@ && call.key@
                    == kv.key@ && call.condition == delete_condition(kv.version),
                None => r matches Err(e) && e == StoreError::InvalidArgument,
            },
    {
        match &request.key_value {
            Some(kv) => {
                let condition: Precondition = if kv.version == UNCONDITIONAL {
                    Precondition::Always
                } else if kv.version == 0 {
                    Precondition::AbsentOrVersionEquals(0)
                } else {
                    Precondition::VersionEquals(kv.version)
                };
                Ok(
                    DeleteItem {
                        store_id: request.store_id.clone(),
                        key: kv.key.clone(),
                        condition,
                    },
                )
            },
            None => Err(StoreError::InvalidArgument),
        }
    }

    /// What a delete returns once the table has replied, as for a put.
    pub fn delete_response(&self, reply: Result<(), Fault>) -> (r: Result<
        DeleteObjectResponse,
        StoreError,
    >)
        ensures
            match write_outcome(write_reply(reply)) {
                Ok(_) => r is Ok,
                Err(e) => r matches Err(x) && x == e,
            },
    {
        match reply {
            Ok(_) => Ok(DeleteObjectResponse {  }),
            Err(fault) => if is_conflict(&fault) {
                Err(StoreError::VersionConflict)
            } else {
                Err(StoreError::BackendUnavailable)
            },
        }
    }

    /// The walk that a listing asks for: over the request's store, under its
    /// prefix, after its token. A request that [`listing_refused`] describes
    /// gets [`StoreError::InvalidArgument`] and no walk.
    pub fn list_key_versions(&self, request: &ListKeyVersionsRequest) -> (r: Result<
        Query,
        StoreError,
    >)
        ensures
            if listing_refused(text_of(request.key_prefix), text_of(request.page_token)) {
                r matches Err(e) && e == StoreError::InvalidArgument
            } else {
                r matches Ok(query) && query@ == (QueryView {
                    store_id: request.store_id@,
                    key_prefix: text_of(request.key_prefix),
                    exclusive_start_key: text_of(request.page_token),
                })
            },
    {
        let key_prefix: Option<String> = match &request.key_prefix {
            Some(p) => {
                if p.as_str().is_empty() {
                    return Err(StoreError::InvalidArgument);
                }
                Some(p.clone())
            },
            None => None,
        };
        let exclusive_start_key: Option<String> = match &request.page_token {
            Some(t) => {
                if t.as_str().is_empty() {
                    return Err(StoreError::InvalidArgument);
                }
                match &request.key_prefix {
                    Some(p) => {
                        if !starts_with(t.as_str(), p.as_str()) {
                            return Err(StoreError::InvalidArgument);
                        }
                    },
                    None => {},
                }
                Some(t.clone())
            },
            None => None,
        };
        Ok(Query { store_id: request.store_id.clone(), key_prefix, exclusive_start_key })
    }

    /// What a listing returns once the table has replied: the page's keys
    /// and versions in the table's order, and the key to go on from where
    /// the table names one; [`StoreError::BackendUnavailable`] where the
    /// table failed or a row of the page does not name its key.
    pub fn list_key_versions_response(&self, reply: Result<Page, Fault>) -> (r: Result<
        ListKeyVersionsResponse,
        StoreError,
    >)
        ensures
            match page_outcome(page_reply(reply)) {
                Ok(listing) => r matches Ok(response) && entries(response.key_versions@)
                    == listing.key_versions && text_of(response.next_page_token)
                    == listing.next_page_token,
                Err(e) => r matches Err(x) && x == e,
            },
    {
        match reply {
            Ok(page) => {
                let mut key_versions: Vec<KeyValue> = Vec::new();
                let mut i: usize = 0;
                while i < page.items.len()
                    invariant
                        i <= page.items.len(),
                        key_versions.len() == i,
                        page_reply(reply) == Ok::<PageView, FaultView>(page@),
                        forall|j: int| 0 <= j < i ==> (#[trigger] page@.items[j]).key is Some,
                        forall|j: int|
                            0 <= j < i ==> (#[trigger] key_versions[j])@ == listed(page@.items[j]),
                    decreases page.items.len() - i,
                {
                    let item: &Item = &page.items[i];
                    assert(page@.items[i as int] == item@);
                    let key: String = match item.key() {
                        Some(k) => k,
                        None => {
                            assert(page@.items[i as int].key is None);
                            return Err(StoreError::BackendUnavailable);
                        },
                    };
                    let version: i64 = match item.version() {
                        Some(v) => v,
                        None => 0,
                    };
                    key_versions.push(KeyValue { key, version, value: Vec::new() });
                    i += 1;
                }
                let next_page_token: Option<String> = match &page.last_evaluated_key {
                    Some(last) => match last.key() {
                        Some(k) => Some(k),
                        None => {
                            return Err(StoreError::BackendUnavailable);
                        },
                    },
                    None => None,
                };
                assert(entries(key_versions@) =~= Seq::new(
                    page@.items.len(),
                    |i: int| listed(page@.items[i]),
                ));
                Ok(ListKeyVersionsResponse { key_versions, next_page_token })
            },
            Err(_) => Err(StoreError::BackendUnavailable),
        }
    }
}

} // verus!
