//! What callers of the store can rely on while the table is up.
//!
//! The functions at the top say what each operation returns and leaves
//! behind when the store's call is put to the table of [`crate::table`] and
//! the table's reply is handed back to the store.

use vstd::prelude::*;
use crate::types::{StoreError, Entry};
use crate::calls::{
    Precondition, WriteView, QueryView, PageView, FaultView, CONDITION_FAILED, NOT_AT_FAULT,
};
use crate::store::{
    Listing, put_plan, upsert_of, delete_condition, read_outcome, write_outcome,
    listing_refused, page_outcome, page_readable, listed, UNCONDITIONAL,
};
use crate::table::{
    Rows, Row, well_formed, version_at, get_item, admitted, all_admitted, acceptable, applied,
    applied_all, cancellation, transact_reply, transact_rows, delete_reply, delete_rows, before,
    wanted, is_page, handed_out, landed, touched, lemma_applied_all,
    lemma_before_transitive, lemma_before_irreflexive,
};

verus! {

/// What a get of `key` in `store_id` returns.
pub open spec fn get_result(rows: Rows, store_id: Seq<char>, key: Seq<char>) -> Result<
    Entry,
    StoreError,
> {
    read_outcome(key, get_item(rows, store_id, key))
}

/// What a put of the batch returns.
pub open spec fn put_result(
    rows: Rows,
    store_id: Seq<char>,
    upserts: Seq<Entry>,
    deletes: Seq<Entry>,
) -> Result<(), StoreError> {
    write_outcome(transact_reply(rows, put_plan(store_id, upserts, deletes)))
}

/// The rows after a put of the batch.
pub open spec fn rows_after_put(
    rows: Rows,
    store_id: Seq<char>,
    upserts: Seq<Entry>,
    deletes: Seq<Entry>,
) -> Rows {
    transact_rows(rows, put_plan(store_id, upserts, deletes))
}

/// What a single delete of `key` that expects `version` returns.
pub open spec fn delete_result(rows: Rows, store_id: Seq<char>, key: Seq<char>, version: i64) -> Result<
    (),
    StoreError,
> {
    write_outcome(delete_reply(rows, store_id, key, delete_condition(version)))
}

/// The rows after a single delete of `key` that expects `version`.
pub open spec fn rows_after_delete(
    rows: Rows,
    store_id: Seq<char>,
    key: Seq<char>,
    version: i64,
) -> Rows {
    delete_rows(rows, store_id, key, delete_condition(version))
}

/// A batch of one upsert.
pub open spec fn single(key: Seq<char>, value: Seq<u8>, version: i64) -> Seq<Entry> {
    seq![Entry { key, version, value }]
}

/// A cancelled transaction names a failed condition exactly where one of its
/// conditions did not hold.
pub proof fn lemma_cancellation_names_conflict(rows: Rows, writes: Seq<WriteView>)
    ensures
        FaultView::Canceled(cancellation(rows, writes)).is_conflict() == !all_admitted(
            rows,
            writes,
        ),
{
    reveal_strlit("ConditionalCheckFailed");
    reveal_strlit("None");
    let codes = cancellation(rows, writes);
    assert(NOT_AT_FAULT@.len() != CONDITION_FAILED@.len());
    if !all_admitted(rows, writes) {
        let i = choose|i: int| 0 <= i < writes.len() && !admitted(rows, #[trigger] writes[i]);
        assert(codes[i] == CONDITION_FAILED@);
        assert(codes.contains(CONDITION_FAILED@));
    } else {
        assert forall|i: int| 0 <= i < codes.len() implies codes[i] != CONDITION_FAILED@ by {
            assert(admitted(rows, writes[i]));
        }
    }
}

/// A put of one record with version 0 under a key that holds none succeeds,
/// and a get of the key then returns the record's bytes and version 0.
pub proof fn lemma_create_then_get(
    rows: Rows,
    store_id: Seq<char>,
    key: Seq<char>,
    value: Seq<u8>,
)
    requires
        store_id.len() > 0,
        key.len() > 0,
        !rows.dom().contains((store_id, key)),
    ensures
        put_result(rows, store_id, single(key, value, 0), Seq::empty()) == Ok::<(), StoreError>(
            (),
        ),
        get_result(
            rows_after_put(rows, store_id, single(key, value, 0), Seq::empty()),
            store_id,
            key,
        ) == Ok::<Entry, StoreError>(Entry { key, version: 0, value }),
{
    lemma_single_upsert(rows, store_id, key, value, 0);
}

/// What a put of one record does. It succeeds exactly where no record is
/// under the key or the record there has the put's version, and the key
/// then holds the put's bytes and version; otherwise, under a key that the
/// table takes, it is a version conflict and the rows stay as they were.
pub proof fn lemma_single_upsert(
    rows: Rows,
    store_id: Seq<char>,
    key: Seq<char>,
    value: Seq<u8>,
    version: i64,
)
    requires
        store_id.len() > 0,
        key.len() > 0,
    ensures
        Precondition::AbsentOrVersionEquals(version).admits(version_at(rows, store_id, key))
            ==> put_result(rows, store_id, single(key, value, version), Seq::empty()) == Ok::<
            (),
            StoreError,
        >(()) && rows_after_put(rows, store_id, single(key, value, version), Seq::empty())
            == rows.insert((store_id, key), Row { value, version }),
        !Precondition::AbsentOrVersionEquals(version).admits(version_at(rows, store_id, key))
            ==> put_result(rows, store_id, single(key, value, version), Seq::empty()) == Err::<
            (),
            StoreError,
        >(StoreError::VersionConflict) && rows_after_put(
            rows,
            store_id,
            single(key, value, version),
            Seq::empty(),
        ) == rows,
{
    let writes = put_plan(store_id, single(key, value, version), Seq::empty());
    let write = upsert_of(store_id, Entry { key, version, value });
    assert(writes =~= seq![write]);
    assert(acceptable(writes));
    assert(writes.drop_last() =~= Seq::<WriteView>::empty());
    assert(applied_all(rows, writes) == applied(applied_all(rows, writes.drop_last()), write));
    assert(applied_all(rows, writes.drop_last()) == rows);
    lemma_cancellation_names_conflict(rows, writes);
    if admitted(rows, write) {
        assert(all_admitted(rows, writes));
    } else {
        assert(!admitted(rows, writes[0]));
    }
}

/// After a successful put of a record with some bytes and a version, a put
/// under the same key with that version succeeds, and a get then returns the
/// new bytes and that version; a put with any other version is a version
/// conflict and leaves the rows as they were, so that a get returns the
/// first record still.
pub proof fn lemma_update_needs_stored_version(
    rows: Rows,
    store_id: Seq<char>,
    key: Seq<char>,
    value: Seq<u8>,
    version: i64,
    next_value: Seq<u8>,
    next_version: i64,
)
    requires
        put_result(rows, store_id, single(key, value, version), Seq::empty()) is Ok,
    ensures
        ({
            let stored = rows_after_put(rows, store_id, single(key, value, version), Seq::empty());
            let next = single(key, next_value, next_version);
            &&& get_result(stored, store_id, key) == Ok::<Entry, StoreError>(
                Entry { key, version, value },
            )
            &&& next_version == version ==> put_result(stored, store_id, next, Seq::empty())
                is Ok && get_result(
                rows_after_put(stored, store_id, next, Seq::empty()),
                store_id,
                key,
            ) == Ok::<Entry, StoreError>(Entry { key, version, value: next_value })
            &&& next_version != version ==> put_result(stored, store_id, next, Seq::empty())
                == Err::<(), StoreError>(StoreError::VersionConflict) && rows_after_put(
                stored,
                store_id,
                next,
                Seq::empty(),
            ) == stored
        }),
{
    let writes = put_plan(store_id, single(key, value, version), Seq::empty());
    assert(writes[0] == upsert_of(store_id, Entry { key, version, value }));
    assert(acceptable(writes));
    assert(writes[0].store_id().len() > 0 && writes[0].key().len() > 0);
    lemma_single_upsert(rows, store_id, key, value, version);
    lemma_cancellation_names_conflict(rows, writes);
    let stored = rows_after_put(rows, store_id, single(key, value, version), Seq::empty());
    lemma_single_upsert(stored, store_id, key, next_value, next_version);
}

/// A put that fails leaves every row as it was, whatever the batch holds.
/// Where the table takes the batch and the condition of one of its writes
/// does not hold, the put is a version conflict.
pub proof fn lemma_put_all_or_nothing(
    rows: Rows,
    store_id: Seq<char>,
    upserts: Seq<Entry>,
    deletes: Seq<Entry>,
)
    ensures
        put_result(rows, store_id, upserts, deletes) is Err ==> rows_after_put(
            rows,
            store_id,
            upserts,
            deletes,
        ) == rows,
        acceptable(put_plan(store_id, upserts, deletes)) && !all_admitted(
            rows,
            put_plan(store_id, upserts, deletes),
        ) ==> put_result(rows, store_id, upserts, deletes) == Err::<(), StoreError>(
            StoreError::VersionConflict,
        ),
        acceptable(put_plan(store_id, upserts, deletes)) && all_admitted(
            rows,
            put_plan(store_id, upserts, deletes),
        ) ==> put_result(rows, store_id, upserts, deletes) is Ok,
{
    lemma_cancellation_names_conflict(rows, put_plan(store_id, upserts, deletes));
}

/// Whether a batch names `key` among its upserts or its deletes.
pub open spec fn names(upserts: Seq<Entry>, deletes: Seq<Entry>, key: Seq<char>) -> bool {
    shows(upserts, key) || shows(deletes, key)
}

/// After a put that succeeds, a get of each upserted key returns the
/// upserted record, a get of each deleted key finds nothing, and every
/// record that the batch does not name, in this store or another, is as it
/// was.
pub proof fn lemma_put_commits_every_write(
    rows: Rows,
    store_id: Seq<char>,
    upserts: Seq<Entry>,
    deletes: Seq<Entry>,
)
    requires
        put_result(rows, store_id, upserts, deletes) is Ok,
    ensures
        forall|i: int|
            0 <= i < upserts.len() ==> get_result(
                rows_after_put(rows, store_id, upserts, deletes),
                store_id,
                (#[trigger] upserts[i]).key,
            ) == Ok::<Entry, StoreError>(upserts[i]),
        forall|i: int|
            0 <= i < deletes.len() ==> get_result(
                rows_after_put(rows, store_id, upserts, deletes),
                store_id,
                (#[trigger] deletes[i]).key,
            ) == Err::<Entry, StoreError>(StoreError::NotFound),
        forall|other: Seq<char>, key: Seq<char>|
            other != store_id || !names(upserts, deletes, key) ==> #[trigger] get_result(
                rows_after_put(rows, store_id, upserts, deletes),
                other,
                key,
            ) == get_result(rows, other, key),
{
    let writes = put_plan(store_id, upserts, deletes);
    let after = rows_after_put(rows, store_id, upserts, deletes);
    lemma_cancellation_names_conflict(rows, writes);
    assert(acceptable(writes));
    lemma_applied_all(rows, writes);
    assert forall|i: int| 0 <= i < upserts.len() implies get_result(
        after,
        store_id,
        (#[trigger] upserts[i]).key,
    ) == Ok::<Entry, StoreError>(upserts[i]) by {
        assert(landed(after, writes[i]));
    }
    assert forall|i: int| 0 <= i < deletes.len() implies get_result(
        after,
        store_id,
        (#[trigger] deletes[i]).key,
    ) == Err::<Entry, StoreError>(StoreError::NotFound) by {
        assert(landed(after, writes[upserts.len() + i]));
    }
    assert forall|other: Seq<char>, key: Seq<char>|
        other != store_id || !names(upserts, deletes, key) implies #[trigger] get_result(
        after,
        other,
        key,
    ) == get_result(rows, other, key) by {
        if touched(writes, other, key) {
            let i = choose|i: int|
                0 <= i < writes.len() && (#[trigger] writes[i]).store_id() == other
                    && writes[i].key() == key;
            if i < upserts.len() {
                assert(upserts[i].key == key);
            } else {
                assert(deletes[i - upserts.len()].key == key);
            }
        }
        assert(after.dom().contains((other, key)) == rows.dom().contains((other, key)));
    }
}

/// A single delete with the unconditional version under a key that holds no
/// record succeeds and leaves the rows as they were. So does one with
/// version 0.
pub proof fn lemma_delete_absent(rows: Rows, store_id: Seq<char>, key: Seq<char>)
    requires
        store_id.len() > 0,
        key.len() > 0,
        !rows.dom().contains((store_id, key)),
    ensures
        delete_result(rows, store_id, key, UNCONDITIONAL) is Ok,
        rows_after_delete(rows, store_id, key, UNCONDITIONAL) == rows,
        delete_result(rows, store_id, key, 0) is Ok,
        rows_after_delete(rows, store_id, key, 0) == rows,
{
    assert(rows.remove((store_id, key)) =~= rows);
}

/// What a single delete does under a key that the table takes. With the
/// unconditional version it succeeds; with version 0 where no record is
/// there or the record has version 0; with any other version where a record
/// is there and has that version. Then no record is under the key, and a
/// get of it finds nothing. In every other case it is a version conflict and
/// the rows stay as they were.
pub proof fn lemma_single_delete(rows: Rows, store_id: Seq<char>, key: Seq<char>, version: i64)
    requires
        store_id.len() > 0,
        key.len() > 0,
    ensures
        ({
            let goes = version == UNCONDITIONAL || version_at(rows, store_id, key) == Some(
                version as int,
            ) || (version == 0 && version_at(rows, store_id, key) is None);
            &&& goes ==> delete_result(rows, store_id, key, version) is Ok && rows_after_delete(
                rows,
                store_id,
                key,
                version,
            ) == rows.remove((store_id, key)) && get_result(
                rows_after_delete(rows, store_id, key, version),
                store_id,
                key,
            ) == Err::<Entry, StoreError>(StoreError::NotFound)
            &&& !goes ==> delete_result(rows, store_id, key, version) == Err::<(), StoreError>(
                StoreError::VersionConflict,
            ) && rows_after_delete(rows, store_id, key, version) == rows
        }),
{
}

/// No put and no single delete leaves a row under a store or a key that
/// the table does not take.
pub proof fn lemma_rows_stay_well_formed(
    rows: Rows,
    store_id: Seq<char>,
    upserts: Seq<Entry>,
    deletes: Seq<Entry>,
    key: Seq<char>,
    version: i64,
)
    requires
        well_formed(rows),
    ensures
        well_formed(rows_after_put(rows, store_id, upserts, deletes)),
        well_formed(rows_after_delete(rows, store_id, key, version)),
{
    let writes = put_plan(store_id, upserts, deletes);
    let after = rows_after_put(rows, store_id, upserts, deletes);
    if transact_reply(rows, writes) is Ok {
        lemma_applied_all(rows, writes);
        assert forall|other: Seq<char>, name: Seq<char>| #[trigger]
            after.dom().contains((other, name)) implies other.len() > 0 && name.len() > 0 by {
            if touched(writes, other, name) {
                let i = choose|i: int|
                    0 <= i < writes.len() && (#[trigger] writes[i]).store_id() == other
                        && writes[i].key() == name;
                assert(writes[i].store_id().len() > 0);
            } else {
                assert(rows.dom().contains((other, name)));
            }
        }
    }
}

/// The walk that a listing of `store_id` under `prefix` asks for after
/// `token`.
pub open spec fn list_query(
    store_id: Seq<char>,
    prefix: Option<Seq<char>>,
    token: Option<Seq<char>>,
) -> QueryView {
    QueryView { store_id, key_prefix: prefix, exclusive_start_key: token }
}

/// What a listing returns for a page that the table gave.
pub open spec fn list_result(page: PageView) -> Result<Listing, StoreError> {
    page_outcome(Ok(page))
}

/// Whether `pages` are the table's replies to a listing that starts after
/// `token` and is repeated with the token of each reply until a reply has
/// none.
pub open spec fn walk(
    rows: Rows,
    store_id: Seq<char>,
    prefix: Option<Seq<char>>,
    token: Option<Seq<char>>,
    pages: Seq<PageView>,
) -> bool
    decreases pages.len(),
{
    &&& pages.len() > 0
    &&& is_page(rows, list_query(store_id, prefix, token), pages[0])
    &&& match list_result(pages[0]) {
        Ok(listing) => match listing.next_page_token {
            Some(next) => walk(rows, store_id, prefix, Some(next), pages.drop_first()),
            None => pages.len() == 1,
        },
        Err(_) => false,
    }
}

/// What the listings of `pages` return, one after the other.
pub open spec fn walked(pages: Seq<PageView>) -> Seq<Entry>
    decreases pages.len(),
{
    if pages.len() == 0 {
        Seq::empty()
    } else {
        (match list_result(pages[0]) {
            Ok(listing) => listing.key_versions,
            Err(_) => Seq::empty(),
        }) + walked(pages.drop_first())
    }
}

/// Whether `listed` shows a record under `key`.
pub open spec fn shows(listed: Seq<Entry>, key: Seq<char>) -> bool {
    exists|i: int| 0 <= i < listed.len() && (#[trigger] listed[i]).key == key
}

/// Whether `listed` are the wanted records of `query`, each once, in
/// ascending order of their keys, each with its version and without bytes.
pub open spec fn lists_exactly(rows: Rows, query: QueryView, listed: Seq<Entry>) -> bool {
    &&& forall|i: int, j: int|
        0 <= i < j < listed.len() ==> before((#[trigger] listed[i]).key, (#[trigger] listed[j]).key)
    &&& forall|i: int|
        0 <= i < listed.len() ==> wanted(rows, query, (#[trigger] listed[i]).key) && listed[i]
            == (Entry {
            key: listed[i].key,
            version: rows[(query.store_id, listed[i].key)].version,
            value: Seq::empty(),
        })
    &&& forall|key: Seq<char>|
        #![trigger wanted(rows, query, key)]
        wanted(rows, query, key) ==> shows(listed, key)
}

/// A page that the table gives can be shown, and the listing shows its rows
/// in the page's order.
pub proof fn lemma_page_listing(rows: Rows, query: QueryView, page: PageView)
    requires
        is_page(rows, query, page),
    ensures
        list_result(page) matches Ok(listing) && listing.key_versions.len() == page.items.len()
            && listing.next_page_token == (match page.last_evaluated_key {
            Some(last) => last.key,
            None => None,
        }) && (forall|i: int|
            0 <= i < page.items.len() ==> (#[trigger] listing.key_versions[i]) == (Entry {
                key: page.items[i].key->Some_0,
                version: rows[(query.store_id, page.items[i].key->Some_0)].version,
                value: Seq::empty(),
            })),
{
    assert forall|i: int| 0 <= i < page.items.len() implies (#[trigger] page.items[i]).key
        is Some by {
        assert(handed_out(rows, query, page.items[i]));
    }
    if page.last_evaluated_key is Some {
        assert(handed_out(rows, query, page.items.last()));
    }
    assert(page_readable(page));
    let listing = list_result(page)->Ok_0;
    assert forall|i: int| 0 <= i < page.items.len() implies (#[trigger] listing.key_versions[i])
        == (Entry {
        key: page.items[i].key->Some_0,
        version: rows[(query.store_id, page.items[i].key->Some_0)].version,
        value: Seq::empty(),
    }) by {
        assert(handed_out(rows, query, page.items[i]));
    }
}

/// A listing under a prefix shows no key that does not begin with the
/// prefix.
pub proof fn lemma_page_within_prefix(
    rows: Rows,
    query: QueryView,
    page: PageView,
    prefix: Seq<char>,
)
    requires
        is_page(rows, query, page),
        query.key_prefix == Some(prefix),
    ensures
        list_result(page) matches Ok(listing) && (forall|i: int|
            0 <= i < listing.key_versions.len() ==> prefix.is_prefix_of(
                (#[trigger] listing.key_versions[i]).key,
            )),
{
    lemma_page_listing(rows, query, page);
    let listing = list_result(page)->Ok_0;
    assert forall|i: int| 0 <= i < listing.key_versions.len() implies prefix.is_prefix_of(
        (#[trigger] listing.key_versions[i]).key,
    ) by {
        assert(handed_out(rows, query, page.items[i]));
    }
}

/// The token that a listing returns is taken by the next listing under the
/// same prefix.
pub proof fn lemma_token_accepted(rows: Rows, query: QueryView, page: PageView)
    requires
        well_formed(rows),
        is_page(rows, query, page),
        !listing_refused(query.key_prefix, None),
    ensures
        list_result(page) matches Ok(listing) && !listing_refused(
            query.key_prefix,
            listing.next_page_token,
        ),
{
    lemma_page_listing(rows, query, page);
    if page.last_evaluated_key is Some {
        assert(handed_out(rows, query, page.items.last()));
    }
}

/// Listing a store page by page, each time with the token that the page
/// before returned, until a page returns none, shows the records that the
/// listing wants, each once and in ascending order of their keys: no
/// other, none twice and none left out, and under a prefix none whose key
/// does not begin with it.
pub proof fn lemma_walk_complete(
    rows: Rows,
    store_id: Seq<char>,
    prefix: Option<Seq<char>>,
    token: Option<Seq<char>>,
    pages: Seq<PageView>,
)
    requires
        walk(rows, store_id, prefix, token, pages),
    ensures
        lists_exactly(rows, list_query(store_id, prefix, token), walked(pages)),
    decreases pages.len(),
{
    let query = list_query(store_id, prefix, token);
    let page = pages[0];
    let rest = pages.drop_first();
    lemma_page_listing(rows, query, page);
    let listing = list_result(page)->Ok_0;
    let head = listing.key_versions;
    let all = walked(pages);
    assert(all == head + walked(rest));
    assert forall|i: int| 0 <= i < head.len() implies wanted(rows, query, (#[trigger] head[i]).key)
        && head[i].key == page.items[i].key->Some_0 by {
        assert(handed_out(rows, query, page.items[i]));
    }
    match listing.next_page_token {
        None => {
            assert(rest.len() == 0);
            assert(walked(rest) =~= Seq::<Entry>::empty());
            assert(all =~= head);
            assert forall|key: Seq<char>| #![trigger wanted(rows, query, key)] wanted(rows, query, key) implies shows(all, key) by {
                let i = choose|i: int|
                    0 <= i < page.items.len() && (#[trigger] page.items[i]).key == Some(key);
                assert(all[i].key == key);
            }
            assert(lists_exactly(rows, query, all));
        },
        Some(next) => {
            let later = list_query(store_id, prefix, Some(next));
            lemma_walk_complete(rows, store_id, prefix, Some(next), rest);
            let tail = walked(rest);
            let n = head.len() as int;
            assert(n > 0 && head[n - 1].key == next);
            assert forall|i: int| 0 <= i < n implies head[i].key == next || before(
                (#[trigger] head[i]).key,
                next,
            ) by {
                if i < n - 1 {
                    assert(before(page.items[i].key->Some_0, page.items[n - 1].key->Some_0));
                }
            }
            assert forall|j: int| 0 <= j < tail.len() implies before(next, (#[trigger] tail[j]).key)
                && wanted(rows, query, tail[j].key) by {
                assert(wanted(rows, later, tail[j].key));
                if token is Some {
                    assert(wanted(rows, query, head[0].key));
                    if head[0].key != next {
                        lemma_before_transitive(token->Some_0, head[0].key, next);
                    }
                    lemma_before_transitive(token->Some_0, next, tail[j].key);
                }
            }
            assert forall|i: int, j: int| 0 <= i < j < all.len() implies before(
                (#[trigger] all[i]).key,
                (#[trigger] all[j]).key,
            ) by {
                if j < n {
                    assert(before(page.items[i].key->Some_0, page.items[j].key->Some_0));
                } else if i >= n {
                    assert(before(tail[i - n].key, tail[j - n].key));
                } else {
                    assert(before(next, tail[j - n].key));
                    if head[i].key != next {
                        lemma_before_transitive(head[i].key, next, tail[j - n].key);
                    }
                }
            }
            assert forall|i: int| 0 <= i < all.len() implies wanted(
                rows,
                query,
                (#[trigger] all[i]).key,
            ) && all[i] == (Entry {
                key: all[i].key,
                version: rows[(query.store_id, all[i].key)].version,
                value: Seq::empty(),
            }) by {
                if i < n {
                    assert(all[i] == head[i]);
                } else {
                    assert(all[i] == tail[i - n]);
                }
            }
            assert forall|key: Seq<char>| #![trigger wanted(rows, query, key)] wanted(rows, query, key) implies shows(all, key) by {
                if before(next, key) {
                    assert(wanted(rows, later, key));
                    let j = choose|j: int| 0 <= j < tail.len() && (#[trigger] tail[j]).key == key;
                    assert(all[n + j] == tail[j]);
                } else {
                    let i = choose|i: int|
                        0 <= i < page.items.len() && (#[trigger] page.items[i]).key == Some(key);
                    assert(all[i] == head[i]);
                }
            }
            assert(lists_exactly(rows, query, all));
        },
    }
}

/// A listing that is walked to its end shows no key twice.
pub proof fn lemma_walk_without_duplicates(
    rows: Rows,
    store_id: Seq<char>,
    prefix: Option<Seq<char>>,
    token: Option<Seq<char>>,
    pages: Seq<PageView>,
)
    requires
        walk(rows, store_id, prefix, token, pages),
    ensures
        forall|i: int, j: int|
            0 <= i < j < walked(pages).len() ==> (#[trigger] walked(pages)[i]).key != (
            #[trigger] walked(pages)[j]).key,
{
    lemma_walk_complete(rows, store_id, prefix, token, pages);
    let all = walked(pages);
    assert forall|i: int, j: int| 0 <= i < j < all.len() implies (#[trigger] all[i]).key != (
    #[trigger] all[j]).key by {
        lemma_before_irreflexive(all[i].key);
    }
}

/// Two listings of the wanted records of one walk agree on their first `n`
/// keys.
proof fn lemma_same_keys(rows: Rows, query: QueryView, a: Seq<Entry>, b: Seq<Entry>, n: int)
    requires
        lists_exactly(rows, query, a),
        lists_exactly(rows, query, b),
        0 <= n <= a.len(),
    ensures
        n <= b.len(),
        forall|i: int| 0 <= i < n ==> (#[trigger] a[i]).key == b[i].key,
    decreases n,
{
    if n > 0 {
        lemma_same_keys(rows, query, a, b, n - 1);
        let i = n - 1;
        assert(wanted(rows, query, a[i].key));
        assert(shows(b, a[i].key));
        let j = choose|j: int| 0 <= j < b.len() && (#[trigger] b[j]).key == a[i].key;
        lemma_before_irreflexive(a[i].key);
        if j < i {
            assert(a[j].key == b[j].key);
            assert(before(a[j].key, a[i].key));
        } else if j > i {
            assert(wanted(rows, query, b[i].key));
            assert(shows(a, b[i].key));
            let m = choose|m: int| 0 <= m < a.len() && (#[trigger] a[m]).key == b[i].key;
            lemma_before_irreflexive(b[i].key);
            assert(before(b[i].key, b[j].key));
            if m < i {
                assert(a[m].key == b[m].key);
                assert(before(b[m].key, b[i].key));
            } else if m > i {
                assert(before(a[i].key, a[m].key));
                lemma_before_transitive(b[i].key, b[j].key, b[i].key);
            }
        }
        assert(j == i);
    }
}

/// The wanted records of a walk can be listed in one way only.
pub proof fn lemma_listing_unique(rows: Rows, query: QueryView, a: Seq<Entry>, b: Seq<Entry>)
    requires
        lists_exactly(rows, query, a),
        lists_exactly(rows, query, b),
    ensures
        a == b,
{
    lemma_same_keys(rows, query, a, b, a.len() as int);
    lemma_same_keys(rows, query, b, a, b.len() as int);
    assert(a =~= b);
}

/// Walking a listing in pages shows what one page that leaves nothing out
/// shows: the same records in the same order.
pub proof fn lemma_walk_equals_single_page(
    rows: Rows,
    store_id: Seq<char>,
    prefix: Option<Seq<char>>,
    pages: Seq<PageView>,
    whole: PageView,
)
    requires
        walk(rows, store_id, prefix, None, pages),
        is_page(rows, list_query(store_id, prefix, None), whole),
        whole.last_evaluated_key is None,
    ensures
        list_result(whole) == Ok::<Listing, StoreError>(
            Listing { key_versions: walked(pages), next_page_token: None },
        ),
{
    let query = list_query(store_id, prefix, None);
    lemma_walk_complete(rows, store_id, prefix, None, pages);
    lemma_page_listing(rows, query, whole);
    let listing = list_result(whole)->Ok_0;
    assert(walk(rows, store_id, prefix, None, seq![whole]));
    lemma_walk_complete(rows, store_id, prefix, None, seq![whole]);
    assert(seq![whole].drop_first() =~= Seq::<PageView>::empty());
    assert(walked(seq![whole].drop_first()) =~= Seq::<Entry>::empty());
    assert(walked(seq![whole]) =~= listing.key_versions);
    lemma_listing_unique(rows, query, walked(pages), listing.key_versions);
}

} // verus!
