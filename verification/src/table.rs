//! How the table answers what the store asks of it.
//!
//! The table holds at most one row under a store and a key. It takes no empty
//! store name and no empty key, and a transaction only where it has a write
//! and no two of its writes are about the same row. A transaction's
//! conditions are all judged against the rows as they were before it, and
//! its writes take effect together or not at all. A walk hands out rows of
//! one store in ascending order of their keys, as many at a time as the table
//! likes, and names the last key of a page where rows may be left.
//!
//! What is stated here is the table while it is up: a table that is down
//! answers every call with [`crate::calls::Fault::Other`] and changes nothing.

use vstd::prelude::*;
use crate::calls::{
    Precondition, ItemView, WriteView, QueryView, PageView, FaultView, CONDITION_FAILED,
    NOT_AT_FAULT,
};

verus! {

/// What a row holds beside its store and its key.
pub struct Row {
    pub value: Seq<u8>,
    pub version: i64,
}

/// The rows of a table, by store and key.
pub type Rows = Map<(Seq<char>, Seq<char>), Row>;

/// Whether every row is under a store and a key that the table takes.
pub open spec fn well_formed(rows: Rows) -> bool {
    forall|store_id: Seq<char>, key: Seq<char>| #[trigger]
        rows.dom().contains((store_id, key)) ==> store_id.len() > 0 && key.len() > 0
}

/// The version of the row under `store_id` and `key`, `None` where there is
/// no row.
pub open spec fn version_at(rows: Rows, store_id: Seq<char>, key: Seq<char>) -> Option<int> {
    if rows.dom().contains((store_id, key)) {
        Some(rows[(store_id, key)].version as int)
    } else {
        None
    }
}

/// A row as the table hands it out.
pub open spec fn item_of(store_id: Seq<char>, key: Seq<char>, row: Row) -> ItemView {
    ItemView {
        store_id: Some(store_id),
        key: Some(key),
        value: Some(row.value),
        version: Some(row.version),
    }
}

/// What a row holds once `item` has been put there: no bytes and version 0
/// where the item names none.
pub open spec fn row_of(item: ItemView) -> Row {
    Row {
        value: match item.value {
            Some(value) => value,
            None => Seq::empty(),
        },
        version: match item.version {
            Some(version) => version,
            None => 0,
        },
    }
}

/// The reply to a read of the row under `store_id` and `key`.
pub open spec fn get_item(rows: Rows, store_id: Seq<char>, key: Seq<char>) -> Result<
    Option<ItemView>,
    FaultView,
> {
    if rows.dom().contains((store_id, key)) {
        Ok(Some(item_of(store_id, key, rows[(store_id, key)])))
    } else {
        Ok(None)
    }
}

/// Whether the condition of `write` holds in `rows`.
pub open spec fn admitted(rows: Rows, write: WriteView) -> bool {
    write.condition().admits(version_at(rows, write.store_id(), write.key()))
}

/// The rows once `write` has taken effect.
pub open spec fn applied(rows: Rows, write: WriteView) -> Rows {
    match write {
        WriteView::Put { item, .. } => rows.insert((write.store_id(), write.key()), row_of(item)),
        WriteView::Delete { store_id, key, .. } => rows.remove((store_id, key)),
    }
}

/// The rows once every one of `writes` has taken effect, in order.
pub open spec fn applied_all(rows: Rows, writes: Seq<WriteView>) -> Rows
    decreases writes.len(),
{
    if writes.len() == 0 {
        rows
    } else {
        applied(applied_all(rows, writes.drop_last()), writes.last())
    }
}

/// Whether the table takes `writes` as a transaction at all.
pub open spec fn acceptable(writes: Seq<WriteView>) -> bool {
    &&& writes.len() > 0
    &&& forall|i: int|
        0 <= i < writes.len() ==> (#[trigger] writes[i]).store_id().len() > 0 && writes[i].key().len()
            > 0
    &&& forall|i: int, j: int|
        0 <= i < j < writes.len() ==> !((#[trigger] writes[i]).store_id() == (
        #[trigger] writes[j]).store_id() && writes[i].key() == writes[j].key())
}

/// Whether the condition of every one of `writes` holds in `rows`.
pub open spec fn all_admitted(rows: Rows, writes: Seq<WriteView>) -> bool {
    forall|i: int| 0 <= i < writes.len() ==> admitted(rows, #[trigger] writes[i])
}

/// The codes of a transaction that was cancelled because of its conditions.
pub open spec fn cancellation(rows: Rows, writes: Seq<WriteView>) -> Seq<Seq<char>> {
    Seq::new(
        writes.len(),
        |i: int|
            if admitted(rows, writes[i]) {
                NOT_AT_FAULT@
            } else {
                CONDITION_FAILED@
            },
    )
}

/// The reply to a transaction.
pub open spec fn transact_reply(rows: Rows, writes: Seq<WriteView>) -> Result<(), FaultView> {
    if !acceptable(writes) {
        Err(FaultView::Other)
    } else if all_admitted(rows, writes) {
        Ok(())
    } else {
        Err(FaultView::Canceled(cancellation(rows, writes)))
    }
}

/// The rows after a transaction.
pub open spec fn transact_rows(rows: Rows, writes: Seq<WriteView>) -> Rows {
    if transact_reply(rows, writes) is Ok {
        applied_all(rows, writes)
    } else {
        rows
    }
}

/// The reply to a removal by itself.
pub open spec fn delete_reply(
    rows: Rows,
    store_id: Seq<char>,
    key: Seq<char>,
    condition: Precondition,
) -> Result<(), FaultView> {
    if store_id.len() == 0 || key.len() == 0 {
        Err(FaultView::Other)
    } else if condition.admits(version_at(rows, store_id, key)) {
        Ok(())
    } else {
        Err(FaultView::ConditionFailed)
    }
}

/// The rows after a removal by itself.
pub open spec fn delete_rows(
    rows: Rows,
    store_id: Seq<char>,
    key: Seq<char>,
    condition: Precondition,
) -> Rows {
    if delete_reply(rows, store_id, key, condition) is Ok {
        rows.remove((store_id, key))
    } else {
        rows
    }
}

/// Whether `a` comes before `b` in the order of keys: character by
/// character, the shorter first where one begins the other. This is the
/// order of the keys' bytes in UTF-8, by which the table sorts.
pub open spec fn before(a: Seq<char>, b: Seq<char>) -> bool
    decreases a.len(),
{
    if b.len() == 0 {
        false
    } else if a.len() == 0 {
        true
    } else if a[0] != b[0] {
        (a[0] as u32) < (b[0] as u32)
    } else {
        before(a.drop_first(), b.drop_first())
    }
}

/// Whether a walk is to hand out the row under `key`.
pub open spec fn wanted(rows: Rows, query: QueryView, key: Seq<char>) -> bool {
    &&& rows.dom().contains((query.store_id, key))
    &&& query.key_prefix matches Some(prefix) ==> prefix.is_prefix_of(key)
    &&& query.exclusive_start_key matches Some(start) ==> before(start, key)
}

/// Whether `item` is a wanted row as the table holds it.
pub open spec fn handed_out(rows: Rows, query: QueryView, item: ItemView) -> bool {
    item.key matches Some(key) && wanted(rows, query, key) && item == item_of(
        query.store_id,
        key,
        rows[(query.store_id, key)],
    )
}

/// Whether `page` is a reply that the table may give to `query`: wanted
/// rows only, in ascending order, none left out up to the last one; and the
/// last one named to go on from unless no wanted row is left.
pub open spec fn is_page(rows: Rows, query: QueryView, page: PageView) -> bool {
    &&& forall|i: int| 0 <= i < page.items.len() ==> handed_out(rows, query, #[trigger] page.items[i])
    &&& forall|i: int, j: int|
        0 <= i < j < page.items.len() ==> before(
            (#[trigger] page.items[i]).key->Some_0,
            (#[trigger] page.items[j]).key->Some_0,
        )
    &&& match page.last_evaluated_key {
        Some(last) => {
            &&& page.items.len() > 0
            &&& last.key == page.items.last().key
            &&& forall|key: Seq<char>|
                #![trigger wanted(rows, query, key)]
                wanted(rows, query, key) && !before(last.key->Some_0, key) ==> exists|i: int|
                    0 <= i < page.items.len() && (#[trigger] page.items[i]).key == Some(key)
        },
        None => forall|key: Seq<char>|
            #![trigger wanted(rows, query, key)]
            wanted(rows, query, key) ==> exists|i: int|
                0 <= i < page.items.len() && (#[trigger] page.items[i]).key == Some(key),
    }
}

/// The order of keys is transitive.
pub proof fn lemma_before_transitive(a: Seq<char>, b: Seq<char>, c: Seq<char>)
    requires
        before(a, b),
        before(b, c),
    ensures
        before(a, c),
    decreases a.len(),
{
    if a.len() > 0 && a[0] == b[0] && b[0] == c[0] {
        lemma_before_transitive(a.drop_first(), b.drop_first(), c.drop_first());
    }
}

/// No key comes before itself.
pub proof fn lemma_before_irreflexive(a: Seq<char>)
    ensures
        !before(a, a),
    decreases a.len(),
{
    if a.len() > 0 {
        lemma_before_irreflexive(a.drop_first());
    }
}

/// Whether `rows` hold what `write` leaves under its key.
pub open spec fn landed(rows: Rows, write: WriteView) -> bool {
    match write {
        WriteView::Put { item, .. } => rows.dom().contains((write.store_id(), write.key()))
            && rows[(write.store_id(), write.key())] == row_of(item),
        WriteView::Delete { store_id, key, .. } => !rows.dom().contains((store_id, key)),
    }
}

/// Whether one of `writes` is about the row under `store_id` and `key`.
pub open spec fn touched(writes: Seq<WriteView>, store_id: Seq<char>, key: Seq<char>) -> bool {
    exists|i: int|
        0 <= i < writes.len() && (#[trigger] writes[i]).store_id() == store_id && writes[i].key()
            == key
}

/// Once the writes of a transaction that the table takes have taken effect,
/// the rows hold what each of them leaves, and every row that none of them
/// is about is as it was.
pub proof fn lemma_applied_all(rows: Rows, writes: Seq<WriteView>)
    requires
        forall|i: int, j: int|
            0 <= i < j < writes.len() ==> !((#[trigger] writes[i]).store_id() == (
            #[trigger] writes[j]).store_id() && writes[i].key() == writes[j].key()),
    ensures
        forall|i: int|
            0 <= i < writes.len() ==> landed(applied_all(rows, writes), #[trigger] writes[i]),
        forall|store_id: Seq<char>, key: Seq<char>|
            !touched(writes, store_id, key) ==> (#[trigger] applied_all(rows, writes).dom().contains(
                (store_id, key),
            )) == rows.dom().contains((store_id, key)) && applied_all(rows, writes)[(
                store_id,
                key,
            )] == rows[(store_id, key)],
    decreases writes.len(),
{
    if writes.len() > 0 {
        let earlier = writes.drop_last();
        let last = writes.last();
        let n = writes.len() - 1;
        assert forall|i: int, j: int| 0 <= i < j < earlier.len() implies !((
        #[trigger] earlier[i]).store_id() == (#[trigger] earlier[j]).store_id() && earlier[i].key()
            == earlier[j].key()) by {
            assert(earlier[i] == writes[i] && earlier[j] == writes[j]);
        }
        lemma_applied_all(rows, earlier);
        let before_last = applied_all(rows, earlier);
        let after = applied_all(rows, writes);
        assert(after == applied(before_last, last));
        assert forall|i: int| 0 <= i < writes.len() implies landed(after, #[trigger] writes[i]) by {
            if i < n {
                assert(earlier[i] == writes[i]);
                assert(landed(before_last, earlier[i]));
                assert(!(writes[i].store_id() == writes[n].store_id() && writes[i].key()
                    == writes[n].key()));
            }
        }
        assert forall|store_id: Seq<char>, key: Seq<char>|
            !touched(writes, store_id, key) implies (#[trigger] after.dom().contains(
            (store_id, key),
        )) == rows.dom().contains((store_id, key)) && after[(store_id, key)] == rows[(
            store_id,
            key,
        )] by {
            assert(!(writes[n].store_id() == store_id && writes[n].key() == key));
            if touched(earlier, store_id, key) {
                let i = choose|i: int|
                    0 <= i < earlier.len() && (#[trigger] earlier[i]).store_id() == store_id
                        && earlier[i].key() == key;
                assert(writes[i] == earlier[i]);
            }
            assert(before_last.dom().contains((store_id, key)) == rows.dom().contains(
                (store_id, key),
            ));
        }
    }
}

} // verus!
