//! What the store asks of the table, and what the table may answer.
//!
//! The table is keyed by `store_id` and `key`, and a row carries the
//! attributes `value` and `version` beside them.

use vstd::prelude::*;

verus! {

/// Name of the table that holds every store.
pub const TABLE: &'static str = "VSS";

/// Attribute that names the store: the table's partition key.
pub const STORE_ID: &'static str = "store_id";

/// Attribute that names the record within its store: the table's sort key.
pub const KEY: &'static str = "key";

/// Attribute that holds a record's bytes.
pub const VALUE: &'static str = "value";

/// Attribute that holds a record's version.
pub const VERSION: &'static str = "version";

/// Placeholder that a condition uses for the expected version.
pub const EXPECTED: &'static str = ":v";

/// What must hold of the row under a key for a write to it to go through.
#[derive(Clone, Copy, Debug, PartialEq, Eq, Structural)]
pub enum Precondition {
    /// Nothing: the write goes through whatever is there.
    Always,
    /// A row is there and its version is the given one.
    VersionEquals(i64),
    /// No row is there, or its version is the given one.
    AbsentOrVersionEquals(i64),
}

impl Precondition {
    /// Whether the condition holds where `current` is the version of the row
    /// under the key, `None` where there is no row.
    pub open spec fn admits(self, current: Option<int>) -> bool {
        match self {
            Precondition::Always => true,
            Precondition::VersionEquals(n) => current == Some(n as int),
            Precondition::AbsentOrVersionEquals(n) => current is None || current == Some(
                n as int,
            ),
        }
    }

    /// The version that the condition compares with, if it compares.
    pub open spec fn expected(self) -> Option<i64> {
        match self {
            Precondition::Always => None,
            Precondition::VersionEquals(n) => Some(n),
            Precondition::AbsentOrVersionEquals(n) => Some(n),
        }
    }

    /// The number to bind to [`EXPECTED`] in the condition's text, `None`
    /// where the condition compares with none.
    pub fn operand(&self) -> (r: Option<Attribute>)
        ensures
            match self.expected() {
                Some(version) => r matches Some(Attribute::N(digits)) && number_of(digits@)
                    == Some(version),
                None => r is None,
            },
    {
        match self {
            Precondition::Always => None,
            Precondition::VersionEquals(n) => Some(Attribute::N(number_text(*n))),
            Precondition::AbsentOrVersionEquals(n) => Some(Attribute::N(number_text(*n))),
        }
    }

    /// The condition in the table's expression language, `None` where there
    /// is nothing to check. A row is absent exactly where it has no
    /// partition key.
    pub fn expression(&self) -> (r: Option<&'static str>)
        ensures
            match *self {
                Precondition::Always => r is None,
                Precondition::VersionEquals(_) => r matches Some(e) && e@ == "version = :v"@,
                Precondition::AbsentOrVersionEquals(_) => r matches Some(e) && e@
                    == "attribute_not_exists(store_id) OR version = :v"@,
            },
    {
        match self {
            Precondition::Always => None,
            Precondition::VersionEquals(_) => Some("version = :v"),
            Precondition::AbsentOrVersionEquals(_) => Some(
                "attribute_not_exists(store_id) OR version = :v",
            ),
        }
    }
}

/// The value of one attribute of a row.
#[derive(Clone, Debug, PartialEq, Eq)]
pub enum Attribute {
    /// A text.
    S(String),
    /// A number, in the digits that the table keeps it in.
    N(String),
    /// Bytes.
    B(Vec<u8>),
    /// A value of a type that the store does not read.
    Other,
}

/// What an [`Attribute`] holds.
pub enum AttributeView {
    S(Seq<char>),
    N(Seq<char>),
    B(Seq<u8>),
    Other,
}

impl View for Attribute {
    type V = AttributeView;

    open spec fn view(&self) -> AttributeView {
        match self {
            Attribute::S(text) => AttributeView::S(text@),
            Attribute::N(digits) => AttributeView::N(digits@),
            Attribute::B(bytes) => AttributeView::B(bytes@),
            Attribute::Other => AttributeView::Other,
        }
    }
}

/// One attribute of a row: its name and its value.
#[derive(Clone, Debug, PartialEq, Eq)]
pub struct Named {
    pub name: String,
    pub value: Attribute,
}

/// What a [`Named`] holds.
pub struct NamedView {
    pub name: Seq<char>,
    pub value: AttributeView,
}

impl View for Named {
    type V = NamedView;

    open spec fn view(&self) -> NamedView {
        NamedView { name: self.name@, value: self.value@ }
    }
}

/// What a list of attributes holds, in order.
pub open spec fn named_of(attributes: Seq<Named>) -> Seq<NamedView> {
    Seq::new(attributes.len(), |i: int| attributes[i]@)
}

/// The value of the first of `attributes` that is called `name`.
pub open spec fn lookup(attributes: Seq<NamedView>, name: Seq<char>) -> Option<AttributeView>
    decreases attributes.len(),
{
    if attributes.len() == 0 {
        None
    } else if attributes[0].name == name {
        Some(attributes[0].value)
    } else {
        lookup(attributes.drop_first(), name)
    }
}

/// The number that `str::parse::<i64>` reads from `text`, `None` where it
/// reads none.
pub uninterp spec fn number_of(text: Seq<char>) -> Option<i64>;

/// `str::parse::<i64>`, without its error: what it reads depends on the
/// text alone, and [`number_of`] is the name of it.
#[verifier::external_body]
fn parse_number(digits: &str) -> (r: Option<i64>)
    ensures
        r == number_of(digits@),
{
    digits.parse::<i64>().ok()
}

/// `i64::to_string`: the decimal digits of `number`, with `-` before them
/// where it is negative. All that is claimed of them is that
/// `str::parse::<i64>` reads `number` from them again.
#[verifier::external_body]
fn number_text(number: i64) -> (r: String)
    ensures
        number_of(r@) == Some(number),
{
    number.to_string()
}

/// The text under `name`, `None` where no attribute is called so or the
/// first that is holds no text.
pub open spec fn text_at(attributes: Seq<NamedView>, name: Seq<char>) -> Option<Seq<char>> {
    match lookup(attributes, name) {
        Some(AttributeView::S(text)) => Some(text),
        _ => None,
    }
}

/// The bytes under `name`, `None` where no attribute is called so or the
/// first that is holds no bytes.
pub open spec fn bytes_at(attributes: Seq<NamedView>, name: Seq<char>) -> Option<Seq<u8>> {
    match lookup(attributes, name) {
        Some(AttributeView::B(bytes)) => Some(bytes),
        _ => None,
    }
}

/// The number under `name`, `None` where no attribute is called so or the
/// first that is holds no number of 64 bits.
pub open spec fn number_at(attributes: Seq<NamedView>, name: Seq<char>) -> Option<i64> {
    match lookup(attributes, name) {
        Some(AttributeView::N(digits)) => number_of(digits),
        _ => None,
    }
}

/// A row: its attributes by name.
#[derive(Clone, Debug, PartialEq, Eq, Default)]
pub struct Item {
    pub attributes: Vec<Named>,
}

/// What the store reads in an [`Item`]: the row's store, key, bytes and
/// version, each `None` where the row lacks the attribute or holds it in
/// another type.
pub struct ItemView {
    pub store_id: Option<Seq<char>>,
    pub key: Option<Seq<char>>,
    pub value: Option<Seq<u8>>,
    pub version: Option<i64>,
}

impl View for Item {
    type V = ItemView;

    open spec fn view(&self) -> ItemView {
        ItemView {
            store_id: text_at(named_of(self.attributes@), STORE_ID@),
            key: text_at(named_of(self.attributes@), KEY@),
            value: bytes_at(named_of(self.attributes@), VALUE@),
            version: number_at(named_of(self.attributes@), VERSION@),
        }
    }
}

/// Whether `item` is the row of store `store_id` that holds `value` at
/// `version` under `key`, as the store writes it: the attributes `store_id`,
/// `key`, `value` and `version`, in this order, the version in digits that
/// stand for it.
pub open spec fn is_row(
    item: Item,
    store_id: Seq<char>,
    key: Seq<char>,
    value: Seq<u8>,
    version: i64,
) -> bool {
    &&& item.attributes.len() == 4
    &&& item.attributes[0]@ == (NamedView { name: STORE_ID@, value: AttributeView::S(store_id) })
    &&& item.attributes[1]@ == (NamedView { name: KEY@, value: AttributeView::S(key) })
    &&& item.attributes[2]@ == (NamedView { name: VALUE@, value: AttributeView::B(value) })
    &&& item.attributes[3]@.name == VERSION@
    &&& item.attributes[3]@.value matches AttributeView::N(digits) && number_of(digits) == Some(
        version,
    )
}

/// Whether `item` is what names the row under `key` in store `store_id`:
/// the attributes `store_id` and `key`, in this order.
pub open spec fn is_naming(item: Item, store_id: Seq<char>, key: Seq<char>) -> bool {
    &&& item.attributes.len() == 2
    &&& item.attributes[0]@ == (NamedView { name: STORE_ID@, value: AttributeView::S(store_id) })
    &&& item.attributes[1]@ == (NamedView { name: KEY@, value: AttributeView::S(key) })
}

/// A copy of `bytes`.
fn copy_bytes(bytes: &Vec<u8>) -> (r: Vec<u8>)
    ensures
        r@ == bytes@,
{
    let mut r: Vec<u8> = Vec::new();
    let mut i: usize = 0;
    while i < bytes.len()
        invariant
            i <= bytes.len(),
            r@ == bytes@.take(i as int),
        decreases bytes.len() - i,
    {
        r.push(bytes[i]);
        i += 1;
    }
    r
}

impl Item {
    /// The row of store `store_id` that holds `value` at `version` under
    /// `key`: the four attributes in this order.
    pub fn new(store_id: &str, key: &str, value: &Vec<u8>, version: i64) -> (item: Item)
        ensures
            item@ == (ItemView {
                store_id: Some(store_id@),
                key: Some(key@),
                value: Some(value@),
                version: Some(version),
            }),
            is_row(item, store_id@, key@, value@, version),
    {
        let mut attributes: Vec<Named> = Vec::new();
        attributes.push(
            Named { name: STORE_ID.to_owned(), value: Attribute::S(store_id.to_owned()) },
        );
        attributes.push(Named { name: KEY.to_owned(), value: Attribute::S(key.to_owned()) });
        attributes.push(Named { name: VALUE.to_owned(), value: Attribute::B(copy_bytes(value)) });
        attributes.push(
            Named { name: VERSION.to_owned(), value: Attribute::N(number_text(version)) },
        );
        let item = Item { attributes };
        proof {
            reveal_strlit("store_id");
            reveal_strlit("key");
            reveal_strlit("value");
            reveal_strlit("version");
            let all = named_of(item.attributes@);
            assert(STORE_ID@.len() == 8 && KEY@.len() == 3 && VALUE@.len() == 5 && VERSION@.len()
                == 7);
            let rest1 = all.drop_first();
            let rest2 = rest1.drop_first();
            let rest3 = rest2.drop_first();
            assert(all[0].name == STORE_ID@);
            assert(rest1[0].name == KEY@);
            assert(rest2[0].name == VALUE@);
            assert(rest3[0].name == VERSION@);
            assert(lookup(all, STORE_ID@) == Some(all[0].value));
            assert(lookup(rest1, KEY@) == Some(rest1[0].value));
            assert(lookup(all, KEY@) == lookup(rest1, KEY@));
            assert(lookup(rest2, VALUE@) == Some(rest2[0].value));
            assert(lookup(rest1, VALUE@) == lookup(rest2, VALUE@));
            assert(lookup(all, VALUE@) == lookup(rest1, VALUE@));
            assert(lookup(rest3, VERSION@) == Some(rest3[0].value));
            assert(lookup(rest2, VERSION@) == lookup(rest3, VERSION@));
            assert(lookup(rest1, VERSION@) == lookup(rest2, VERSION@));
            assert(lookup(all, VERSION@) == lookup(rest1, VERSION@));
        }
        item
    }

    /// What names the row under `key` in store `store_id`: the attributes
    /// `store_id` and `key`, in this order.
    pub fn naming(store_id: &str, key: &str) -> (item: Item)
        ensures
            item@ == (ItemView {
                store_id: Some(store_id@),
                key: Some(key@),
                value: None,
                version: None,
            }),
            is_naming(item, store_id@, key@),
    {
        let mut attributes: Vec<Named> = Vec::new();
        attributes.push(
            Named { name: STORE_ID.to_owned(), value: Attribute::S(store_id.to_owned()) },
        );
        attributes.push(Named { name: KEY.to_owned(), value: Attribute::S(key.to_owned()) });
        let item = Item { attributes };
        proof {
            reveal_strlit("store_id");
            reveal_strlit("key");
            reveal_strlit("value");
            reveal_strlit("version");
            let all = named_of(item.attributes@);
            assert(STORE_ID@.len() == 8 && KEY@.len() == 3 && VALUE@.len() == 5 && VERSION@.len()
                == 7);
            let rest1 = all.drop_first();
            let rest2 = rest1.drop_first();
            assert(all[0].name == STORE_ID@);
            assert(rest1[0].name == KEY@);
            assert(rest2.len() == 0);
            assert(lookup(all, STORE_ID@) == Some(all[0].value));
            assert(lookup(rest1, KEY@) == Some(rest1[0].value));
            assert(lookup(all, KEY@) == lookup(rest1, KEY@));
            assert(lookup(rest1, VALUE@) == lookup(rest2, VALUE@));
            assert(lookup(all, VALUE@) == lookup(rest1, VALUE@));
            assert(lookup(rest1, VERSION@) == lookup(rest2, VERSION@));
            assert(lookup(all, VERSION@) == lookup(rest1, VERSION@));
        }
        item
    }

    /// The value of the first attribute that is called `name`.
    pub fn attribute(&self, name: &str) -> (r: Option<&Attribute>)
        ensures
            match r {
                Some(value) => lookup(named_of(self.attributes@), name@) == Some(value@),
                None => lookup(named_of(self.attributes@), name@) is None,
            },
    {
        let wanted: String = name.to_owned();
        let ghost all = named_of(self.attributes@);
        let mut i: usize = 0;
        assert(all.skip(0) =~= all);
        while i < self.attributes.len()
            invariant
                i <= self.attributes.len(),
                wanted@ == name@,
                all == named_of(self.attributes@),
                lookup(all, name@) == lookup(all.skip(i as int), name@),
            decreases self.attributes.len() - i,
        {
            assert(all.skip(i as int)[0] == all[i as int]);
            assert(all.skip(i as int).drop_first() =~= all.skip(i + 1));
            if self.attributes[i].name == wanted {
                return Some(&self.attributes[i].value);
            }
            i += 1;
        }
        assert(all.skip(i as int).len() == 0);
        None
    }

    /// The store that the row belongs to.
    pub fn store_id(&self) -> (r: Option<String>)
        ensures
            crate::types::text_of(r) == self@.store_id,
    {
        match self.attribute(STORE_ID) {
            Some(Attribute::S(text)) => Some(text.clone()),
            _ => None,
        }
    }

    /// The key of the row.
    pub fn key(&self) -> (r: Option<String>)
        ensures
            crate::types::text_of(r) == self@.key,
    {
        match self.attribute(KEY) {
            Some(Attribute::S(text)) => Some(text.clone()),
            _ => None,
        }
    }

    /// The bytes of the row.
    pub fn value(&self) -> (r: Option<Vec<u8>>)
        ensures
            match r {
                Some(bytes) => self@.value == Some(bytes@),
                None => self@.value is None,
            },
    {
        match self.attribute(VALUE) {
            Some(Attribute::B(bytes)) => Some(copy_bytes(bytes)),
            _ => None,
        }
    }

    /// The version of the row.
    pub fn version(&self) -> (r: Option<i64>)
        ensures
            r == self@.version,
    {
        match self.attribute(VERSION) {
            Some(Attribute::N(digits)) => parse_number(digits.as_str()),
            _ => None,
        }
    }
}

/// A point read of the row under `store_id` and `key`.
#[derive(Clone, Debug, PartialEq, Eq)]
pub struct GetItem {
    pub store_id: String,
    pub key: String,
    /// Whether the read must see every write that was acknowledged before it.
    pub consistent_read: bool,
}

/// One write of a transaction.
#[derive(Clone, Debug, PartialEq, Eq)]
pub enum WriteItem {
    /// Put `item` under its store and key, replacing what is there.
    Put { item: Item, condition: Precondition },
    /// Remove the row under `store_id` and `key`.
    Delete { store_id: String, key: String, condition: Precondition },
}

/// What a [`WriteItem`] holds.
pub enum WriteView {
    Put { item: ItemView, condition: Precondition },
    Delete { store_id: Seq<char>, key: Seq<char>, condition: Precondition },
}

impl View for WriteItem {
    type V = WriteView;

    open spec fn view(&self) -> WriteView {
        match self {
            WriteItem::Put { item, condition } => WriteView::Put {
                item: item@,
                condition: *condition,
            },
            WriteItem::Delete { store_id, key, condition } => WriteView::Delete {
                store_id: store_id@,
                key: key@,
                condition: *condition,
            },
        }
    }
}

impl WriteView {
    /// The store that the write belongs to.
    pub open spec fn store_id(self) -> Seq<char> {
        match self {
            WriteView::Put { item, .. } => match item.store_id {
                Some(store_id) => store_id,
                None => Seq::empty(),
            },
            WriteView::Delete { store_id, .. } => store_id,
        }
    }

    /// The key that the write is about.
    pub open spec fn key(self) -> Seq<char> {
        match self {
            WriteView::Put { item, .. } => match item.key {
                Some(key) => key,
                None => Seq::empty(),
            },
            WriteView::Delete { key, .. } => key,
        }
    }

    /// What must hold under the key for the write to go through.
    pub open spec fn condition(self) -> Precondition {
        match self {
            WriteView::Put { condition, .. } => condition,
            WriteView::Delete { condition, .. } => condition,
        }
    }
}

/// What a list of writes holds, in order.
pub open spec fn writes_of(items: Seq<WriteItem>) -> Seq<WriteView> {
    Seq::new(items.len(), |i: int| items[i]@)
}

/// The removal of the row under `store_id` and `key`, by itself.
#[derive(Clone, Debug, PartialEq, Eq)]
pub struct DeleteItem {
    pub store_id: String,
    pub key: String,
    pub condition: Precondition,
}

/// A walk over the rows of one store in ascending order of their keys.
#[derive(Clone, Debug, PartialEq, Eq)]
pub struct Query {
    pub store_id: String,
    /// Only keys that begin with this are wanted.
    pub key_prefix: Option<String>,
    /// Only keys after this one are wanted.
    pub exclusive_start_key: Option<String>,
}

/// Placeholder that a walk uses for the store's name.
pub const STORE_ID_VALUE: &'static str = ":storeIdVal";

/// Placeholder that a walk uses for the prefix.
pub const KEY_PREFIX_VALUE: &'static str = ":keyPrefixVal";

/// Placeholder that a walk uses for the name of the sort key, which is a
/// reserved word of the table's expression language.
pub const KEY_NAME: &'static str = "#key";

impl Query {
    /// The rows to walk over, in the table's expression language: those of
    /// the store, and under a prefix those whose key begins with it.
    pub fn key_condition(&self) -> (r: &'static str)
        ensures
            self.key_prefix is Some ==> r@
                == "store_id = :storeIdVal and begins_with(#key, :keyPrefixVal)"@,
            self.key_prefix is None ==> r@ == "store_id = :storeIdVal"@,
    {
        match &self.key_prefix {
            Some(_) => "store_id = :storeIdVal and begins_with(#key, :keyPrefixVal)",
            None => "store_id = :storeIdVal",
        }
    }

    /// What the placeholders of [`Query::key_condition`] stand for: the
    /// store's name, and under a prefix the prefix after it.
    pub fn expression_values(&self) -> (r: Vec<Named>)
        ensures
            r.len() == (if self.key_prefix is Some {
                2int
            } else {
                1int
            }),
            r[0]@ == (NamedView { name: STORE_ID_VALUE@, value: AttributeView::S(self.store_id@) }),
            self.key_prefix matches Some(prefix) ==> r[1]@ == (NamedView {
                name: KEY_PREFIX_VALUE@,
                value: AttributeView::S(prefix@),
            }),
    {
        let mut values: Vec<Named> = Vec::new();
        values.push(
            Named { name: STORE_ID_VALUE.to_owned(), value: Attribute::S(self.store_id.clone()) },
        );
        match &self.key_prefix {
            Some(prefix) => {
                values.push(
                    Named { name: KEY_PREFIX_VALUE.to_owned(), value: Attribute::S(prefix.clone()) },
                );
            },
            None => {},
        }
        values
    }

    /// The attribute that [`KEY_NAME`] stands for in
    /// [`Query::key_condition`], `None` where the condition does not use it.
    pub fn expression_name(&self) -> (r: Option<(String, String)>)
        ensures
            match self.key_prefix {
                Some(_) => r matches Some(pair) && pair.0@ == KEY_NAME@ && pair.1@ == KEY@,
                None => r is None,
            },
    {
        match &self.key_prefix {
            Some(_) => Some((KEY_NAME.to_owned(), KEY.to_owned())),
            None => None,
        }
    }

    /// What names the row to go on after, `None` where the walk starts at
    /// the first row.
    pub fn start(&self) -> (r: Option<Item>)
        ensures
            match self.exclusive_start_key {
                Some(key) => r matches Some(item) && item@ == (ItemView {
                    store_id: Some(self.store_id@),
                    key: Some(key@),
                    value: None,
                    version: None,
                }) && is_naming(item, self.store_id@, key@),
                None => r is None,
            },
    {
        match &self.exclusive_start_key {
            Some(key) => Some(Item::naming(self.store_id.as_str(), key.as_str())),
            None => None,
        }
    }
}

/// What a [`Query`] holds.
pub struct QueryView {
    pub store_id: Seq<char>,
    pub key_prefix: Option<Seq<char>>,
    pub exclusive_start_key: Option<Seq<char>>,
}

impl View for Query {
    type V = QueryView;

    open spec fn view(&self) -> QueryView {
        QueryView {
            store_id: self.store_id@,
            key_prefix: match self.key_prefix {
                Some(p) => Some(p@),
                None => None,
            },
            exclusive_start_key: match self.exclusive_start_key {
                Some(k) => Some(k@),
                None => None,
            },
        }
    }
}

/// One page of a walk.
#[derive(Clone, Debug, PartialEq, Eq, Default)]
pub struct Page {
    pub items: Vec<Item>,
    /// The last row that the table looked at, where rows may be left.
    pub last_evaluated_key: Option<Item>,
}

/// What a [`Page`] holds.
pub struct PageView {
    pub items: Seq<ItemView>,
    pub last_evaluated_key: Option<ItemView>,
}

impl View for Page {
    type V = PageView;

    open spec fn view(&self) -> PageView {
        PageView {
            items: Seq::new(self.items@.len(), |i: int| self.items@[i]@),
            last_evaluated_key: match self.last_evaluated_key {
                Some(k) => Some(k@),
                None => None,
            },
        }
    }
}

/// Why the table did not do what it was asked.
#[derive(Clone, Debug, PartialEq, Eq)]
pub enum Fault {
    /// The condition of a single write did not hold.
    ConditionFailed,
    /// A transaction was cancelled; one code for each of its writes, in order.
    Canceled(Vec<String>),
    /// Anything else.
    Other,
}

/// What a list of texts holds, in order.
pub open spec fn texts_of(items: Seq<String>) -> Seq<Seq<char>> {
    Seq::new(items.len(), |i: int| items[i]@)
}

/// What a [`Fault`] holds.
pub enum FaultView {
    ConditionFailed,
    Canceled(Seq<Seq<char>>),
    Other,
}

impl View for Fault {
    type V = FaultView;

    open spec fn view(&self) -> FaultView {
        match self {
            Fault::ConditionFailed => FaultView::ConditionFailed,
            Fault::Canceled(codes) => FaultView::Canceled(texts_of(codes@)),
            Fault::Other => FaultView::Other,
        }
    }
}

/// The code that a cancelled transaction gives for a write whose condition
/// did not hold.
pub const CONDITION_FAILED: &'static str = "ConditionalCheckFailed";

/// The code that a cancelled transaction gives for a write that was not at
/// fault.
pub const NOT_AT_FAULT: &'static str = "None";

impl FaultView {
    /// Whether the fault says that the condition of a write did not hold.
    pub open spec fn is_conflict(self) -> bool {
        match self {
            FaultView::ConditionFailed => true,
            FaultView::Canceled(codes) => codes.contains(CONDITION_FAILED@),
            FaultView::Other => false,
        }
    }
}

} // verus!
