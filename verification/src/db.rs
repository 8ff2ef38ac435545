//! The launcher's store: the classification, item and setting tables, and
//! every query and change the launcher makes on them. Persistence (SQLite)
//! stands outside: it loads the rows with [`Database::from_rows`] and saves
//! what [`Database::classification_rows`], [`Database::item_rows`] and
//! [`Database::setting_rows`] hold.

use vstd::prelude::*;
use crate::decimal::{decimal_seq, format_i64, parse_i64, parse_i64_seq};
use crate::models::{
    Classification, ClassificationView, Item, ItemView, classification_views, item_views,
};
use crate::ordering::{
    ItemOrder, is_sorted_classification_listing, is_sorted_listing, lemma_filter_take_step,
    sort_classifications, sort_items,
};
use crate::pattern::{like_match, like_matches};
use crate::paths::{
    absolute_choice, absolute_eligible, canonical_ok, joined_path_text, outcomes_ok, make_absolute_path, make_relative_path,
    opt_text_of, relative_target,
};
use crate::text::{str_chars, trim_chars, trim_seq};

verus! {

broadcast use vstd::string::group_string_axioms;

/// A row of the settings table: a key and its value.
pub struct Setting {
    pub key: String,
    pub value: String,
}

impl View for Setting {
    type V = (Seq<char>, Seq<char>);

    open spec fn view(&self) -> (Seq<char>, Seq<char>) {
        (self.key@, self.value@)
    }
}

/// Errors of the store.
#[derive(Debug, Clone, Copy, PartialEq, Eq)]
pub enum DbError {
    /// The row asked for does not exist.
    NotFound,
    /// No further row id can be handed out.
    IdSpaceExhausted,
}

/// The text an error reads as (the messages SQLite gives for a missing row
/// and for a table that can take no more rows).
pub open spec fn db_error_text(e: DbError) -> Seq<char> {
    match e {
        DbError::NotFound => "Query returned no rows"@,
        DbError::IdSpaceExhausted => "database or disk is full"@,
    }
}

impl DbError {
    /// The text this error reads as.
    pub fn message(&self) -> (r: String)
        ensures
            r@ == db_error_text(*self),
    {
        match self {
            DbError::NotFound => String::from_str("Query returned no rows"),
            DbError::IdSpaceExhausted => String::from_str("database or disk is full"),
        }
    }
}

/// The mathematical state of the store.
#[verifier::ext_equal]
pub struct DbState {
    pub classifications: Seq<ClassificationView>,
    pub items: Seq<ItemView>,
    pub settings: Seq<(Seq<char>, Seq<char>)>,
    /// The id the next new classification gets (ids are never reused).
    pub next_classification_id: int,
    /// The id the next new item gets (ids are never reused).
    pub next_item_id: int,
}

pub open spec fn item_ids_unique(s: Seq<ItemView>) -> bool {
    forall|i: int, j: int| 0 <= i < j < s.len() ==> (#[trigger] s[i]).id != (#[trigger] s[j]).id
}

pub open spec fn classification_ids_unique(s: Seq<ClassificationView>) -> bool {
    forall|i: int, j: int| 0 <= i < j < s.len() ==> (#[trigger] s[i]).id != (#[trigger] s[j]).id
}

pub open spec fn setting_keys_unique(s: Seq<(Seq<char>, Seq<char>)>) -> bool {
    forall|i: int, j: int| 0 <= i < j < s.len() ==> (#[trigger] s[i]).0 != (#[trigger] s[j]).0
}

/// Well-formed state: ids and keys are unique, and every id is below the
/// next id to hand out.
pub open spec fn state_wf(s: DbState) -> bool {
    &&& item_ids_unique(s.items)
    &&& classification_ids_unique(s.classifications)
    &&& setting_keys_unique(s.settings)
    &&& forall|i: int| 0 <= i < s.items.len() ==> (#[trigger] s.items[i]).id < s.next_item_id
    &&& forall|i: int| 0 <= i < s.classifications.len() ==> (
    #[trigger] s.classifications[i]).id < s.next_classification_id
    &&& 1 <= s.next_item_id <= i64::MAX
    &&& 1 <= s.next_classification_id <= i64::MAX
}

// ---------------------------------------------------------------- lookups

/// The item with id `id`, if any.
pub open spec fn find_item(s: DbState, id: i64) -> Option<ItemView> {
    if exists|i: int| 0 <= i < s.items.len() && (#[trigger] s.items[i]).id == id {
        Some(s.items[choose|i: int| 0 <= i < s.items.len() && (#[trigger] s.items[i]).id == id])
    } else {
        None
    }
}

/// The classification with id `id`, if any.
pub open spec fn find_classification(s: DbState, id: i64) -> Option<ClassificationView> {
    if exists|i: int| 0 <= i < s.classifications.len() && (#[trigger] s.classifications[i]).id == id {
        Some(
            s.classifications[choose|i: int|
                0 <= i < s.classifications.len() && (#[trigger] s.classifications[i]).id == id],
        )
    } else {
        None
    }
}

/// The value stored under `key`, if any.
pub open spec fn setting_value(s: DbState, key: Seq<char>) -> Option<Seq<char>> {
    if exists|i: int| 0 <= i < s.settings.len() && (#[trigger] s.settings[i]).0 == key {
        Some(
            s.settings[choose|i: int|
                0 <= i < s.settings.len() && (#[trigger] s.settings[i]).0 == key].1,
        )
    } else {
        None
    }
}

pub proof fn lemma_find_item_at(s: DbState, id: i64, i: int)
    requires
        item_ids_unique(s.items),
        0 <= i < s.items.len(),
        s.items[i].id == id,
    ensures
        find_item(s, id) == Some(s.items[i]),
{
    let j = choose|j: int| 0 <= j < s.items.len() && (#[trigger] s.items[j]).id == id;
    if j < i {
        assert(s.items[j].id != s.items[i].id);
    } else if j > i {
        assert(s.items[i].id != s.items[j].id);
    }
}

pub proof fn lemma_find_classification_at(s: DbState, id: i64, i: int)
    requires
        classification_ids_unique(s.classifications),
        0 <= i < s.classifications.len(),
        s.classifications[i].id == id,
    ensures
        find_classification(s, id) == Some(s.classifications[i]),
{
    let j = choose|j: int|
        0 <= j < s.classifications.len() && (#[trigger] s.classifications[j]).id == id;
    if j < i {
        assert(s.classifications[j].id != s.classifications[i].id);
    } else if j > i {
        assert(s.classifications[i].id != s.classifications[j].id);
    }
}

pub proof fn lemma_setting_value_at(s: DbState, key: Seq<char>, i: int)
    requires
        setting_keys_unique(s.settings),
        0 <= i < s.settings.len(),
        s.settings[i].0 == key,
    ensures
        setting_value(s, key) == Some(s.settings[i].1),
{
    let j = choose|j: int| 0 <= j < s.settings.len() && (#[trigger] s.settings[j]).0 == key;
    if j < i {
        assert(s.settings[j].0 != s.settings[i].0);
    } else if j > i {
        assert(s.settings[i].0 != s.settings[j].0);
    }
}

// ---------------------------------------------------------------- queries

/// The classification is directly under `parent` (`None`: top level).
pub open spec fn is_under(parent: Option<i64>) -> spec_fn(ClassificationView) -> bool {
    |c: ClassificationView| c.parent_id == parent
}

/// The item belongs to classification `cid`.
pub open spec fn is_in(cid: i64) -> spec_fn(ItemView) -> bool {
    |it: ItemView| it.classification_id == cid
}

/// Classifications directly under `parent` (`None`: top-level ones), in
/// table order.
pub open spec fn classifications_under(s: DbState, parent: Option<i64>) -> Seq<ClassificationView> {
    s.classifications.filter(is_under(parent))
}

/// Top-level classifications (no parent), in table order.
pub open spec fn parent_classifications(s: DbState) -> Seq<ClassificationView> {
    classifications_under(s, None)
}

/// Classifications whose parent is `parent_id`, in table order.
pub open spec fn child_classifications(s: DbState, parent_id: i64) -> Seq<ClassificationView> {
    classifications_under(s, Some(parent_id))
}

/// Items of classification `cid`, in table order.
pub open spec fn items_of(s: DbState, cid: i64) -> Seq<ItemView> {
    s.items.filter(is_in(cid))
}

pub open spec fn word_initial() -> Seq<char> {
    seq!['i', 'n', 'i', 't', 'i', 'a', 'l']
}

pub open spec fn word_open_number() -> Seq<char> {
    seq!['o', 'p', 'e', 'n', 'N', 'u', 'm', 'b', 'e', 'r']
}

pub open spec fn word_last_open() -> Seq<char> {
    seq!['l', 'a', 's', 't', 'O', 'p', 'e', 'n']
}

pub open spec fn word_default() -> Seq<char> {
    seq!['d', 'e', 'f', 'a', 'u', 'l', 't']
}

/// The order an `item_sort` setting asks for: `initial` by name,
/// `openNumber` by open count, `lastOpen` by last open time, anything else
/// by the `order` column.
pub open spec fn order_for_sort_word(w: Seq<char>) -> ItemOrder {
    if w == word_initial() {
        ItemOrder::ByName
    } else if w == word_open_number() {
        ItemOrder::ByOpenNumber
    } else if w == word_last_open() {
        ItemOrder::ByLastOpen
    } else {
        ItemOrder::ByOrder
    }
}

/// The order in which the items of classification `cid` are listed: its
/// `item_sort` setting, or the `order` column when it does not exist.
pub open spec fn listing_order(s: DbState, cid: i64) -> ItemOrder {
    match find_classification(s, cid) {
        Some(c) => order_for_sort_word(c.data.item_sort),
        None => ItemOrder::ByOrder,
    }
}

/// The `LIKE` pattern of a search: the trimmed query between two `%`.
pub open spec fn search_pattern(q: Seq<char>) -> Seq<char> {
    seq!['%'] + trim_seq(q) + seq!['%']
}

/// The item's name matches the `LIKE` pattern `p`.
pub open spec fn name_matches(p: Seq<char>) -> spec_fn(ItemView) -> bool {
    |it: ItemView| like_match(p, it.name)
}

/// Items whose name matches the search query `q`, in table order.
pub open spec fn search_hits(s: DbState, q: Seq<char>) -> Seq<ItemView> {
    s.items.filter(name_matches(search_pattern(q)))
}

/// The largest `order` of the items of classification `cid`, if any.
pub open spec fn max_item_order_in(items: Seq<ItemView>, cid: i64) -> Option<i64>
    decreases items.len(),
{
    if items.len() == 0 {
        None
    } else {
        let r = max_item_order_in(items.drop_last(), cid);
        let it = items.last();
        if it.classification_id == cid {
            match r {
                Some(m) => Some(if it.order > m { it.order } else { m }),
                None => Some(it.order),
            }
        } else {
            r
        }
    }
}

/// The largest `order` of the items of `cid`, 0 when it has none.
pub open spec fn max_item_order_of(s: DbState, cid: i64) -> i64 {
    match max_item_order_in(s.items, cid) {
        Some(m) => m,
        None => 0,
    }
}

/// The largest `order` of the classifications under `parent`, if any.
pub open spec fn max_classification_order_in(
    cs: Seq<ClassificationView>,
    parent: Option<i64>,
) -> Option<i64>
    decreases cs.len(),
{
    if cs.len() == 0 {
        None
    } else {
        let r = max_classification_order_in(cs.drop_last(), parent);
        let c = cs.last();
        if c.parent_id == parent {
            match r {
                Some(m) => Some(if c.order > m { c.order } else { m }),
                None => Some(c.order),
            }
        } else {
            r
        }
    }
}

/// The largest `order` of the classifications under `parent`, 0 when there
/// are none.
pub open spec fn max_classification_order_of(s: DbState, parent: Option<i64>) -> i64 {
    match max_classification_order_in(s.classifications, parent) {
        Some(m) => m,
        None => 0,
    }
}

/// The value of setting `key`, or `default` when it is not set.
pub open spec fn setting_or(s: DbState, key: Seq<char>, default: Seq<char>) -> Seq<char> {
    match setting_value(s, key) {
        Some(v) => v,
        None => default,
    }
}

pub open spec fn text_one() -> Seq<char> {
    seq!['1']
}

pub open spec fn text_zero() -> Seq<char> {
    seq!['0']
}

/// A flag setting: stored as `1` (set) or `0`; read as set exactly when the
/// stored text (or the default's text) is `1`.
pub open spec fn setting_flag(s: DbState, key: Seq<char>, default: bool) -> bool {
    setting_or(s, key, if default { text_one() } else { text_zero() }) == text_one()
}

/// A number setting: the stored text parsed as an `i64`, or `default` when
/// it is missing or does not parse.
pub open spec fn setting_number(s: DbState, key: Seq<char>, default: i64) -> i64 {
    match parse_i64_seq(setting_or(s, key, decimal_seq(default as int))) {
        Some(v) => v,
        None => default,
    }
}

/// The target of item `id`, if the item exists and has one.
pub open spec fn item_target(s: DbState, id: i64) -> Option<Seq<char>> {
    match find_item(s, id) {
        Some(it) => it.data.target,
        None => None,
    }
}

/// Whether the item order of classification `cid` is locked (`false` when
/// the classification does not exist).
pub open spec fn classification_locked(s: DbState, cid: i64) -> bool {
    match find_classification(s, cid) {
        Some(c) => c.data.fixed,
        None => false,
    }
}

// ---------------------------------------------------------------- changes

/// `items` with `f` applied to the item whose id is `id`.
pub open spec fn update_items(
    items: Seq<ItemView>,
    id: i64,
    f: spec_fn(ItemView) -> ItemView,
) -> Seq<ItemView> {
    items.map_values(|it: ItemView| if it.id == id { f(it) } else { it })
}

/// `cs` with `f` applied to the classification whose id is `id`.
pub open spec fn update_classifications(
    cs: Seq<ClassificationView>,
    id: i64,
    f: spec_fn(ClassificationView) -> ClassificationView,
) -> Seq<ClassificationView> {
    cs.map_values(|c: ClassificationView| if c.id == id { f(c) } else { c })
}

/// The state with item `id` changed by `f`.
pub open spec fn change_item(s: DbState, id: i64, f: spec_fn(ItemView) -> ItemView) -> DbState {
    DbState { items: update_items(s.items, id, f), ..s }
}

/// The state with classification `id` changed by `f`.
pub open spec fn change_classification(
    s: DbState,
    id: i64,
    f: spec_fn(ClassificationView) -> ClassificationView,
) -> DbState {
    DbState { classifications: update_classifications(s.classifications, id, f), ..s }
}

/// Gives an item the name `name`.
pub open spec fn item_name_set(name: Seq<char>) -> spec_fn(ItemView) -> ItemView {
    |it: ItemView| ItemView { name: name, ..it }
}

/// Gives a classification the name `name`.
pub open spec fn classification_name_set(name: Seq<char>) -> spec_fn(ClassificationView) -> ClassificationView {
    |c: ClassificationView| ClassificationView { name: name, ..c }
}

/// Counts one more open (saturating at `i64::MAX`) and records `now` as
/// the last open time.
pub open spec fn item_opened_at(now: i64) -> spec_fn(ItemView) -> ItemView {
    |it: ItemView|
        ItemView {
            data: crate::models::ItemDataView {
                open_number: if it.data.open_number < i64::MAX {
                    (it.data.open_number + 1) as i64
                } else {
                    it.data.open_number
                },
                last_open: now,
                ..it.data
            },
            ..it
        }
}

/// Gives an item the icon `icon`.
pub open spec fn item_icon_set(icon: Seq<char>) -> spec_fn(ItemView) -> ItemView {
    |it: ItemView| ItemView { data: crate::models::ItemDataView { icon: Some(icon), ..it.data }, ..it }
}

/// Gives an item the target `target`.
pub open spec fn item_target_set(target: Seq<char>) -> spec_fn(ItemView) -> ItemView {
    |it: ItemView|
        ItemView { data: crate::models::ItemDataView { target: Some(target), ..it.data }, ..it }
}

/// Sets a classification's item-order lock.
pub open spec fn classification_lock_set(locked: bool) -> spec_fn(ClassificationView) -> ClassificationView {
    |c: ClassificationView|
        ClassificationView {
            data: crate::models::ClassificationDataView { fixed: locked, ..c.data },
            ..c
        }
}

/// Sets a classification's `item_sort` setting.
pub open spec fn classification_sort_set(mode: Seq<char>) -> spec_fn(ClassificationView) -> ClassificationView {
    |c: ClassificationView|
        ClassificationView {
            data: crate::models::ClassificationDataView { item_sort: mode, ..c.data },
            ..c
        }
}

/// Item renamed.
pub open spec fn renamed_item(s: DbState, id: i64, name: Seq<char>) -> DbState {
    change_item(s, id, item_name_set(name))
}

/// Classification renamed.
pub open spec fn renamed_classification(s: DbState, id: i64, name: Seq<char>) -> DbState {
    change_classification(s, id, classification_name_set(name))
}

/// One more open recorded for item `id`, last opened at `now`.
pub open spec fn opened_item(s: DbState, id: i64, now: i64) -> DbState {
    change_item(s, id, item_opened_at(now))
}

/// Item icon replaced.
pub open spec fn with_item_icon(s: DbState, id: i64, icon: Seq<char>) -> DbState {
    change_item(s, id, item_icon_set(icon))
}

/// Classification's item-order lock set.
pub open spec fn with_classification_locked(s: DbState, id: i64, locked: bool) -> DbState {
    change_classification(s, id, classification_lock_set(locked))
}

/// Classification's `item_sort` setting replaced.
pub open spec fn with_classification_item_sort(s: DbState, id: i64, mode: Seq<char>) -> DbState {
    change_classification(s, id, classification_sort_set(mode))
}

/// The item is kept when its id is not among `ids`.
pub open spec fn id_not_in(ids: Seq<i64>) -> spec_fn(ItemView) -> bool {
    |it: ItemView| !ids.contains(it.id)
}

/// The item is kept when it does not belong to classification `cid`.
pub open spec fn not_in_class(cid: i64) -> spec_fn(ItemView) -> bool {
    |it: ItemView| it.classification_id != cid
}

/// The classification is kept when its id is not `cid`.
pub open spec fn not_class(cid: i64) -> spec_fn(ClassificationView) -> bool {
    |c: ClassificationView| c.id != cid
}

/// Which items a removal keeps: those outside classification `class` when
/// it is given, else those whose id is not in `ids`.
pub open spec fn kept_by(ids: Seq<i64>, class: Option<i64>) -> spec_fn(ItemView) -> bool {
    match class {
        Some(c) => not_in_class(c),
        None => id_not_in(ids),
    }
}

/// The items whose ids are in `ids` removed.
pub open spec fn without_items(s: DbState, ids: Seq<i64>) -> DbState {
    DbState { items: s.items.filter(id_not_in(ids)), ..s }
}

/// Classification `cid` removed together with the items in it.
pub open spec fn without_classification(s: DbState, cid: i64) -> DbState {
    DbState {
        classifications: s.classifications.filter(not_class(cid)),
        items: s.items.filter(not_in_class(cid)),
        ..s
    }
}

/// The row a new item gets: the fields of `it`, the next item id.
pub open spec fn new_item_row(s: DbState, it: ItemView) -> ItemView {
    ItemView { id: s.next_item_id as i64, ..it }
}

/// A new item appended with the next id.
pub open spec fn with_new_item(s: DbState, it: ItemView) -> DbState {
    DbState {
        items: s.items.push(new_item_row(s, it)),
        next_item_id: s.next_item_id + 1,
        ..s
    }
}

/// The extra data of a new classification: layout, sort and filter
/// `default`, everything else empty.
pub open spec fn new_classification_data() -> crate::models::ClassificationDataView {
    crate::models::ClassificationDataView {
        icon: None,
        associate_folder_path: None,
        associate_folder_hidden_items: None,
        item_layout: word_default(),
        item_sort: word_default(),
        item_column_number: None,
        item_icon_size: None,
        item_show_only: word_default(),
        fixed: false,
        aggregate_item_count: 0,
        exclude_search: false,
    }
}

/// The row a new ordinary classification gets.
pub open spec fn new_classification_row(
    s: DbState,
    parent: Option<i64>,
    name: Seq<char>,
    order: i64,
) -> ClassificationView {
    ClassificationView {
        id: s.next_classification_id as i64,
        parent_id: parent,
        name: name,
        kind: 0,
        data: new_classification_data(),
        shortcut_key: None,
        global_shortcut_key: false,
        order: order,
    }
}

/// A new ordinary classification appended with the next id.
pub open spec fn with_new_classification(
    s: DbState,
    parent: Option<i64>,
    name: Seq<char>,
    order: i64,
) -> DbState {
    DbState {
        classifications: s.classifications.push(new_classification_row(s, parent, name, order)),
        next_classification_id: s.next_classification_id + 1,
        ..s
    }
}

/// The name of the classification a new store starts with ("常用", "Common").
pub open spec fn default_classification_name() -> Seq<char> {
    seq!['常', '用']
}

/// A store with no classification gets the default one (order 1); any
/// other store is left alone.
pub open spec fn with_default_data(s: DbState) -> DbState {
    if s.classifications.len() == 0 {
        with_new_classification(s, None, default_classification_name(), 1)
    } else {
        s
    }
}

/// Replaces the value of the pair stored under `key`.
pub open spec fn pair_value_set(key: Seq<char>, value: Seq<char>) -> spec_fn(
    (Seq<char>, Seq<char>),
) -> (Seq<char>, Seq<char>) {
    |p: (Seq<char>, Seq<char>)| if p.0 == key { (key, value) } else { p }
}

/// Setting `key` holds `value` (replaced in place, or appended).
pub open spec fn with_setting(s: DbState, key: Seq<char>, value: Seq<char>) -> DbState {
    if exists|i: int| 0 <= i < s.settings.len() && (#[trigger] s.settings[i]).0 == key {
        DbState { settings: s.settings.map_values(pair_value_set(key, value)), ..s }
    } else {
        DbState { settings: s.settings.push((key, value)), ..s }
    }
}

pub proof fn lemma_update_item_at(
    items: Seq<ItemView>,
    id: i64,
    i: int,
    f: spec_fn(ItemView) -> ItemView,
)
    requires
        item_ids_unique(items),
        0 <= i < items.len(),
        items[i].id == id,
    ensures
        items.update(i, f(items[i])) == update_items(items, id, f),
{
    assert forall|k: int| 0 <= k < items.len() && k != i implies (#[trigger] items[k]).id != id by {
        if k < i {
            assert(items[k].id != items[i].id);
        } else {
            assert(items[i].id != items[k].id);
        }
    }
    assert(items.update(i, f(items[i])) =~= update_items(items, id, f));
}

pub proof fn lemma_update_item_absent(items: Seq<ItemView>, id: i64, f: spec_fn(ItemView) -> ItemView)
    requires
        forall|k: int| 0 <= k < items.len() ==> (#[trigger] items[k]).id != id,
    ensures
        items == update_items(items, id, f),
{
    assert(items =~= update_items(items, id, f));
}

pub proof fn lemma_update_classification_at(
    cs: Seq<ClassificationView>,
    id: i64,
    i: int,
    f: spec_fn(ClassificationView) -> ClassificationView,
)
    requires
        classification_ids_unique(cs),
        0 <= i < cs.len(),
        cs[i].id == id,
    ensures
        cs.update(i, f(cs[i])) == update_classifications(cs, id, f),
{
    assert forall|k: int| 0 <= k < cs.len() && k != i implies (#[trigger] cs[k]).id != id by {
        if k < i {
            assert(cs[k].id != cs[i].id);
        } else {
            assert(cs[i].id != cs[k].id);
        }
    }
    assert(cs.update(i, f(cs[i])) =~= update_classifications(cs, id, f));
}

pub proof fn lemma_update_classification_absent(
    cs: Seq<ClassificationView>,
    id: i64,
    f: spec_fn(ClassificationView) -> ClassificationView,
)
    requires
        forall|k: int| 0 <= k < cs.len() ==> (#[trigger] cs[k]).id != id,
    ensures
        cs == update_classifications(cs, id, f),
{
    assert(cs =~= update_classifications(cs, id, f));
}

/// The extra data of a new classification.
fn new_classification_data_exec() -> (r: crate::models::ClassificationData)
    ensures
        r@ == new_classification_data(),
{
    proof {
        reveal_strlit("default");
        assert("default"@ =~= word_default());
    }
    crate::models::ClassificationData {
        icon: None,
        associate_folder_path: None,
        associate_folder_hidden_items: None,
        item_layout: String::from_str("default"),
        item_sort: String::from_str("default"),
        item_column_number: None,
        item_icon_size: None,
        item_show_only: String::from_str("default"),
        fixed: false,
        aggregate_item_count: 0,
        exclude_search: false,
    }
}

/// `x` occurs in `v`.
fn vec_contains(v: &[i64], x: i64) -> (r: bool)
    ensures
        r == v@.contains(x),
{
    let mut i: usize = 0;
    while i < v.len()
        invariant
            0 <= i <= v@.len(),
            forall|k: int| 0 <= k < i ==> v@[k] != x,
        decreases v@.len() - i,
    {
        if v[i] == x {
            assert(v@[i as int] == x);
            return true;
        }
        i = i + 1;
    }
    false
}

/// The position of the last occurrence of `id` in `ids`, or -1.
pub open spec fn last_position(ids: Seq<i64>, id: i64) -> int
    decreases ids.len(),
{
    if ids.len() == 0 {
        -1
    } else if ids.last() == id {
        ids.len() - 1
    } else {
        last_position(ids.drop_last(), id)
    }
}

/// A batch move applied to one item: an item whose id is in `ids` goes to
/// classification `target` with order `base + k + 1`, `k` being the
/// position of its last occurrence in `ids`.
pub open spec fn item_moved(ids: Seq<i64>, target: i64, base: int) -> spec_fn(ItemView) -> ItemView {
    |it: ItemView|
        {
            let k = last_position(ids, it.id);
            if k >= 0 {
                ItemView { classification_id: target, order: (base + k + 1) as i64, ..it }
            } else {
                it
            }
        }
}

/// The items listed in `ids` moved to classification `target`, numbered
/// after its current largest order in the order of the list.
pub open spec fn moved_items(s: DbState, ids: Seq<i64>, target: i64) -> DbState {
    DbState {
        items: s.items.map_values(item_moved(ids, target, max_item_order_of(s, target) as int)),
        ..s
    }
}

/// A copy of item `id` (if it exists) added to `target` with order
/// `order`; `None` when one is needed and no id is left.
pub open spec fn copy_step(s: DbState, id: i64, target: i64, order: i64) -> Option<DbState> {
    match find_item(s, id) {
        Some(it) => if s.next_item_id == i64::MAX {
            None
        } else {
            Some(with_new_item(s, ItemView { classification_id: target, order: order, ..it }))
        },
        None => Some(s),
    }
}

/// The first `k` steps of a batch copy.
pub open spec fn copied_prefix(s: DbState, ids: Seq<i64>, target: i64, base: int, k: nat) -> Option<
    DbState,
>
    decreases k,
{
    if k == 0 {
        Some(s)
    } else {
        match copied_prefix(s, ids, target, base, (k - 1) as nat) {
            Some(p) => copy_step(p, ids[k - 1], target, (base + k) as i64),
            None => None,
        }
    }
}

/// A batch copy: for each id in `ids`, in turn, a copy of that item (as
/// the table stands at that point) is added to `target`, the `k`-th with
/// order `base + k` where `base` is the current largest order there.
/// `None` when ids run out.
pub open spec fn copied_items(s: DbState, ids: Seq<i64>, target: i64) -> Option<DbState> {
    copied_prefix(s, ids, target, max_item_order_of(s, target) as int, ids.len())
}

pub proof fn lemma_copied_prefix_stays_none(
    s: DbState,
    ids: Seq<i64>,
    target: i64,
    base: int,
    k: nat,
    n: nat,
)
    requires
        k <= n,
        copied_prefix(s, ids, target, base, k) is None,
    ensures
        copied_prefix(s, ids, target, base, n) is None,
    decreases n - k,
{
    if k < n {
        lemma_copied_prefix_stays_none(s, ids, target, base, k + 1, n);
    }
}

/// One step of converting targets to relative paths: `None` when item `id`
/// does not exist; else the state after it and whether its target changed.
pub open spec fn relative_step(s: DbState, id: i64, base: Seq<char>) -> Option<(DbState, bool)> {
    match find_item(s, id) {
        None => None,
        Some(it) => match it.data.target {
            Some(t) => match relative_target(t, base) {
                Some(r) => Some((change_item(s, id, item_target_set(r)), true)),
                None => Some((s, false)),
            },
            None => Some((s, false)),
        },
    }
}

/// The first `k` steps of a conversion to relative paths: the state, the
/// number of targets converted, and whether it stopped at a missing item
/// (later ids are then not looked at).
pub open spec fn relative_prefix(s: DbState, ids: Seq<i64>, base: Seq<char>, k: nat) -> (
    DbState,
    nat,
    bool,
)
    decreases k,
{
    if k == 0 {
        (s, 0, false)
    } else {
        let (p, c, failed) = relative_prefix(s, ids, base, (k - 1) as nat);
        if failed {
            (p, c, true)
        } else {
            match relative_step(p, ids[k - 1], base) {
                None => (p, c, true),
                Some((q, conv)) => (q, if conv { c + 1 } else { c }, false),
            }
        }
    }
}

/// One step of converting targets to absolute paths, `canonical` being
/// what canonicalizing the joined path gave.
pub open spec fn absolute_step(
    s: DbState,
    id: i64,
    base: Seq<char>,
    canonical: Option<Seq<char>>,
) -> Option<(DbState, bool)> {
    match find_item(s, id) {
        None => None,
        Some(it) => match it.data.target {
            Some(t) => if absolute_eligible(t) {
                Some(
                    (
                        change_item(
                            s,
                            id,
                            item_target_set(absolute_choice(joined_path_text(base, t), canonical)),
                        ),
                        true,
                    ),
                )
            } else {
                Some((s, false))
            },
            None => Some((s, false)),
        },
    }
}

/// The first `k` steps of a conversion to absolute paths, the `j`-th using
/// the canonicalization outcome `outcomes[j]`.
pub open spec fn absolute_prefix(
    s: DbState,
    ids: Seq<i64>,
    base: Seq<char>,
    outcomes: Seq<Option<Seq<char>>>,
    k: nat,
) -> (DbState, nat, bool)
    decreases k,
{
    if k == 0 {
        (s, 0, false)
    } else {
        let (p, c, failed) = absolute_prefix(s, ids, base, outcomes, (k - 1) as nat);
        if failed {
            (p, c, true)
        } else {
            match absolute_step(p, ids[k - 1], base, outcomes[k - 1]) {
                None => (p, c, true),
                Some((q, conv)) => (q, if conv { c + 1 } else { c }, false),
            }
        }
    }
}

pub proof fn lemma_relative_prefix_failed(s: DbState, ids: Seq<i64>, base: Seq<char>, k: nat, n: nat)
    requires
        k <= n,
        relative_prefix(s, ids, base, k).2,
    ensures
        relative_prefix(s, ids, base, n) == relative_prefix(s, ids, base, k),
    decreases n - k,
{
    if k < n {
        lemma_relative_prefix_failed(s, ids, base, k + 1, n);
    }
}

pub proof fn lemma_absolute_prefix_failed(
    s: DbState,
    ids: Seq<i64>,
    base: Seq<char>,
    outcomes: Seq<Option<Seq<char>>>,
    k: nat,
    n: nat,
)
    requires
        k <= n,
        absolute_prefix(s, ids, base, outcomes, k).2,
    ensures
        absolute_prefix(s, ids, base, outcomes, n) == absolute_prefix(s, ids, base, outcomes, k),
    decreases n - k,
{
    if k < n {
        lemma_absolute_prefix_failed(s, ids, base, outcomes, k + 1, n);
    }
}

/// The first `k` steps only look at the first `k` outcomes.
pub proof fn lemma_absolute_prefix_outcomes(
    s: DbState,
    ids: Seq<i64>,
    base: Seq<char>,
    outcomes: Seq<Option<Seq<char>>>,
    more: Seq<Option<Seq<char>>>,
    k: nat,
)
    requires
        k <= outcomes.len(),
        outcomes.len() <= more.len(),
        outcomes == more.take(outcomes.len() as int),
    ensures
        absolute_prefix(s, ids, base, outcomes, k) == absolute_prefix(s, ids, base, more, k),
    decreases k,
{
    if k > 0 {
        lemma_absolute_prefix_outcomes(s, ids, base, outcomes, more, (k - 1) as nat);
        assert(outcomes[k - 1] == more[k - 1]);
    }
}

/// The store.
pub struct Database {
    classifications: Vec<Classification>,
    items: Vec<Item>,
    settings: Vec<Setting>,
    next_classification_id: i64,
    next_item_id: i64,
}

impl View for Database {
    type V = DbState;

    closed spec fn view(&self) -> DbState {
        DbState {
            classifications: classification_views(self.classifications@),
            items: item_views(self.items@),
            settings: self.settings@.map_values(|s: Setting| s@),
            next_classification_id: self.next_classification_id as int,
            next_item_id: self.next_item_id as int,
        }
    }
}

impl Database {
    /// The state is well formed, and stored classifications have no
    /// nested children.
    pub closed spec fn wf(&self) -> bool {
        &&& state_wf(self@)
        &&& forall|i: int|
            0 <= i < self.classifications@.len() ==> (#[trigger] self.classifications@[i]).child_list@.len()
                == 0
    }

    /// A well-formed store's state is well formed.
    pub proof fn lemma_state_wf(&self)
        requires
            self.wf(),
        ensures
            state_wf(self@),
    {
    }

    /// An empty store; the first ids handed out are 1.
    pub fn new() -> (r: Database)
        ensures
            r.wf(),
            r@.classifications.len() == 0,
            r@.items.len() == 0,
            r@.settings.len() == 0,
            r@.next_classification_id == 1,
            r@.next_item_id == 1,
    {
        let r = Database {
            classifications: Vec::new(),
            items: Vec::new(),
            settings: Vec::new(),
            next_classification_id: 1,
            next_item_id: 1,
        };
        assert(r@.settings =~= Seq::<(Seq<char>, Seq<char>)>::empty());
        r
    }


    /// Builds a store from loaded rows; `None` when an item id or a
    /// classification id occurs twice, a setting key occurs twice, an id is
    /// not below the next id given for its table, or a next id is not in
    /// `1..=i64::MAX`. Nested children of the classifications are dropped.
    pub fn from_rows(
        classifications: Vec<Classification>,
        items: Vec<Item>,
        settings: Vec<Setting>,
        next_classification_id: i64,
        next_item_id: i64,
    ) -> (r: Option<Database>)
        ensures
            ({
                let s = DbState {
                    classifications: classification_views(classifications@),
                    items: item_views(items@),
                    settings: settings@.map_values(|x: Setting| x@),
                    next_classification_id: next_classification_id as int,
                    next_item_id: next_item_id as int,
                };
                match r {
                    Some(db) => db.wf() && db@ == s,
                    None => !state_wf(s),
                }
            }),
    {
        let ghost s = DbState {
            classifications: classification_views(classifications@),
            items: item_views(items@),
            settings: settings@.map_values(|x: Setting| x@),
            next_classification_id: next_classification_id as int,
            next_item_id: next_item_id as int,
        };
        if next_classification_id < 1 || next_item_id < 1 {
            return None;
        }
        let mut i: usize = 0;
        while i < items.len()
            invariant
                s.items == item_views(items@),
                0 <= i <= items@.len(),
                forall|a: int, b: int| 0 <= a < b < i ==> (#[trigger] s.items[a]).id != (
                #[trigger] s.items[b]).id,
                forall|a: int| 0 <= a < i ==> (#[trigger] s.items[a]).id < next_item_id,
            decreases items@.len() - i,
        {
            if items[i].id >= next_item_id {
                assert(s.items[i as int].id == items@[i as int].id);
                return None;
            }
            let mut j: usize = 0;
            while j < i
                invariant
                    s.items == item_views(items@),
                    0 <= j <= i < items@.len(),
                    forall|a: int| 0 <= a < j ==> (#[trigger] s.items[a]).id != s.items[i as int].id,
                decreases i - j,
            {
                if items[j].id == items[i].id {
                    assert(s.items[j as int].id == s.items[i as int].id);
                    return None;
                }
                j = j + 1;
            }
            i = i + 1;
        }
        let mut i: usize = 0;
        while i < classifications.len()
            invariant
                s.classifications == classification_views(classifications@),
                0 <= i <= classifications@.len(),
                forall|a: int, b: int| 0 <= a < b < i ==> (#[trigger] s.classifications[a]).id != (
                #[trigger] s.classifications[b]).id,
                forall|a: int| 0 <= a < i ==> (#[trigger] s.classifications[a]).id < next_classification_id,
            decreases classifications@.len() - i,
        {
            if classifications[i].id >= next_classification_id {
                assert(s.classifications[i as int].id == classifications@[i as int].id);
                return None;
            }
            let mut j: usize = 0;
            while j < i
                invariant
                    s.classifications == classification_views(classifications@),
                    0 <= j <= i < classifications@.len(),
                    forall|a: int| 0 <= a < j ==> (#[trigger] s.classifications[a]).id
                        != s.classifications[i as int].id,
                decreases i - j,
            {
                if classifications[j].id == classifications[i].id {
                    assert(s.classifications[j as int].id == s.classifications[i as int].id);
                    return None;
                }
                j = j + 1;
            }
            i = i + 1;
        }
        let mut i: usize = 0;
        while i < settings.len()
            invariant
                s.settings == settings@.map_values(|x: Setting| x@),
                0 <= i <= settings@.len(),
                forall|a: int, b: int| 0 <= a < b < i ==> (#[trigger] s.settings[a]).0 != (
                #[trigger] s.settings[b]).0,
            decreases settings@.len() - i,
        {
            let mut j: usize = 0;
            while j < i
                invariant
                    s.settings == settings@.map_values(|x: Setting| x@),
                    0 <= j <= i < settings@.len(),
                    forall|a: int| 0 <= a < j ==> (#[trigger] s.settings[a]).0 != s.settings[i as int].0,
                decreases i - j,
            {
                if settings[j].key == settings[i].key {
                    assert(s.settings[j as int].0 == s.settings[i as int].0);
                    return None;
                }
                j = j + 1;
            }
            i = i + 1;
        }
        let mut rows: Vec<Classification> = Vec::new();
        let mut i: usize = 0;
        while i < classifications.len()
            invariant
                0 <= i <= classifications@.len(),
                classification_views(rows@) == classification_views(classifications@.take(i as int)),
                forall|a: int| 0 <= a < rows@.len() ==> (#[trigger] rows@[a]).child_list@.len() == 0,
            decreases classifications@.len() - i,
        {
            let ghost old_rows = rows@;
            let c = classifications[i].row_copy();
            rows.push(c);
            assert(classification_views(rows@) =~= classification_views(old_rows).push(c@));
            assert(classifications@.take(i + 1) =~= classifications@.take(i as int).push(
                classifications@[i as int],
            ));
            assert(classification_views(rows@) =~= classification_views(
                classifications@.take(i + 1),
            ));
            i = i + 1;
        }
        assert(classifications@.take(classifications@.len() as int) =~= classifications@);
        let db = Database {
            classifications: rows,
            items,
            settings,
            next_classification_id,
            next_item_id,
        };
        assert(db@.classifications =~= s.classifications);
        Some(db)
    }


    /// Position of the item with id `id`.
    fn item_position(&self, id: i64) -> (r: Option<usize>)
        ensures
            match r {
                Some(i) => i < self.items@.len() && self.items@[i as int].id == id,
                None => forall|k: int| 0 <= k < self@.items.len() ==> (#[trigger] self@.items[k]).id != id,
            },
    {
        let mut i: usize = 0;
        while i < self.items.len()
            invariant
                0 <= i <= self.items@.len(),
                self@.items == item_views(self.items@),
                forall|k: int| 0 <= k < i ==> (#[trigger] self@.items[k]).id != id,
            decreases self.items@.len() - i,
        {
            if self.items[i].id == id {
                return Some(i);
            }
            i = i + 1;
        }
        None
    }

    /// Position of the classification with id `id`.
    fn classification_position(&self, id: i64) -> (r: Option<usize>)
        ensures
            match r {
                Some(i) => i < self.classifications@.len() && self.classifications@[i as int].id == id,
                None => forall|k: int|
                    0 <= k < self@.classifications.len() ==> (#[trigger] self@.classifications[k]).id != id,
            },
    {
        let mut i: usize = 0;
        while i < self.classifications.len()
            invariant
                0 <= i <= self.classifications@.len(),
                self@.classifications == classification_views(self.classifications@),
                forall|k: int| 0 <= k < i ==> (#[trigger] self@.classifications[k]).id != id,
            decreases self.classifications@.len() - i,
        {
            if self.classifications[i].id == id {
                return Some(i);
            }
            i = i + 1;
        }
        None
    }

    /// Position of the setting stored under `key`.
    fn setting_position(&self, key: &str) -> (r: Option<usize>)
        ensures
            match r {
                Some(i) => i < self.settings@.len() && self.settings@[i as int].key@ == key@,
                None => forall|k: int|
                    0 <= k < self@.settings.len() ==> (#[trigger] self@.settings[k]).0 != key@,
            },
    {
        let k = String::from_str(key);
        let mut i: usize = 0;
        while i < self.settings.len()
            invariant
                0 <= i <= self.settings@.len(),
                k@ == key@,
                self@.settings == self.settings@.map_values(|s: Setting| s@),
                forall|j: int| 0 <= j < i ==> (#[trigger] self@.settings[j]).0 != key@,
            decreases self.settings@.len() - i,
        {
            if self.settings[i].key == k {
                return Some(i);
            }
            i = i + 1;
        }
        None
    }

    /// Row copies of the classifications directly under `parent`, in table order.
    fn classifications_under_rows(&self, parent: Option<i64>) -> (r: Vec<Classification>)
        ensures
            classification_views(r@) == classifications_under(self@, parent),
    {
        let mut out: Vec<Classification> = Vec::new();
        let n = self.classifications.len();
        assert(classification_views(out@) =~= self@.classifications.take(0).filter(is_under(parent))) by {
            reveal(Seq::filter);
        }
        for i in 0..n
            invariant
                n == self.classifications@.len(),
                self@.classifications == classification_views(self.classifications@),
                classification_views(out@) == self@.classifications.take(i as int).filter(
                    is_under(parent),
                ),
        {
            let c = &self.classifications[i];
            let hit = match (c.parent_id, parent) {
                (None, None) => true,
                (Some(a), Some(b)) => a == b,
                _ => false,
            };
            proof {
                lemma_filter_take_step(self@.classifications, is_under(parent), i as int);
            }
            if hit {
                let ghost old_out = out@;
                let x = c.row_copy();
                out.push(x);
                assert(classification_views(out@) =~= classification_views(old_out).push(x@));
            }
        }
        assert(self@.classifications.take(n as int) =~= self@.classifications);
        out
    }

    /// Top-level classifications, sorted by `order`.
    pub fn list_parent_classifications(&self) -> (r: Vec<Classification>)
        ensures
            is_sorted_classification_listing(classification_views(r@), parent_classifications(self@)),
            forall|i: int| 0 <= i < r@.len() ==> (#[trigger] r@[i]).child_list@.len() == 0,
    {
        sort_classifications(&self.classifications_under_rows(None))
    }

    /// Classifications whose parent is `parent_id`, sorted by `order`.
    pub fn list_child_classifications(&self, parent_id: i64) -> (r: Vec<Classification>)
        ensures
            is_sorted_classification_listing(
                classification_views(r@),
                child_classifications(self@, parent_id),
            ),
            forall|i: int| 0 <= i < r@.len() ==> (#[trigger] r@[i]).child_list@.len() == 0,
    {
        sort_classifications(&self.classifications_under_rows(Some(parent_id)))
    }

    /// Whether classification `parent_id` has child classifications.
    pub fn has_child_classifications(&self, parent_id: i64) -> (r: bool)
        ensures
            r == (child_classifications(self@, parent_id).len() > 0),
    {
        let rows = self.classifications_under_rows(Some(parent_id));
        assert(classification_views(rows@).len() == rows@.len());
        rows.len() > 0
    }

    /// All classifications, sorted by `order`.
    pub fn list_all_classifications(&self) -> (r: Vec<Classification>)
        ensures
            is_sorted_classification_listing(classification_views(r@), self@.classifications),
            forall|i: int| 0 <= i < r@.len() ==> (#[trigger] r@[i]).child_list@.len() == 0,
    {
        sort_classifications(&self.classifications)
    }

    /// The order the items of classification `cid` are listed in.
    pub fn item_listing_order(&self, cid: i64) -> (r: ItemOrder)
        requires
            self.wf(),
        ensures
            r == listing_order(self@, cid),
    {
        match self.classification_position(cid) {
            None => ItemOrder::ByOrder,
            Some(i) => {
                proof {
                    lemma_find_classification_at(self@, cid, i as int);
                    reveal_strlit("initial");
                    reveal_strlit("openNumber");
                    reveal_strlit("lastOpen");
                    assert("initial"@ =~= word_initial());
                    assert("openNumber"@ =~= word_open_number());
                    assert("lastOpen"@ =~= word_last_open());
                }
                let w = &self.classifications[i].data.item_sort;
                if *w == String::from_str("initial") {
                    ItemOrder::ByName
                } else if *w == String::from_str("openNumber") {
                    ItemOrder::ByOpenNumber
                } else if *w == String::from_str("lastOpen") {
                    ItemOrder::ByLastOpen
                } else {
                    ItemOrder::ByOrder
                }
            },
        }
    }

    /// Items of classification `cid`, in table order.
    fn items_in_rows(&self, cid: i64) -> (r: Vec<Item>)
        ensures
            item_views(r@) == items_of(self@, cid),
    {
        let mut out: Vec<Item> = Vec::new();
        let n = self.items.len();
        assert(item_views(out@) =~= self@.items.take(0).filter(is_in(cid))) by {
            reveal(Seq::filter);
        }
        for i in 0..n
            invariant
                n == self.items@.len(),
                self@.items == item_views(self.items@),
                item_views(out@) == self@.items.take(i as int).filter(is_in(cid)),
        {
            proof {
                lemma_filter_take_step(self@.items, is_in(cid), i as int);
            }
            if self.items[i].classification_id == cid {
                let ghost old_out = out@;
                let x = self.items[i].clone();
                out.push(x);
                assert(item_views(out@) =~= item_views(old_out).push(x@));
            }
        }
        assert(self@.items.take(n as int) =~= self@.items);
        out
    }

    /// Items of classification `cid`, in the order its `item_sort` setting
    /// asks for (by `order` when the classification does not exist).
    pub fn list_items(&self, classification_id: i64) -> (r: Vec<Item>)
        requires
            self.wf(),
        ensures
            is_sorted_listing(
                listing_order(self@, classification_id),
                item_views(r@),
                items_of(self@, classification_id),
            ),
    {
        let k = self.item_listing_order(classification_id);
        sort_items(&self.items_in_rows(classification_id), k)
    }

    /// Quick search: items whose name matches `%query%` (SQL `LIKE`, ASCII
    /// case ignored, query trimmed), by open count descending then name.
    /// A query that is empty after trimming finds nothing.
    pub fn search_items(&self, query: &str) -> (r: Vec<Item>)
        ensures
            trim_seq(query@).len() == 0 ==> r@.len() == 0,
            trim_seq(query@).len() > 0 ==> is_sorted_listing(
                ItemOrder::ByOpenNumberThenName,
                item_views(r@),
                search_hits(self@, query@),
            ),
    {
        let q = trim_chars(&str_chars(query));
        if q.len() == 0 {
            return Vec::new();
        }
        let mut pattern: Vec<char> = Vec::new();
        pattern.push('%');
        let mut k: usize = 0;
        while k < q.len()
            invariant
                0 <= k <= q@.len(),
                pattern@ == seq!['%'] + q@.take(k as int),
            decreases q@.len() - k,
        {
            pattern.push(q[k]);
            assert(q@.take(k + 1) =~= q@.take(k as int).push(q@[k as int]));
            assert(pattern@ =~= seq!['%'] + q@.take(k + 1));
            k = k + 1;
        }
        pattern.push('%');
        assert(q@.take(q@.len() as int) =~= q@);
        assert(pattern@ =~= search_pattern(query@));
        let ghost pat = search_pattern(query@);
        let mut hits: Vec<Item> = Vec::new();
        let n = self.items.len();
        assert(item_views(hits@) =~= self@.items.take(0).filter(name_matches(pat))) by {
            reveal(Seq::filter);
        }
        for i in 0..n
            invariant
                n == self.items@.len(),
                pattern@ == pat,
                self@.items == item_views(self.items@),
                item_views(hits@) == self@.items.take(i as int).filter(name_matches(pat)),
        {
            proof {
                lemma_filter_take_step(self@.items, name_matches(pat), i as int);
            }
            if like_matches(&pattern, &str_chars(self.items[i].name.as_str())) {
                let ghost old_hits = hits@;
                let x = self.items[i].clone();
                hits.push(x);
                assert(item_views(hits@) =~= item_views(old_hits).push(x@));
            }
        }
        assert(self@.items.take(n as int) =~= self@.items);
        sort_items(&hits, ItemOrder::ByOpenNumberThenName)
    }

    /// All items, by name.
    pub fn list_all_items(&self) -> (r: Vec<Item>)
        ensures
            is_sorted_listing(ItemOrder::ByName, item_views(r@), self@.items),
    {
        sort_items(&self.items, ItemOrder::ByName)
    }

    /// The largest `order` of the items of classification `cid`, or 0 when
    /// it has none.
    pub fn max_item_order(&self, classification_id: i64) -> (r: i64)
        ensures
            r == max_item_order_of(self@, classification_id),
    {
        let mut best: Option<i64> = None;
        let n = self.items.len();
        for i in 0..n
            invariant
                n == self.items@.len(),
                self@.items == item_views(self.items@),
                best == max_item_order_in(self@.items.take(i as int), classification_id),
        {
            proof {
                assert(self@.items.take(i + 1).drop_last() =~= self@.items.take(i as int));
            }
            let it = &self.items[i];
            if it.classification_id == classification_id {
                best = match best {
                    Some(m) => Some(if it.order > m { it.order } else { m }),
                    None => Some(it.order),
                };
            }
        }
        assert(self@.items.take(n as int) =~= self@.items);
        match best {
            Some(m) => m,
            None => 0,
        }
    }

    fn max_classification_order(&self, parent: Option<i64>) -> (r: i64)
        ensures
            r == max_classification_order_of(self@, parent),
    {
        let mut best: Option<i64> = None;
        let n = self.classifications.len();
        for i in 0..n
            invariant
                n == self.classifications@.len(),
                self@.classifications == classification_views(self.classifications@),
                best == max_classification_order_in(self@.classifications.take(i as int), parent),
        {
            proof {
                assert(self@.classifications.take(i + 1).drop_last() =~= self@.classifications.take(
                    i as int,
                ));
            }
            let c = &self.classifications[i];
            let hit = match (c.parent_id, parent) {
                (None, None) => true,
                (Some(a), Some(b)) => a == b,
                _ => false,
            };
            if hit {
                best = match best {
                    Some(m) => Some(if c.order > m { c.order } else { m }),
                    None => Some(c.order),
                };
            }
        }
        assert(self@.classifications.take(n as int) =~= self@.classifications);
        match best {
            Some(m) => m,
            None => 0,
        }
    }

    /// The largest `order` of the top-level classifications, or 0.
    pub fn max_parent_classification_order(&self) -> (r: i64)
        ensures
            r == max_classification_order_of(self@, None),
    {
        self.max_classification_order(None)
    }

    /// The largest `order` of the children of `parent_id`, or 0.
    pub fn max_child_classification_order(&self, parent_id: i64) -> (r: i64)
        ensures
            r == max_classification_order_of(self@, Some(parent_id)),
    {
        self.max_classification_order(Some(parent_id))
    }

    /// The target of item `item_id`, if it exists and has one.
    pub fn get_item_target(&self, item_id: i64) -> (r: Option<String>)
        requires
            self.wf(),
        ensures
            crate::paths::opt_text_of(r) == item_target(self@, item_id),
    {
        match self.item_position(item_id) {
            None => None,
            Some(i) => {
                proof {
                    lemma_find_item_at(self@, item_id, i as int);
                }
                crate::models::clone_opt_string(&self.items[i].data.target)
            },
        }
    }

    /// The item with id `item_id`, if any.
    pub fn get_item(&self, item_id: i64) -> (r: Option<Item>)
        requires
            self.wf(),
        ensures
            match r {
                Some(it) => find_item(self@, item_id) == Some(it@),
                None => find_item(self@, item_id) is None,
            },
    {
        match self.item_position(item_id) {
            None => None,
            Some(i) => {
                proof {
                    lemma_find_item_at(self@, item_id, i as int);
                }
                Some(self.items[i].clone())
            },
        }
    }

    /// Whether the item order of classification `cid` is locked; `false`
    /// when it does not exist.
    pub fn is_classification_locked(&self, class_id: i64) -> (r: bool)
        requires
            self.wf(),
        ensures
            r == classification_locked(self@, class_id),
    {
        match self.classification_position(class_id) {
            None => false,
            Some(i) => {
                proof {
                    lemma_find_classification_at(self@, class_id, i as int);
                }
                self.classifications[i].data.fixed
            },
        }
    }

    /// The value of setting `key`, or `default` when it is not set.
    pub fn get_setting(&self, key: &str, default: &str) -> (r: String)
        requires
            self.wf(),
        ensures
            r@ == setting_or(self@, key@, default@),
    {
        match self.setting_position(key) {
            None => String::from_str(default),
            Some(i) => {
                proof {
                    lemma_setting_value_at(self@, key@, i as int);
                }
                self.settings[i].value.clone()
            },
        }
    }

    /// A flag setting: `1` means set.
    pub fn get_setting_bool(&self, key: &str, default: bool) -> (r: bool)
        requires
            self.wf(),
        ensures
            r == setting_flag(self@, key@, default),
    {
        proof {
            reveal_strlit("1");
            reveal_strlit("0");
            assert("1"@ =~= text_one());
            assert("0"@ =~= text_zero());
        }
        let v = self.get_setting(key, if default { "1" } else { "0" });
        v == String::from_str("1")
    }

    /// A number setting; `default` when missing or not a valid `i64`.
    pub fn get_setting_i64(&self, key: &str, default: i64) -> (r: i64)
        requires
            self.wf(),
        ensures
            r == setting_number(self@, key@, default),
    {
        let d = format_i64(default);
        let v = self.get_setting(key, d.as_str());
        match parse_i64(v.as_str()) {
            Some(x) => x,
            None => default,
        }
    }


    /// Replaces the item at position `i` by `it`, which keeps its id.
    fn replace_item(&mut self, i: usize, it: Item)
        requires
            old(self).wf(),
            i < old(self).items@.len(),
            it.id == old(self).items@[i as int].id,
        ensures
            final(self).wf(),
            final(self)@ == (DbState { items: old(self)@.items.update(i as int, it@), ..old(self)@ }),
    {
        let ghost old_items = self@.items;
        self.items.set(i, it);
        assert(self@.items =~= old_items.update(i as int, it@));
        assert forall|k: int| 0 <= k < self@.items.len() implies (#[trigger] self@.items[k]).id
            == old_items[k].id by {}
        assert(self@ =~= (DbState { items: old_items.update(i as int, it@), ..old(self)@ }));
    }

    /// Replaces the classification at position `i` by `c`, which keeps its
    /// id and has no children.
    fn replace_classification(&mut self, i: usize, c: Classification)
        requires
            old(self).wf(),
            i < old(self).classifications@.len(),
            c.id == old(self).classifications@[i as int].id,
            c.child_list@.len() == 0,
        ensures
            final(self).wf(),
            final(self)@ == (DbState {
                classifications: old(self)@.classifications.update(i as int, c@),
                ..old(self)@
            }),
    {
        let ghost old_cs = self@.classifications;
        self.classifications.set(i, c);
        assert(self@.classifications =~= old_cs.update(i as int, c@));
        assert forall|k: int| 0 <= k < self@.classifications.len() implies (
        #[trigger] self@.classifications[k]).id == old_cs[k].id by {}
        assert(self@ =~= (DbState {
            classifications: old_cs.update(i as int, c@),
            ..old(self)@
        }));
    }

    /// Renames item `item_id`; nothing happens when it does not exist.
    pub fn rename_item(&mut self, item_id: i64, new_name: &str)
        requires
            old(self).wf(),
        ensures
            final(self).wf(),
            final(self)@ == renamed_item(old(self)@, item_id, new_name@),
    {
        let ghost f = item_name_set(new_name@);
        match self.item_position(item_id) {
            None => {
                proof {
                    lemma_update_item_absent(self@.items, item_id, f);
                    assert(self@ =~= renamed_item(self@, item_id, new_name@));
                }
            },
            Some(i) => {
                let mut it = self.items[i].clone();
                it.name = String::from_str(new_name);
                proof {
                    lemma_update_item_at(self@.items, item_id, i as int, f);
                    assert(it@ == f(self@.items[i as int]));
                }
                self.replace_item(i, it);
            },
        }
    }

    /// Renames classification `classification_id`; nothing happens when it
    /// does not exist.
    pub fn rename_classification(&mut self, classification_id: i64, new_name: &str)
        requires
            old(self).wf(),
        ensures
            final(self).wf(),
            final(self)@ == renamed_classification(old(self)@, classification_id, new_name@),
    {
        let ghost f = classification_name_set(new_name@);
        match self.classification_position(classification_id) {
            None => {
                proof {
                    lemma_update_classification_absent(self@.classifications, classification_id, f);
                    assert(self@ =~= renamed_classification(self@, classification_id, new_name@));
                }
            },
            Some(i) => {
                let mut c = self.classifications[i].row_copy();
                c.name = String::from_str(new_name);
                proof {
                    lemma_update_classification_at(
                        self@.classifications,
                        classification_id,
                        i as int,
                        f,
                    );
                    assert(c@ == f(self@.classifications[i as int]));
                }
                self.replace_classification(i, c);
            },
        }
    }

    /// Counts one more open of item `item_id` (saturating) and records
    /// `now` (milliseconds since the epoch) as its last open time; nothing
    /// happens when it does not exist.
    pub fn record_item_open(&mut self, item_id: i64, now: i64)
        requires
            old(self).wf(),
        ensures
            final(self).wf(),
            final(self)@ == opened_item(old(self)@, item_id, now),
    {
        let ghost f = item_opened_at(now);
        match self.item_position(item_id) {
            None => {
                proof {
                    lemma_update_item_absent(self@.items, item_id, f);
                    assert(self@ =~= opened_item(self@, item_id, now));
                }
            },
            Some(i) => {
                let mut it = self.items[i].clone();
                if it.data.open_number < i64::MAX {
                    it.data.open_number = it.data.open_number + 1;
                }
                it.data.last_open = now;
                proof {
                    lemma_update_item_at(self@.items, item_id, i as int, f);
                    assert(it@ == f(self@.items[i as int]));
                }
                self.replace_item(i, it);
            },
        }
    }

    /// Sets the icon (a data URL) of item `item_id`; `NotFound` when it
    /// does not exist.
    pub fn update_item_icon(&mut self, item_id: i64, icon_data_url: &str) -> (r: Result<(), DbError>)
        requires
            old(self).wf(),
        ensures
            final(self).wf(),
            match r {
                Ok(()) => find_item(old(self)@, item_id) is Some && final(self)@ == with_item_icon(
                    old(self)@,
                    item_id,
                    icon_data_url@,
                ),
                Err(e) => e == DbError::NotFound && find_item(old(self)@, item_id) is None
                    && final(self)@ == old(self)@,
            },
    {
        let ghost f = item_icon_set(icon_data_url@);
        match self.item_position(item_id) {
            None => Err(DbError::NotFound),
            Some(i) => {
                let mut it = self.items[i].clone();
                it.data.icon = Some(String::from_str(icon_data_url));
                proof {
                    lemma_find_item_at(self@, item_id, i as int);
                    lemma_update_item_at(self@.items, item_id, i as int, f);
                    assert(it@ == f(self@.items[i as int]));
                }
                self.replace_item(i, it);
                Ok(())
            },
        }
    }

    /// Locks or unlocks the item order of classification `class_id`;
    /// `NotFound` when it does not exist.
    pub fn set_classification_locked(&mut self, class_id: i64, locked: bool) -> (r: Result<
        (),
        DbError,
    >)
        requires
            old(self).wf(),
        ensures
            final(self).wf(),
            match r {
                Ok(()) => find_classification(old(self)@, class_id) is Some && final(self)@
                    == with_classification_locked(old(self)@, class_id, locked),
                Err(e) => e == DbError::NotFound && find_classification(old(self)@, class_id) is None
                    && final(self)@ == old(self)@,
            },
    {
        let ghost f = classification_lock_set(locked);
        match self.classification_position(class_id) {
            None => Err(DbError::NotFound),
            Some(i) => {
                let mut c = self.classifications[i].row_copy();
                c.data.fixed = locked;
                proof {
                    lemma_find_classification_at(self@, class_id, i as int);
                    lemma_update_classification_at(self@.classifications, class_id, i as int, f);
                    assert(c@ == f(self@.classifications[i as int]));
                }
                self.replace_classification(i, c);
                Ok(())
            },
        }
    }

    /// Sets how classification `class_id` sorts its items (`default`,
    /// `initial`, `openNumber` or `lastOpen`); `NotFound` when it does not
    /// exist.
    pub fn set_classification_item_sort(&mut self, class_id: i64, sort_mode: &str) -> (r: Result<
        (),
        DbError,
    >)
        requires
            old(self).wf(),
        ensures
            final(self).wf(),
            match r {
                Ok(()) => find_classification(old(self)@, class_id) is Some && final(self)@
                    == with_classification_item_sort(old(self)@, class_id, sort_mode@),
                Err(e) => e == DbError::NotFound && find_classification(old(self)@, class_id) is None
                    && final(self)@ == old(self)@,
            },
    {
        let ghost f = classification_sort_set(sort_mode@);
        match self.classification_position(class_id) {
            None => Err(DbError::NotFound),
            Some(i) => {
                let mut c = self.classifications[i].row_copy();
                c.data.item_sort = String::from_str(sort_mode);
                proof {
                    lemma_find_classification_at(self@, class_id, i as int);
                    lemma_update_classification_at(self@.classifications, class_id, i as int, f);
                    assert(c@ == f(self@.classifications[i as int]));
                }
                self.replace_classification(i, c);
                Ok(())
            },
        }
    }


    /// The items kept when those in classification `class` (when given),
    /// else those whose id is in `ids`, are dropped; ids stay unique and
    /// below the next id.
    fn retained_items(&self, ids: &[i64], class: Option<i64>) -> (r: Vec<Item>)
        requires
            self.wf(),
        ensures
            item_views(r@) == self@.items.filter(kept_by(ids@, class)),
            item_ids_unique(item_views(r@)),
            forall|a: int| 0 <= a < r@.len() ==> (#[trigger] r@[a]).id < self@.next_item_id,
    {
        let ghost keep = kept_by(ids@, class);
        let mut out: Vec<Item> = Vec::new();
        let n = self.items.len();
        let ghost mut src: Seq<int> = seq![];
        assert(item_views(out@) =~= self@.items.take(0).filter(keep)) by {
            reveal(Seq::filter);
        }
        for i in 0..n
            invariant
                n == self.items@.len(),
                self.wf(),
                self@.items == item_views(self.items@),
                keep == kept_by(ids@, class),
                item_views(out@) == self@.items.take(i as int).filter(keep),
                src.len() == out@.len(),
                forall|a: int| 0 <= a < src.len() ==> 0 <= #[trigger] src[a] < i,
                forall|a: int| 0 <= a < src.len() ==> (#[trigger] out@[a])@ == self@.items[src[a]],
                item_ids_unique(item_views(out@)),
        {
            proof {
                lemma_filter_take_step(self@.items, keep, i as int);
            }
            let it = &self.items[i];
            let dropped = match class {
                Some(c) => it.classification_id == c,
                None => vec_contains(ids, it.id),
            };
            if !dropped {
                let ghost old_out = out@;
                let x = it.clone();
                proof {
                    assert forall|a: int| 0 <= a < old_out.len() implies (#[trigger] old_out[a]).id
                        != x.id by {
                        assert(old_out[a]@ == self@.items[src[a]]);
                        assert(self@.items[src[a]].id != self@.items[i as int].id);
                    }
                }
                out.push(x);
                proof {
                    src = src.push(i as int);
                    assert(item_views(out@) =~= item_views(old_out).push(x@));
                    assert forall|a: int, b: int| 0 <= a < b < out@.len() implies (#[trigger] item_views(out@)[a]).id
                        != (#[trigger] item_views(out@)[b]).id by {
                        if b == out@.len() - 1 {
                            assert(old_out[a].id != x.id);
                        } else {
                            assert(item_views(old_out)[a].id != item_views(old_out)[b].id);
                        }
                    }
                }
            }
        }
        proof {
            assert(self@.items.take(n as int) =~= self@.items);
            assert forall|a: int| 0 <= a < out@.len() implies (#[trigger] out@[a]).id < self@.next_item_id by {
                assert(out@[a]@ == self@.items[src[a]]);
            }
        }
        out
    }


    /// The classifications other than `cid`; ids stay unique and below the
    /// next id, and none has children.
    fn retained_classifications(&self, cid: i64) -> (r: Vec<Classification>)
        requires
            self.wf(),
        ensures
            classification_views(r@) == self@.classifications.filter(not_class(cid)),
            classification_ids_unique(classification_views(r@)),
            forall|a: int| 0 <= a < r@.len() ==> (#[trigger] r@[a]).id < self@.next_classification_id,
            forall|a: int| 0 <= a < r@.len() ==> (#[trigger] r@[a]).child_list@.len() == 0,
    {
        let ghost keep = not_class(cid);
        let mut out: Vec<Classification> = Vec::new();
        let n = self.classifications.len();
        let ghost mut src: Seq<int> = seq![];
        assert(classification_views(out@) =~= self@.classifications.take(0).filter(keep)) by {
            reveal(Seq::filter);
        }
        for i in 0..n
            invariant
                n == self.classifications@.len(),
                self.wf(),
                self@.classifications == classification_views(self.classifications@),
                keep == not_class(cid),
                classification_views(out@) == self@.classifications.take(i as int).filter(keep),
                src.len() == out@.len(),
                forall|a: int| 0 <= a < src.len() ==> 0 <= #[trigger] src[a] < i,
                forall|a: int|
                    0 <= a < src.len() ==> (#[trigger] out@[a])@ == self@.classifications[src[a]],
                forall|a: int| 0 <= a < out@.len() ==> (#[trigger] out@[a]).child_list@.len() == 0,
                classification_ids_unique(classification_views(out@)),
        {
            proof {
                lemma_filter_take_step(self@.classifications, keep, i as int);
            }
            if self.classifications[i].id != cid {
                let ghost old_out = out@;
                let x = self.classifications[i].row_copy();
                proof {
                    assert forall|a: int| 0 <= a < old_out.len() implies (#[trigger] old_out[a]).id
                        != x.id by {
                        assert(old_out[a]@ == self@.classifications[src[a]]);
                        assert(self@.classifications[src[a]].id != self@.classifications[i as int].id);
                    }
                }
                out.push(x);
                proof {
                    src = src.push(i as int);
                    assert(classification_views(out@) =~= classification_views(old_out).push(x@));
                    assert forall|a: int, b: int| 0 <= a < b < out@.len() implies (
                    #[trigger] classification_views(out@)[a]).id != (
                    #[trigger] classification_views(out@)[b]).id by {
                        if b == out@.len() - 1 {
                            assert(old_out[a].id != x.id);
                        } else {
                            assert(classification_views(old_out)[a].id != classification_views(
                                old_out,
                            )[b].id);
                        }
                    }
                }
            }
        }
        proof {
            assert(self@.classifications.take(n as int) =~= self@.classifications);
            assert forall|a: int| 0 <= a < out@.len() implies (#[trigger] out@[a]).id
                < self@.next_classification_id by {
                assert(out@[a]@ == self@.classifications[src[a]]);
            }
        }
        out
    }

    /// Deletes item `item_id` (nothing happens when it does not exist).
    pub fn delete_item(&mut self, item_id: i64)
        requires
            old(self).wf(),
        ensures
            final(self).wf(),
            final(self)@ == without_items(old(self)@, seq![item_id]),
    {
        let mut ids: Vec<i64> = Vec::new();
        ids.push(item_id);
        assert(ids@ =~= seq![item_id]);
        let kept = self.retained_items(ids.as_slice(), None);
        self.items = kept;
        assert(self@ =~= without_items(old(self)@, seq![item_id]));
    }

    /// Deletes every item whose id is in `item_ids`.
    pub fn batch_delete_items(&mut self, item_ids: &[i64])
        requires
            old(self).wf(),
        ensures
            final(self).wf(),
            final(self)@ == without_items(old(self)@, item_ids@),
    {
        let kept = self.retained_items(item_ids, None);
        self.items = kept;
        assert(self@ =~= without_items(old(self)@, item_ids@));
    }

    /// Deletes classification `classification_id` and every item in it.
    /// Its child classifications are not touched.
    pub fn delete_classification(&mut self, classification_id: i64)
        requires
            old(self).wf(),
        ensures
            final(self).wf(),
            final(self)@ == without_classification(old(self)@, classification_id),
    {
        let none: Vec<i64> = Vec::new();
        let kept_items = self.retained_items(none.as_slice(), Some(classification_id));
        let kept_classes = self.retained_classifications(classification_id);
        self.items = kept_items;
        self.classifications = kept_classes;
        assert(self@ =~= without_classification(old(self)@, classification_id));
    }

    /// Adds a copy of `item` (its id is ignored) under the next item id and
    /// returns that id; `IdSpaceExhausted` when no id is left.
    pub fn insert_item(&mut self, item: &Item) -> (r: Result<i64, DbError>)
        requires
            old(self).wf(),
        ensures
            final(self).wf(),
            match r {
                Ok(id) => id == old(self)@.next_item_id && final(self)@ == with_new_item(
                    old(self)@,
                    item@,
                ),
                Err(e) => e == DbError::IdSpaceExhausted && old(self)@.next_item_id == i64::MAX
                    && final(self)@ == old(self)@,
            },
    {
        if self.next_item_id == i64::MAX {
            return Err(DbError::IdSpaceExhausted);
        }
        let id = self.next_item_id;
        let mut row = item.clone();
        row.id = id;
        let ghost old_items = self@.items;
        self.next_item_id = id + 1;
        self.items.push(row);
        proof {
            assert(self@.items =~= old_items.push(row@));
            assert(row@ == new_item_row(old(self)@, item@));
            assert forall|a: int, b: int| 0 <= a < b < self@.items.len() implies (
            #[trigger] self@.items[a]).id != (#[trigger] self@.items[b]).id by {
                if b == old_items.len() {
                    assert(old_items[a].id < id);
                } else {
                    assert(old_items[a].id != old_items[b].id);
                }
            }
            assert(self@ =~= with_new_item(old(self)@, item@));
        }
        Ok(id)
    }

    /// Adds an ordinary classification under the next classification id.
    fn insert_classification(&mut self, parent: Option<i64>, name: &str, order: i64) -> (r: Result<
        i64,
        DbError,
    >)
        requires
            old(self).wf(),
        ensures
            final(self).wf(),
            match r {
                Ok(id) => id == old(self)@.next_classification_id && final(self)@
                    == with_new_classification(old(self)@, parent, name@, order),
                Err(e) => e == DbError::IdSpaceExhausted && old(self)@.next_classification_id
                    == i64::MAX && final(self)@ == old(self)@,
            },
    {
        if self.next_classification_id == i64::MAX {
            return Err(DbError::IdSpaceExhausted);
        }
        let id = self.next_classification_id;
        let row = Classification {
            id,
            parent_id: parent,
            name: String::from_str(name),
            kind: 0,
            data: new_classification_data_exec(),
            shortcut_key: None,
            global_shortcut_key: false,
            order,
            child_list: Vec::new(),
        };
        let ghost old_cs = self@.classifications;
        self.next_classification_id = id + 1;
        self.classifications.push(row);
        proof {
            assert(self@.classifications =~= old_cs.push(row@));
            assert(row@ == new_classification_row(old(self)@, parent, name@, order));
            assert forall|a: int, b: int| 0 <= a < b < self@.classifications.len() implies (
            #[trigger] self@.classifications[a]).id != (#[trigger] self@.classifications[b]).id by {
                if b == old_cs.len() {
                    assert(old_cs[a].id < id);
                } else {
                    assert(old_cs[a].id != old_cs[b].id);
                }
            }
            assert(self@ =~= with_new_classification(old(self)@, parent, name@, order));
        }
        Ok(id)
    }

    /// Adds a top-level classification named `name`, ordered after the
    /// existing top-level ones, and returns its id.
    pub fn insert_parent_classification(&mut self, name: &str) -> (r: Result<i64, DbError>)
        requires
            old(self).wf(),
            max_classification_order_of(old(self)@, None) < i64::MAX,
        ensures
            final(self).wf(),
            match r {
                Ok(id) => id == old(self)@.next_classification_id && final(self)@
                    == with_new_classification(
                    old(self)@,
                    None,
                    name@,
                    (max_classification_order_of(old(self)@, None) + 1) as i64,
                ),
                Err(e) => e == DbError::IdSpaceExhausted && old(self)@.next_classification_id
                    == i64::MAX && final(self)@ == old(self)@,
            },
    {
        let order = self.max_parent_classification_order() + 1;
        self.insert_classification(None, name, order)
    }

    /// Adds a child classification of `parent_id` named `name`, ordered
    /// after its existing children, and returns its id.
    pub fn insert_child_classification(&mut self, parent_id: i64, name: &str) -> (r: Result<
        i64,
        DbError,
    >)
        requires
            old(self).wf(),
            max_classification_order_of(old(self)@, Some(parent_id)) < i64::MAX,
        ensures
            final(self).wf(),
            match r {
                Ok(id) => id == old(self)@.next_classification_id && final(self)@
                    == with_new_classification(
                    old(self)@,
                    Some(parent_id),
                    name@,
                    (max_classification_order_of(old(self)@, Some(parent_id)) + 1) as i64,
                ),
                Err(e) => e == DbError::IdSpaceExhausted && old(self)@.next_classification_id
                    == i64::MAX && final(self)@ == old(self)@,
            },
    {
        let order = self.max_child_classification_order(parent_id) + 1;
        self.insert_classification(Some(parent_id), name, order)
    }

    /// Gives a store without classifications its default one.
    pub fn ensure_default_data(&mut self) -> (r: Result<(), DbError>)
        requires
            old(self).wf(),
        ensures
            final(self).wf(),
            match r {
                Ok(()) => final(self)@ == with_default_data(old(self)@),
                Err(e) => e == DbError::IdSpaceExhausted && final(self)@ == old(self)@,
            },
    {
        if self.classifications.len() == 0 {
            proof {
                reveal_strlit("常用");
                assert("常用"@ =~= default_classification_name());
            }
            match self.insert_classification(None, "常用", 1) {
                Ok(_) => Ok(()),
                Err(e) => Err(e),
            }
        } else {
            Ok(())
        }
    }

    /// Stores `value` under `key`, replacing any earlier value.
    pub fn set_setting(&mut self, key: &str, value: &str)
        requires
            old(self).wf(),
        ensures
            final(self).wf(),
            final(self)@ == with_setting(old(self)@, key@, value@),
    {
        let ghost old_settings = self@.settings;
        match self.setting_position(key) {
            Some(i) => {
                let row = Setting { key: String::from_str(key), value: String::from_str(value) };
                self.settings.set(i, row);
                proof {
                    let f = pair_value_set(key@, value@);
                    assert forall|k: int| 0 <= k < old_settings.len() && k != i implies (
                    #[trigger] old_settings[k]).0 != key@ by {
                        if k < i {
                            assert(old_settings[k].0 != old_settings[i as int].0);
                        } else {
                            assert(old_settings[i as int].0 != old_settings[k].0);
                        }
                    }
                    assert(self@.settings =~= old_settings.map_values(f));
                    assert(old_settings[i as int].0 == key@);
                    assert forall|a: int, b: int| 0 <= a < b < self@.settings.len() implies (
                    #[trigger] self@.settings[a]).0 != (#[trigger] self@.settings[b]).0 by {
                        assert(self@.settings[a].0 == old_settings[a].0);
                        assert(self@.settings[b].0 == old_settings[b].0);
                    }
                    assert(self@ =~= with_setting(old(self)@, key@, value@));
                }
            },
            None => {
                let row = Setting { key: String::from_str(key), value: String::from_str(value) };
                self.settings.push(row);
                proof {
                    assert(self@.settings =~= old_settings.push((key@, value@)));
                    assert forall|a: int, b: int| 0 <= a < b < self@.settings.len() implies (
                    #[trigger] self@.settings[a]).0 != (#[trigger] self@.settings[b]).0 by {
                        if b == old_settings.len() {
                            assert(old_settings[a].0 != key@);
                        } else {
                            assert(old_settings[a].0 != old_settings[b].0);
                        }
                    }
                    assert(self@ =~= with_setting(old(self)@, key@, value@));
                }
            },
        }
    }

    /// Stores a flag setting as `1` or `0`.
    pub fn set_setting_bool(&mut self, key: &str, value: bool)
        requires
            old(self).wf(),
        ensures
            final(self).wf(),
            final(self)@ == with_setting(
                old(self)@,
                key@,
                if value {
                    text_one()
                } else {
                    text_zero()
                },
            ),
    {
        proof {
            reveal_strlit("1");
            reveal_strlit("0");
            assert("1"@ =~= text_one());
            assert("0"@ =~= text_zero());
        }
        self.set_setting(key, if value { "1" } else { "0" })
    }

    /// Stores a number setting as its decimal text.
    pub fn set_setting_i64(&mut self, key: &str, value: i64)
        requires
            old(self).wf(),
        ensures
            final(self).wf(),
            final(self)@ == with_setting(old(self)@, key@, decimal_seq(value as int)),
    {
        let text = format_i64(value);
        self.set_setting(key, text.as_str())
    }


    /// A copy of the store.
    fn duplicate(&self) -> (r: Database)
        requires
            self.wf(),
        ensures
            r.wf(),
            r@ == self@,
    {
        let mut cs: Vec<Classification> = Vec::new();
        let mut i: usize = 0;
        while i < self.classifications.len()
            invariant
                0 <= i <= self.classifications@.len(),
                classification_views(cs@) == classification_views(self.classifications@.take(i as int)),
                forall|a: int| 0 <= a < cs@.len() ==> (#[trigger] cs@[a]).child_list@.len() == 0,
            decreases self.classifications@.len() - i,
        {
            let ghost old_cs = cs@;
            let c = self.classifications[i].row_copy();
            cs.push(c);
            assert(classification_views(cs@) =~= classification_views(old_cs).push(c@));
            assert(self.classifications@.take(i + 1) =~= self.classifications@.take(i as int).push(
                self.classifications@[i as int],
            ));
            assert(classification_views(cs@) =~= classification_views(
                self.classifications@.take(i + 1),
            ));
            i = i + 1;
        }
        assert(self.classifications@.take(self.classifications@.len() as int)
            =~= self.classifications@);
        let mut items: Vec<Item> = Vec::new();
        let mut i: usize = 0;
        while i < self.items.len()
            invariant
                0 <= i <= self.items@.len(),
                items@ == self.items@.take(i as int),
            decreases self.items@.len() - i,
        {
            items.push(self.items[i].clone());
            assert(items@ =~= self.items@.take(i + 1));
            i = i + 1;
        }
        assert(items@ =~= self.items@);
        let mut settings: Vec<Setting> = Vec::new();
        let mut i: usize = 0;
        while i < self.settings.len()
            invariant
                0 <= i <= self.settings@.len(),
                settings@.map_values(|x: Setting| x@) == self.settings@.take(i as int).map_values(
                    |x: Setting| x@,
                ),
            decreases self.settings@.len() - i,
        {
            let ghost old_settings = settings@;
            let row = Setting { key: self.settings[i].key.clone(), value: self.settings[i].value.clone() };
            settings.push(row);
            assert(settings@.map_values(|x: Setting| x@) =~= old_settings.map_values(|x: Setting| x@).push(row@));
            assert(self.settings@.take(i + 1) =~= self.settings@.take(i as int).push(
                self.settings@[i as int],
            ));
            assert(settings@.map_values(|x: Setting| x@) =~= self.settings@.take(i + 1).map_values(
                |x: Setting| x@,
            ));
            i = i + 1;
        }
        assert(self.settings@.take(self.settings@.len() as int) =~= self.settings@);
        let r = Database {
            classifications: cs,
            items,
            settings,
            next_classification_id: self.next_classification_id,
            next_item_id: self.next_item_id,
        };
        assert(r@ =~= self@);
        r
    }

    /// Moves the items listed in `item_ids` into classification
    /// `target_class_id`, giving them orders after its current largest
    /// order, in the order of the list. Ids of missing items still use up
    /// an order number.
    pub fn batch_move_items(&mut self, item_ids: &[i64], target_class_id: i64)
        requires
            old(self).wf(),
            max_item_order_of(old(self)@, target_class_id) + item_ids@.len() <= i64::MAX,
        ensures
            final(self).wf(),
            final(self)@ == moved_items(old(self)@, item_ids@, target_class_id),
    {
        let base = self.max_item_order(target_class_id);
        let ghost s0 = self@;
        let mut max_order = base;
        let n = item_ids.len();
        assert(s0.items =~= s0.items.map_values(item_moved(item_ids@.take(0), target_class_id, base as int)));
        for k in 0..n
            invariant
                n == item_ids@.len(),
                base as int + n <= i64::MAX,
                max_order == base + k,
                self.wf(),
                self@ == (DbState {
                    items: s0.items.map_values(item_moved(item_ids@.take(k as int), target_class_id, base as int)),
                    ..s0
                }),
        {
            max_order = max_order + 1;
            let id = item_ids[k];
            let ghost cur = self@.items;
            let ghost ids_k = item_ids@.take(k as int);
            let ghost ids_k1 = item_ids@.take(k + 1);
            assert(ids_k1.drop_last() =~= ids_k);
            assert(ids_k1.last() == id);
            match self.item_position(id) {
                None => {
                    proof {
                        assert forall|j: int| 0 <= j < s0.items.len() implies (
                        #[trigger] s0.items.map_values(item_moved(ids_k1, target_class_id, base as int))[j])
                            == cur[j] by {
                            assert(cur[j].id == s0.items[j].id);
                            assert(cur[j].id != id);
                        }
                        assert(s0.items.map_values(item_moved(ids_k1, target_class_id, base as int)) =~= cur);
                    }
                },
                Some(i) => {
                    let mut row = self.items[i].clone();
                    row.classification_id = target_class_id;
                    row.order = max_order;
                    self.replace_item(i, row);
                    proof {
                        assert forall|j: int| 0 <= j < s0.items.len() implies (
                        #[trigger] s0.items.map_values(item_moved(ids_k1, target_class_id, base as int))[j])
                            == self@.items[j] by {
                            assert(cur[j].id == s0.items[j].id);
                            if j != i {
                                assert(cur[j].id != cur[i as int].id);
                            }
                        }
                        assert(s0.items.map_values(item_moved(ids_k1, target_class_id, base as int))
                            =~= self@.items);
                    }
                },
            }
        }
        assert(item_ids@.take(n as int) =~= item_ids@);
        assert(self@ =~= moved_items(s0, item_ids@, target_class_id));
    }

    /// Copies the items listed in `item_ids`, in turn, into classification
    /// `target_class_id` under new ids, giving the copies orders after its
    /// current largest order (ids of missing items still use up an order
    /// number). All or nothing: `IdSpaceExhausted` leaves the store as it was.
    pub fn batch_copy_items(&mut self, item_ids: &[i64], target_class_id: i64) -> (r: Result<
        (),
        DbError,
    >)
        requires
            old(self).wf(),
            max_item_order_of(old(self)@, target_class_id) + item_ids@.len() <= i64::MAX,
        ensures
            final(self).wf(),
            match r {
                Ok(()) => copied_items(old(self)@, item_ids@, target_class_id) == Some(final(self)@),
                Err(e) => e == DbError::IdSpaceExhausted && copied_items(
                    old(self)@,
                    item_ids@,
                    target_class_id,
                ) is None && final(self)@ == old(self)@,
            },
    {
        let base = self.max_item_order(target_class_id);
        let ghost s0 = self@;
        let mut work = self.duplicate();
        let mut max_order = base;
        let n = item_ids.len();
        for k in 0..n
            invariant
                n == item_ids@.len(),
                base as int + n <= i64::MAX,
                max_order == base + k,
                base == max_item_order_of(s0, target_class_id),
                self@ == s0,
                self.wf(),
                work.wf(),
                copied_prefix(s0, item_ids@, target_class_id, base as int, k as nat) == Some(work@),
        {
            max_order = max_order + 1;
            let id = item_ids[k];
            match work.item_position(id) {
                None => {},
                Some(i) => {
                    let mut row = work.items[i].clone();
                    row.classification_id = target_class_id;
                    row.order = max_order;
                    proof {
                        lemma_find_item_at(work@, id, i as int);
                    }
                    match work.insert_item(&row) {
                        Ok(_) => {},
                        Err(e) => {
                            proof {
                                assert(copied_prefix(s0, item_ids@, target_class_id, base as int, (k + 1) as nat) is None);
                                lemma_copied_prefix_stays_none(s0, item_ids@, target_class_id, base as int, (k + 1) as nat, n as nat);
                            }
                            return Err(e);
                        },
                    }
                },
            }
        }
        *self = work;
        Ok(())
    }


    /// Converts the targets of the items listed in `item_ids`, in turn, to
    /// paths relative to `base_dir` (see [`make_relative_path`]) and returns
    /// how many were converted. Stops with `NotFound` at the first id with
    /// no item; the conversions before it are kept.
    pub fn batch_to_relative_paths(&mut self, item_ids: &[i64], base_dir: &str) -> (r: Result<
        usize,
        DbError,
    >)
        requires
            old(self).wf(),
        ensures
            final(self).wf(),
            ({
                let (st, count, failed) = relative_prefix(
                    old(self)@,
                    item_ids@,
                    base_dir@,
                    item_ids@.len(),
                );
                &&& final(self)@ == st
                &&& count <= item_ids@.len()
                &&& failed ==> r == Err::<usize, DbError>(DbError::NotFound)
                &&& !failed ==> r == Ok::<usize, DbError>(count as usize)
            }),
    {
        let ghost s0 = self@;
        let n = item_ids.len();
        let mut updated: usize = 0;
        for k in 0..n
            invariant
                n == item_ids@.len(),
                self.wf(),
                updated <= k,
                s0 == old(self)@,
                relative_prefix(s0, item_ids@, base_dir@, k as nat) == (self@, updated as nat, false),
        {
            let id = item_ids[k];
            match self.item_position(id) {
                None => {
                    proof {
                        assert(find_item(self@, id) is None);
                        assert(relative_prefix(s0, item_ids@, base_dir@, (k + 1) as nat) == (
                            self@,
                            updated as nat,
                            true,
                        ));
                        lemma_relative_prefix_failed(s0, item_ids@, base_dir@, (k + 1) as nat, n as nat);
                    }
                    return Err(DbError::NotFound);
                },
                Some(i) => {
                    proof {
                        lemma_find_item_at(self@, id, i as int);
                    }
                    match crate::models::clone_opt_string(&self.items[i].data.target) {
                        None => {},
                        Some(t) => match make_relative_path(t.as_str(), base_dir) {
                            None => {},
                            Some(rel) => {
                                let mut row = self.items[i].clone();
                                let ghost relv = rel@;
                                row.data.target = Some(rel);
                                proof {
                                    lemma_update_item_at(self@.items, id, i as int, item_target_set(relv));
                                    assert(row@ == item_target_set(relv)(self@.items[i as int]));
                                }
                                self.replace_item(i, row);
                                updated = updated + 1;
                            },
                        },
                    }
                },
            }
        }
        Ok(updated)
    }

    /// Converts the targets of the items listed in `item_ids`, in turn, to
    /// absolute paths against `base_dir` (see [`make_absolute_path`]) and
    /// returns how many were converted. Stops with `NotFound` at the first
    /// id with no item; the conversions before it are kept. The new paths
    /// depend on the file system through canonicalization; the contract
    /// holds for the outcomes the file system gave, each either none (the
    /// joined path is kept) or an absolute path.
    pub fn batch_to_absolute_paths(&mut self, item_ids: &[i64], base_dir: &str) -> (r: Result<
        usize,
        DbError,
    >)
        requires
            old(self).wf(),
        ensures
            final(self).wf(),
            exists|outcomes: Seq<Option<Seq<char>>>|
                {
                    let (st, count, failed) = #[trigger] absolute_prefix(
                        old(self)@,
                        item_ids@,
                        base_dir@,
                        outcomes,
                        item_ids@.len(),
                    );
                    &&& outcomes.len() == item_ids@.len()
                    &&& outcomes_ok(outcomes)
                    &&& final(self)@ == st
                    &&& count <= item_ids@.len()
                    &&& failed ==> r == Err::<usize, DbError>(DbError::NotFound)
                    &&& !failed ==> r == Ok::<usize, DbError>(count as usize)
                },
    {
        let ghost s0 = self@;
        let n = item_ids.len();
        let mut updated: usize = 0;
        let ghost mut outs: Seq<Option<Seq<char>>> = seq![];
        for k in 0..n
            invariant
                n == item_ids@.len(),
                self.wf(),
                updated <= k,
                outs.len() == k,
                outcomes_ok(outs),
                s0 == old(self)@,
                absolute_prefix(s0, item_ids@, base_dir@, outs, k as nat) == (
                    self@,
                    updated as nat,
                    false,
                ),
        {
            let id = item_ids[k];
            let ghost prev_outs = outs;
            match self.item_position(id) {
                None => {
                    proof {
                        assert(find_item(self@, id) is None);
                        let full = outs.push(None::<Seq<char>>);
                        assert(outs =~= full.take(outs.len() as int));
                        lemma_absolute_prefix_outcomes(s0, item_ids@, base_dir@, outs, full, k as nat);
                        assert(full.take(k + 1) =~= full);
                        let rest = Seq::new((n - k - 1) as nat, |j: int| None::<Seq<char>>);
                        let all = full + rest;
                        assert(all.take(full.len() as int) =~= full);
                        lemma_absolute_prefix_outcomes(s0, item_ids@, base_dir@, full, all, (k + 1) as nat);
                        lemma_absolute_prefix_failed(s0, item_ids@, base_dir@, all, (k + 1) as nat, n as nat);
                        assert(all.len() == n);
                        assert(outcomes_ok(all)) by {
                            assert forall|j: int| 0 <= j < all.len() implies canonical_ok(#[trigger] all[j]) by {
                                if j < outs.len() {
                                    assert(all[j] == outs[j]);
                                }
                            }
                        }
                        assert(absolute_prefix(s0, item_ids@, base_dir@, full, (k + 1) as nat) == (
                            self@,
                            updated as nat,
                            true,
                        ));
                        assert(absolute_prefix(s0, item_ids@, base_dir@, all, n as nat) == (
                            self@,
                            updated as nat,
                            true,
                        ));
                    }
                    return Err(DbError::NotFound);
                },
                Some(i) => {
                    proof {
                        lemma_find_item_at(self@, id, i as int);
                    }
                    match crate::models::clone_opt_string(&self.items[i].data.target) {
                        None => {
                            proof {
                                outs = outs.push(None);
                            }
                        },
                        Some(t) => match make_absolute_path(t.as_str(), base_dir) {
                            None => {
                                proof {
                                    outs = outs.push(None);
                                }
                            },
                            Some(abs) => {
                                let ghost c = choose|c: Option<Seq<char>>|
                                    canonical_ok(c) && abs@ == #[trigger] absolute_choice(joined_path_text(base_dir@, t@), c);
                                let mut row = self.items[i].clone();
                                let ghost absv = abs@;
                                row.data.target = Some(abs);
                                proof {
                                    outs = outs.push(c);
                                    lemma_update_item_at(self@.items, id, i as int, item_target_set(absv));
                                    assert(row@ == item_target_set(absv)(self@.items[i as int]));
                                }
                                self.replace_item(i, row);
                                updated = updated + 1;
                            },
                        },
                    }
                    proof {
                        assert(outcomes_ok(outs)) by {
                            assert forall|j: int| 0 <= j < outs.len() implies canonical_ok(#[trigger] outs[j]) by {
                                if j < prev_outs.len() {
                                    assert(outs[j] == prev_outs[j]);
                                }
                            }
                        }
                        assert(prev_outs =~= outs.take(prev_outs.len() as int));
                        lemma_absolute_prefix_outcomes(s0, item_ids@, base_dir@, prev_outs, outs, k as nat);
                    }
                },
            }
        }
        assert(absolute_prefix(s0, item_ids@, base_dir@, outs, n as nat) == (self@, updated as nat, false));
        Ok(updated)
    }

    /// The classification rows, in table order.
    pub fn classification_rows(&self) -> (r: &Vec<Classification>)
        ensures
            classification_views(r@) == self@.classifications,
    {
        &self.classifications
    }

    /// The item rows, in table order.
    pub fn item_rows(&self) -> (r: &Vec<Item>)
        ensures
            item_views(r@) == self@.items,
    {
        &self.items
    }

    /// The setting rows, in table order.
    pub fn setting_rows(&self) -> (r: &Vec<Setting>)
        ensures
            r@.map_values(|s: Setting| s@) == self@.settings,
    {
        &self.settings
    }

    /// The id the next new classification gets.
    pub fn next_classification_id(&self) -> (r: i64)
        ensures
            r == self@.next_classification_id,
    {
        self.next_classification_id
    }

    /// The id the next new item gets.
    pub fn next_item_id(&self) -> (r: i64)
        ensures
            r == self@.next_item_id,
    {
        self.next_item_id
    }
}

} // verus!
