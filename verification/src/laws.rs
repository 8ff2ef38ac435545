//! Properties of the store and the text rules that hold across calls.

use vstd::prelude::*;
use crate::db::{
    is_in,
    DbState, classification_locked, find_classification, find_item, item_target, items_of,
    lemma_find_classification_at, lemma_find_item_at, lemma_setting_value_at, new_item_row,
    setting_flag, setting_number, setting_or, state_wf, text_one, text_zero,
    with_classification_locked, with_new_item, with_setting, without_classification,
    without_items, item_ids_unique,
};
use crate::decimal::{decimal_seq, lemma_parse_decimal};
use crate::models::ItemView;
use crate::pattern::{like_match, like_char_match};
use crate::db::{search_hits, search_pattern, name_matches, moved_items, max_item_order_of, last_position,
    opened_item, renamed_item, item_opened_at, with_default_data};
use crate::text::trim_seq;
use crate::data_url::{sextets_to_bytes, base64_decoded, b64_sextets, b64_padding, base64_encoding,
    encode_sextets, lemma_encode_decode_bytes, lemma_encode_sextets_range, lemma_sextets_of_chars,
    lemma_sextets_skip_white_space};
use crate::text::{is_white_space, seq_ends_with, seq_starts_with, trim_char_seq};
use crate::launch::{invalid_spec, item_for_path, lowercase_text, open_target_spec};
use crate::models::{ITEM_KIND_FILE, ITEM_KIND_FOLDER, ITEM_KIND_URL};
use crate::db::{copied_prefix, copied_items, max_item_order_in, max_classification_order_in,
    max_classification_order_of, parent_classifications, is_under};
use crate::models::ClassificationView;
use crate::paths::{relative_target, is_web_address, absolute_eligible, is_dot_relative, forward_slashes};

use crate::menus::{MenuCommand, MenuKind, command_entry, menu_command_spec, menu_entries_spec, menu_source_spec};
use crate::ordering::{ItemOrder, is_sorted_listing};
use crate::controller::{ControllerView, EffectView, EventView, idle, step, toggled};

verus! {

/// Reading a setting after writing it gives the value written, whatever
/// default the read names.
pub proof fn law_setting_read_after_write(s: DbState, key: Seq<char>, value: Seq<char>, default: Seq<char>)
    requires
        state_wf(s),
    ensures
        setting_or(with_setting(s, key, value), key, default) == value,
{
    let t = with_setting(s, key, value);
    if exists|i: int| 0 <= i < s.settings.len() && (#[trigger] s.settings[i]).0 == key {
        let i = choose|i: int| 0 <= i < s.settings.len() && (#[trigger] s.settings[i]).0 == key;
        assert(t.settings[i] == (key, value));
        assert forall|a: int, b: int| 0 <= a < b < t.settings.len() implies (#[trigger] t.settings[a]).0
            != (#[trigger] t.settings[b]).0 by {
            assert(t.settings[a].0 == s.settings[a].0);
            assert(t.settings[b].0 == s.settings[b].0);
        }
        lemma_setting_value_at(t, key, i);
    } else {
        let i = s.settings.len() as int;
        assert(t.settings[i] == (key, value));
        assert forall|a: int, b: int| 0 <= a < b < t.settings.len() implies (#[trigger] t.settings[a]).0
            != (#[trigger] t.settings[b]).0 by {
            if b == i {
                assert(s.settings[a].0 != key);
            } else {
                assert(s.settings[a].0 != s.settings[b].0);
            }
        }
        lemma_setting_value_at(t, key, i);
    }
}

/// Writing one setting leaves every other setting as it was.
pub proof fn law_setting_write_keeps_others(
    s: DbState,
    key: Seq<char>,
    value: Seq<char>,
    other: Seq<char>,
    default: Seq<char>,
)
    requires
        state_wf(s),
        other != key,
    ensures
        setting_or(with_setting(s, key, value), other, default) == setting_or(s, other, default),
{
    let t = with_setting(s, key, value);
    if exists|j: int| 0 <= j < s.settings.len() && (#[trigger] s.settings[j]).0 == other {
        let j = choose|j: int| 0 <= j < s.settings.len() && (#[trigger] s.settings[j]).0 == other;
        lemma_setting_value_at(s, other, j);
        assert(t.settings[j] == s.settings[j]);
        assert forall|a: int, b: int| 0 <= a < b < t.settings.len() implies (#[trigger] t.settings[a]).0
            != (#[trigger] t.settings[b]).0 by {
            if exists|i: int| 0 <= i < s.settings.len() && (#[trigger] s.settings[i]).0 == key {
                assert(t.settings[a].0 == s.settings[a].0);
                assert(t.settings[b].0 == s.settings[b].0);
            } else if b == s.settings.len() {
                assert(s.settings[a].0 != key);
            } else {
                assert(s.settings[a].0 != s.settings[b].0);
            }
        }
        lemma_setting_value_at(t, other, j);
    } else {
        assert forall|j: int| 0 <= j < t.settings.len() implies (#[trigger] t.settings[j]).0 != other by {
            if j < s.settings.len() {
                if s.settings[j].0 == key {
                } else {
                    assert(t.settings[j] == s.settings[j]);
                }
            }
        }
    }
}

/// A flag written with `set_setting_bool` reads back as written.
pub proof fn law_flag_round_trip(s: DbState, key: Seq<char>, value: bool, default: bool)
    requires
        state_wf(s),
    ensures
        setting_flag(
            with_setting(s, key, if value { text_one() } else { text_zero() }),
            key,
            default,
        ) == value,
{
    let v = if value { text_one() } else { text_zero() };
    let d = if default { text_one() } else { text_zero() };
    law_setting_read_after_write(s, key, v, d);
    if !value {
        assert(text_zero()[0] != text_one()[0]);
    }
}

/// A number written with `set_setting_i64` reads back as written.
pub proof fn law_number_round_trip(s: DbState, key: Seq<char>, value: i64, default: i64)
    requires
        state_wf(s),
    ensures
        setting_number(with_setting(s, key, decimal_seq(value as int)), key, default) == value,
{
    law_setting_read_after_write(s, key, decimal_seq(value as int), decimal_seq(default as int));
    lemma_parse_decimal(value);
}

/// A classification's item-order lock reads back as it was set.
pub proof fn law_lock_round_trip(s: DbState, cid: i64, locked: bool)
    requires
        state_wf(s),
        find_classification(s, cid) is Some,
    ensures
        classification_locked(with_classification_locked(s, cid, locked), cid) == locked,
{
    let i = choose|i: int| 0 <= i < s.classifications.len() && (#[trigger] s.classifications[i]).id == cid;
    let t = with_classification_locked(s, cid, locked);
    assert(t.classifications[i].id == cid);
    assert forall|a: int, b: int| 0 <= a < b < t.classifications.len() implies (
    #[trigger] t.classifications[a]).id != (#[trigger] t.classifications[b]).id by {
        assert(t.classifications[a].id == s.classifications[a].id);
        assert(t.classifications[b].id == s.classifications[b].id);
    }
    lemma_find_classification_at(t, cid, i);
}

/// Deleting a classification leaves no item in it, and leaves the items of
/// every other classification as they were.
pub proof fn law_delete_classification_removes_its_items(s: DbState, cid: i64, other: i64)
    requires
        other != cid,
    ensures
        items_of(without_classification(s, cid), cid).len() == 0,
        items_of(without_classification(s, cid), other) == items_of(s, other),
        find_classification(without_classification(s, cid), cid) is None,
{
    let t = without_classification(s, cid);
    broadcast use vstd::seq_lib::group_filter_ensures;
    if items_of(t, cid).len() > 0 {
        let it = items_of(t, cid)[0];
        assert(crate::db::is_in(cid)(it));
        assert(items_of(t, cid).contains(it));
        t.items.lemma_filter_contains_rev(crate::db::is_in(cid), it);
        let j = choose|j: int| 0 <= j < t.items.len() && t.items[j] == it;
        assert(crate::db::not_in_class(cid)(t.items[j]));
    }
    lemma_filter_twice(s.items, cid, other);
    if find_classification(t, cid) is Some {
        let i = choose|i: int| 0 <= i < t.classifications.len() && (#[trigger] t.classifications[i]).id == cid;
        assert(t.classifications.contains(t.classifications[i]));
    }
}

proof fn lemma_filter_twice(items: Seq<ItemView>, cid: i64, other: i64)
    requires
        other != cid,
    ensures
        items.filter(crate::db::not_in_class(cid)).filter(crate::db::is_in(other)) == items.filter(
            crate::db::is_in(other),
        ),
    decreases items.len(),
{
    reveal(Seq::filter);
    if items.len() > 0 {
        lemma_filter_twice(items.drop_last(), cid, other);
        let a = items.drop_last().filter(crate::db::not_in_class(cid));
        if items.last().classification_id != cid {
            assert(a.push(items.last()).drop_last() =~= a);
        }
    }
}

/// After the items listed in `ids` are deleted, none of them is found, and
/// every other item still is, unchanged.
pub proof fn law_batch_delete(s: DbState, ids: Seq<i64>, id: i64)
    requires
        state_wf(s),
    ensures
        ids.contains(id) ==> find_item(without_items(s, ids), id) is None,
        !ids.contains(id) ==> find_item(without_items(s, ids), id) == find_item(s, id),
{
    let t = without_items(s, ids);
    broadcast use vstd::seq_lib::group_filter_ensures;
    if ids.contains(id) {
        if find_item(t, id) is Some {
            let i = choose|i: int| 0 <= i < t.items.len() && (#[trigger] t.items[i]).id == id;
            assert(t.items.contains(t.items[i]));
        }
    } else {
        lemma_filter_unique(s.items, crate::db::id_not_in(ids));
        if find_item(s, id) is Some {
            let i = choose|i: int| 0 <= i < s.items.len() && (#[trigger] s.items[i]).id == id;
            assert(t.items.contains(s.items[i]));
            let j = choose|j: int| 0 <= j < t.items.len() && t.items[j] == s.items[i];
            lemma_find_item_at(t, id, j);
            lemma_find_item_at(s, id, i);
        } else {
            if find_item(t, id) is Some {
                let j = choose|j: int| 0 <= j < t.items.len() && (#[trigger] t.items[j]).id == id;
                assert(t.items.contains(t.items[j]));
                s.items.lemma_filter_contains_rev(crate::db::id_not_in(ids), t.items[j]);
            }
        }
    }
}

/// Filtering keeps ids unique.
pub proof fn lemma_filter_unique(items: Seq<ItemView>, p: spec_fn(ItemView) -> bool)
    requires
        item_ids_unique(items),
    ensures
        item_ids_unique(items.filter(p)),
    decreases items.len(),
{
    reveal(Seq::filter);
    broadcast use vstd::seq_lib::group_filter_ensures;
    if items.len() > 0 {
        let d = items.drop_last();
        assert(item_ids_unique(d));
        lemma_filter_unique(d, p);
        let f = d.filter(p);
        if p(items.last()) {
            let g = f.push(items.last());
            assert forall|a: int, b: int| 0 <= a < b < g.len() implies (#[trigger] g[a]).id != (
            #[trigger] g[b]).id by {
                if b == g.len() - 1 {
                    assert(f.contains(f[a]));
                    d.lemma_filter_contains_rev(p, f[a]);
                    let k = choose|k: int| 0 <= k < d.len() && d[k] == f[a];
                    assert(items[k] == d[k]);
                    assert(items[k].id != items[items.len() - 1].id);
                } else {
                    assert(g[a] == f[a] && g[b] == f[b]);
                }
            }
        }
    }
}

/// An inserted item is found under the id it got, with the target it was
/// given.
pub proof fn law_insert_then_find(s: DbState, it: ItemView)
    requires
        state_wf(s),
    ensures
        find_item(with_new_item(s, it), s.next_item_id as i64) == Some(new_item_row(s, it)),
        item_target(with_new_item(s, it), s.next_item_id as i64) == it.data.target,
        items_of(with_new_item(s, it), it.classification_id).contains(new_item_row(s, it)),
{
    let t = with_new_item(s, it);
    let i = s.items.len() as int;
    assert(t.items[i] == new_item_row(s, it));
    assert forall|a: int, b: int| 0 <= a < b < t.items.len() implies (#[trigger] t.items[a]).id != (
    #[trigger] t.items[b]).id by {
        if b == i {
            assert(s.items[a].id < s.next_item_id);
        } else {
            assert(s.items[a].id != s.items[b].id);
        }
    }
    lemma_find_item_at(t, s.next_item_id as i64, i);
    broadcast use vstd::seq_lib::group_filter_ensures;
    assert(t.items.contains(new_item_row(s, it)) ==> true);
    assert(crate::db::is_in(it.classification_id)(t.items[i]));
}

proof fn lemma_percent_matches_all(t: Seq<char>)
    ensures
        like_match(seq!['%'], t),
    decreases t.len(),
{
    let p = seq!['%'];
    assert(p[0] == '%');
    assert(p.drop_first().len() == 0);
    if t.len() > 0 {
        lemma_percent_matches_all(t.drop_first());
        assert(like_match(p, t.drop_first()));
    } else {
        assert(like_match(p.drop_first(), t));
    }
}

proof fn lemma_leading_percent(r: Seq<char>, t: Seq<char>, k: int)
    requires
        0 <= k <= t.len(),
        like_match(r, t.skip(k)),
    ensures
        like_match(seq!['%'] + r, t),
    decreases k,
{
    let p = seq!['%'] + r;
    assert(p[0] == '%');
    assert(p.drop_first() =~= r);
    if k == 0 {
        assert(t.skip(0) =~= t);
    } else {
        assert(t.drop_first().skip(k - 1) =~= t.skip(k));
        lemma_leading_percent(r, t.drop_first(), k - 1);
    }
}

proof fn lemma_literal_prefix(r: Seq<char>, tail: Seq<char>)
    requires
        forall|i: int| 0 <= i < r.len() ==> (#[trigger] r[i]) != '%' && r[i] != '_',
    ensures
        like_match(r + seq!['%'], r + tail),
    decreases r.len(),
{
    if r.len() == 0 {
        assert(r + seq!['%'] =~= seq!['%']);
        assert(r + tail =~= tail);
        lemma_percent_matches_all(tail);
    } else {
        let p = r + seq!['%'];
        let t = r + tail;
        assert(p[0] == r[0] && t[0] == r[0]);
        assert(like_char_match(r[0], r[0]));
        assert(p.drop_first() =~= r.drop_first() + seq!['%']);
        assert(t.drop_first() =~= r.drop_first() + tail);
        assert forall|i: int| 0 <= i < r.drop_first().len() implies (#[trigger] r.drop_first()[i]) != '%'
            && r.drop_first()[i] != '_' by {
            assert(r.drop_first()[i] == r[i + 1]);
        }
        lemma_literal_prefix(r.drop_first(), tail);
    }
}

/// Quick search finds every item whose name contains the trimmed query,
/// when the query holds no `LIKE` wildcard (`%` or `_`).
pub proof fn law_search_finds_containing_names(
    s: DbState,
    q: Seq<char>,
    i: int,
    before: Seq<char>,
    after: Seq<char>,
)
    requires
        0 <= i < s.items.len(),
        s.items[i].name == before + trim_seq(q) + after,
        forall|k: int| 0 <= k < trim_seq(q).len() ==> (#[trigger] trim_seq(q)[k]) != '%' && trim_seq(q)[k] != '_',
    ensures
        search_hits(s, q).contains(s.items[i]),
{
    let r = trim_seq(q);
    let name = s.items[i].name;
    lemma_literal_prefix(r, after);
    assert(name.skip(before.len() as int) =~= r + after);
    lemma_leading_percent(r + seq!['%'], name, before.len() as int);
    assert(search_pattern(q) =~= seq!['%'] + (r + seq!['%']));
    assert(name_matches(search_pattern(q))(s.items[i]));
    broadcast use vstd::seq_lib::group_filter_ensures;
    s.items.lemma_filter_contains(name_matches(search_pattern(q)), i);
}

proof fn lemma_last_position(ids: Seq<i64>, id: i64)
    ensures
        -1 <= last_position(ids, id) < ids.len(),
        ids.contains(id) <==> last_position(ids, id) >= 0,
    decreases ids.len(),
{
    if ids.len() > 0 {
        lemma_last_position(ids.drop_last(), id);
        if ids.last() != id {
            if ids.contains(id) {
                let k = choose|k: int| 0 <= k < ids.len() && ids[k] == id;
                assert(ids.drop_last()[k] == id);
            }
            if ids.drop_last().contains(id) {
                let k = choose|k: int| 0 <= k < ids.drop_last().len() && ids.drop_last()[k] == id;
                assert(ids[k] == id);
            }
        } else {
            assert(ids[ids.len() - 1] == id);
        }
    }
}

/// A batch move keeps every item (same ids, same positions); each item
/// listed ends up in the target classification with an order after every
/// order the target had before; the others are unchanged.
pub proof fn law_batch_move(s: DbState, ids: Seq<i64>, target: i64, j: int)
    requires
        0 <= j < s.items.len(),
        max_item_order_of(s, target) + ids.len() <= i64::MAX,
    ensures
        moved_items(s, ids, target).items.len() == s.items.len(),
        moved_items(s, ids, target).items[j].id == s.items[j].id,
        ids.contains(s.items[j].id) ==> moved_items(s, ids, target).items[j].classification_id == target
            && moved_items(s, ids, target).items[j].order > max_item_order_of(s, target),
        !ids.contains(s.items[j].id) ==> moved_items(s, ids, target).items[j] == s.items[j],
{
    lemma_last_position(ids, s.items[j].id);
}

/// Opening an existing item counts one more open (unless the count is at
/// its maximum) and records the time.
pub proof fn law_record_open(s: DbState, id: i64, now: i64)
    requires
        state_wf(s),
        find_item(s, id) is Some,
    ensures
        find_item(opened_item(s, id, now), id) matches Some(it) && it.data.last_open == now
            && (find_item(s, id)->0.data.open_number < i64::MAX ==> it.data.open_number
            == find_item(s, id)->0.data.open_number + 1),
{
    let i = choose|i: int| 0 <= i < s.items.len() && (#[trigger] s.items[i]).id == id;
    lemma_find_item_at(s, id, i);
    let t = opened_item(s, id, now);
    assert(t.items[i] == item_opened_at(now)(s.items[i]));
    assert forall|a: int, b: int| 0 <= a < b < t.items.len() implies (#[trigger] t.items[a]).id != (
    #[trigger] t.items[b]).id by {
        assert(t.items[a].id == s.items[a].id);
        assert(t.items[b].id == s.items[b].id);
    }
    lemma_find_item_at(t, id, i);
}

/// A renamed item is found under its new name.
pub proof fn law_rename_item(s: DbState, id: i64, name: Seq<char>)
    requires
        state_wf(s),
        find_item(s, id) is Some,
    ensures
        find_item(renamed_item(s, id, name), id) matches Some(it) && it.name == name,
{
    let i = choose|i: int| 0 <= i < s.items.len() && (#[trigger] s.items[i]).id == id;
    let t = renamed_item(s, id, name);
    assert(t.items[i].id == id && t.items[i].name == name);
    assert forall|a: int, b: int| 0 <= a < b < t.items.len() implies (#[trigger] t.items[a]).id != (
    #[trigger] t.items[b]).id by {
        assert(t.items[a].id == s.items[a].id);
        assert(t.items[b].id == s.items[b].id);
    }
    lemma_find_item_at(t, id, i);
}

/// Making sure the default data exists a second time changes nothing.
pub proof fn law_default_data_idempotent(s: DbState)
    ensures
        with_default_data(with_default_data(s)) == with_default_data(s),
{
}

/// Web addresses are never converted, in either direction.
pub proof fn law_web_addresses_never_converted(t: Seq<char>, base: Seq<char>)
    requires
        is_web_address(t),
    ensures
        relative_target(t, base) is None,
        !absolute_eligible(t),
{
}

/// A relative target starts with `.`: converting it to a relative path
/// again does nothing.
pub proof fn law_relative_is_final(t: Seq<char>, base: Seq<char>, other_base: Seq<char>)
    ensures
        relative_target(t, base) matches Some(r) ==> is_dot_relative(r) && relative_target(r, other_base)
            is None,
{
    if let Some(r) = relative_target(t, base) {
        let d = crate::paths::diff_paths_text(t, base)->0;
        let rel = forward_slashes(d);
        if rel[0] != '.' {
            assert((seq!['.', '/'] + rel)[0] == '.');
        }
    }
}

proof fn lemma_sextets_len(v: Seq<int>)
    ensures
        sextets_to_bytes(v).len() == (v.len() * 6) / 8,
    decreases v.len(),
{
    if v.len() >= 4 {
        lemma_sextets_len(v.skip(4));
    }
}

/// Base64 decoding yields six bits per decoded character, whole bytes
/// only: `n` characters give `6n / 8` bytes.
pub proof fn law_base64_length(s: Seq<char>)
    ensures
        b64_sextets(s) matches Some(v) ==> base64_decoded(s) matches Some(b) && b.len() == (v.len() * 6) / 8,
{
    if let Some(v) = b64_sextets(s) {
        lemma_sextets_len(v);
    }
}

proof fn lemma_copied_prefix_appends(s: DbState, ids: Seq<i64>, target: i64, base: int, k: nat)
    requires
        copied_prefix(s, ids, target, base, k) is Some,
    ensures
        ({
            let p = copied_prefix(s, ids, target, base, k)->0;
            &&& p.items.len() >= s.items.len()
            &&& p.items.take(s.items.len() as int) == s.items
            &&& forall|j: int| s.items.len() <= j < p.items.len() ==> (#[trigger] p.items[j]).classification_id
                == target
            &&& p.classifications == s.classifications
            &&& p.settings == s.settings
        }),
    decreases k,
{
    if k == 0 {
        assert(s.items.take(s.items.len() as int) =~= s.items);
    } else {
        lemma_copied_prefix_appends(s, ids, target, base, (k - 1) as nat);
        let q = copied_prefix(s, ids, target, base, (k - 1) as nat)->0;
        let p = copied_prefix(s, ids, target, base, k)->0;
        if find_item(q, ids[k - 1]) is Some {
            assert(p.items =~= q.items.push(p.items.last()));
            assert(p.items.take(s.items.len() as int) =~= q.items.take(s.items.len() as int));
        } else {
            assert(p == q);
        }
    }
}

/// A batch copy only appends: every item that was there stays, in place
/// and unchanged, and every new item is in the target classification.
pub proof fn law_batch_copy_appends(s: DbState, ids: Seq<i64>, target: i64)
    requires
        copied_items(s, ids, target) is Some,
    ensures
        ({
            let t = copied_items(s, ids, target)->0;
            &&& t.items.len() >= s.items.len()
            &&& t.items.take(s.items.len() as int) == s.items
            &&& forall|j: int| s.items.len() <= j < t.items.len() ==> (#[trigger] t.items[j]).classification_id
                == target
            &&& t.classifications == s.classifications
        }),
{
    lemma_copied_prefix_appends(s, ids, target, max_item_order_of(s, target) as int, ids.len());
}

proof fn lemma_max_classification_order(cs: Seq<ClassificationView>, parent: Option<i64>)
    ensures
        max_classification_order_in(cs, parent) matches Some(m) ==> forall|i: int|
            0 <= i < cs.len() && (#[trigger] cs[i]).parent_id == parent ==> cs[i].order <= m,
        max_classification_order_in(cs, parent) is None ==> forall|i: int|
            0 <= i < cs.len() ==> (#[trigger] cs[i]).parent_id != parent,
    decreases cs.len(),
{
    if cs.len() > 0 {
        lemma_max_classification_order(cs.drop_last(), parent);
        assert forall|i: int| 0 <= i < cs.len() - 1 implies #[trigger] cs[i] == cs.drop_last()[i] by {}
    }
}

/// A new top-level classification gets an order above every existing
/// top-level classification, so it is listed last.
pub proof fn law_new_parent_classification_last(s: DbState, name: Seq<char>, c: ClassificationView)
    requires
        max_classification_order_of(s, None) < i64::MAX,
        parent_classifications(s).contains(c),
    ensures
        c.order < (max_classification_order_of(s, None) + 1) as i64,
{
    lemma_max_classification_order(s.classifications, None);
    s.classifications.lemma_filter_contains_rev(is_under(None), c);
    let i = choose|i: int| 0 <= i < s.classifications.len() && s.classifications[i] == c;
    assert(is_under(None)(c)) by {
        broadcast use vstd::seq_lib::group_filter_ensures;
        let j = choose|j: int| 0 <= j < parent_classifications(s).len() && parent_classifications(s)[j] == c;
        assert(is_under(None)(parent_classifications(s)[j]));
    }
    assert(s.classifications[i].parent_id == None::<i64>);
}

proof fn lemma_max_item_order(items: Seq<ItemView>, cid: i64)
    ensures
        max_item_order_in(items, cid) matches Some(m) ==> forall|i: int|
            0 <= i < items.len() && (#[trigger] items[i]).classification_id == cid ==> items[i].order <= m,
        max_item_order_in(items, cid) is None ==> forall|i: int|
            0 <= i < items.len() ==> (#[trigger] items[i]).classification_id != cid,
    decreases items.len(),
{
    if items.len() > 0 {
        lemma_max_item_order(items.drop_last(), cid);
        assert forall|i: int| 0 <= i < items.len() - 1 implies #[trigger] items[i] == items.drop_last()[i] by {}
    }
}

/// Every item of a classification has an order no larger than its
/// largest order (the base that new and moved items are numbered after).
pub proof fn law_max_item_order_bounds(s: DbState, cid: i64, i: int)
    requires
        0 <= i < s.items.len(),
        s.items[i].classification_id == cid,
    ensures
        s.items[i].order <= max_item_order_of(s, cid),
{
    lemma_max_item_order(s.items, cid);
}


/// Every entry a context menu offers is one the window knows how to carry
/// out: choosing it never falls through to the unknown command.
pub proof fn law_menu_entries_are_handled(k: MenuKind, i: int)
    requires
        0 <= i < menu_entries_spec(k).len(),
        !menu_entries_spec(k)[i].separator,
    ensures
        menu_command_spec(menu_source_spec(k), menu_entries_spec(k)[i].id) != MenuCommand::Unknown,
{
    reveal_strlit("item");
    reveal_strlit("classification-item");
    reveal_strlit("classification-area");
    reveal_strlit("item-area");
    reveal_strlit("batch");
    reveal_strlit("open");
    reveal_strlit("open-location");
    reveal_strlit("rename");
    reveal_strlit("copy-path");
    reveal_strlit("refresh-icon");
    reveal_strlit("to-relative");
    reveal_strlit("to-absolute");
    reveal_strlit("delete");
    reveal_strlit("add-child");
    reveal_strlit("new-classification");
    reveal_strlit("lock-order");
    reveal_strlit("new-item");
    reveal_strlit("item-settings");
    reveal_strlit("lock-item-order");
    reveal_strlit("batch-mode");
    reveal_strlit("select-all");
    reveal_strlit("batch-move");
    reveal_strlit("batch-copy");
    reveal_strlit("batch-rel-path");
    reveal_strlit("batch-abs-path");
    reveal_strlit("batch-refresh-icon");
    reveal_strlit("batch-delete");
    reveal_strlit("batch-cancel");
    assert("item"@.len() == 4 && "item-area"@.len() == 9 && "batch"@.len() == 5);
    assert("classification-area"@.len() == 19 && "classification-item"@.len() == 19);
    assert("classification-area"@[15] != "classification-item"@[15]);
    assert("open"@.len() == 4 && "open-location"@.len() == 13 && "rename"@.len() == 6);
    assert("copy-path"@.len() == 9 && "refresh-icon"@.len() == 12 && "delete"@.len() == 6);
    assert("to-relative"@.len() == 11 && "to-absolute"@.len() == 11);
    assert("to-absolute"@[3] != "to-relative"@[3]);
    assert("delete"@[0] != "rename"@[0]);
    assert("add-child"@.len() == 9);
    assert("new-classification"@.len() == 18 && "lock-order"@.len() == 10);
    assert("new-item"@.len() == 8 && "batch-mode"@.len() == 10);
    assert("lock-item-order"@.len() == 15 && "item-settings"@.len() == 13);
    assert("select-all"@.len() == 10 && "batch-move"@.len() == 10 && "batch-copy"@.len() == 10);
    assert("select-all"@[0] != "batch-move"@[0] && "select-all"@[0] != "batch-copy"@[0]);
    assert("batch-move"@[6] != "batch-copy"@[6]);
    assert("batch-delete"@.len() == 12 && "batch-cancel"@.len() == 12);
    assert("batch-delete"@[6] != "batch-cancel"@[6]);
    assert("batch-rel-path"@.len() == 14 && "batch-abs-path"@.len() == 14);
    assert("batch-rel-path"@[6] != "batch-abs-path"@[6]);
    assert("batch-refresh-icon"@.len() == 18);
    let e = menu_entries_spec(k);
    match k {
        MenuKind::Item => {
            assert(i == 0 || i == 1 || i == 3 || i == 4 || i == 5 || i == 7 || i == 8 || i == 10);
        },
        MenuKind::ClassificationItem(with_children) => {
            if with_children {
                assert(i == 0 || i == 1 || i == 3);
            } else {
                assert(i == 0 || i == 2);
            }
        },
        MenuKind::ClassificationArea => {
            assert(i == 0 || i == 2);
        },
        MenuKind::ItemArea => {
            assert(i == 0 || i == 1 || i == 3 || i == 4);
        },
        MenuKind::Batch => {
            assert(i == 0 || i == 2 || i == 3 || i == 5 || i == 6 || i == 8 || i == 10 || i == 12);
        },
    }
}


/// Clicking the same item twice in batch mode leaves the window as it was
/// and the store untouched.
pub proof fn law_batch_click_twice(
    c: ControllerView,
    s: DbState,
    id: i32,
    now: i64,
    c1: ControllerView,
    s1: DbState,
    e1: Seq<EffectView>,
    c2: ControllerView,
    s2: DbState,
    e2: Seq<EffectView>,
)
    requires
        c.batch,
        step(c, s, EventView::ItemClicked(id), now, c1, s1, e1),
        step(c1, s1, EventView::ItemClicked(id), now, c2, s2, e2),
    ensures
        c2 == c,
        s2 == s,
{
    assert(toggled(toggled(c.shown, id), id) =~= c.shown);
}

/// Cancelling a dialog (or answering no) never changes the store or shows
/// anything; the dialog it answered, if any, is closed.
pub proof fn law_cancel_keeps_store(
    c: ControllerView,
    s: DbState,
    ev: EventView,
    now: i64,
    c2: ControllerView,
    s2: DbState,
    e: Seq<EffectView>,
)
    requires
        ev == EventView::FileChosen(None) || ev == EventView::TextEntered(None) || ev
            == EventView::Confirmed(false),
        step(c, s, ev, now, c2, s2, e),
    ensures
        s2 == s,
        e.len() == 0,
        c2 == c || c2 == idle(c),
{
}

/// Clicking, right-clicking, opening the settings page, asking for a new
/// item or classification and closing the window never change the store.
pub proof fn law_view_events_keep_store(
    c: ControllerView,
    s: DbState,
    ev: EventView,
    now: i64,
    c2: ControllerView,
    s2: DbState,
    e: Seq<EffectView>,
)
    requires
        ev is ClassificationClicked || ev is ItemRightClicked || ev is ClassificationRightClicked
            || ev is ItemAreaRightClicked || ev is ClassificationAreaRightClicked || ev is AddItemClicked
            || ev is AddClassificationClicked || ev is SettingsClicked || ev is WindowClosed,
        step(c, s, ev, now, c2, s2, e),
    ensures
        s2 == s,
{
}


/// An item added to a classification with an order above every order
/// there (as new and dropped items get) is listed last when the
/// classification lists its items by order.
pub proof fn law_added_item_listed_last(s: DbState, it: ItemView, r: Seq<ItemView>)
    requires
        it.order > max_item_order_of(s, it.classification_id),
        is_sorted_listing(ItemOrder::ByOrder, r, items_of(with_new_item(s, it), it.classification_id)),
    ensures
        r.len() > 0,
        r.last() == new_item_row(s, it),
{
    let cid = it.classification_id;
    let s2 = with_new_item(s, it);
    let row = new_item_row(s, it);
    let old_items = items_of(s, cid);
    let new_items = items_of(s2, cid);
    s.items.lemma_filter_push(row, is_in(cid));
    assert(new_items == old_items.push(row));
    assert(new_items[old_items.len() as int] == row);
    assert(new_items.contains(row));
    vstd::seq_lib::to_multiset_contains(new_items, row);
    vstd::seq_lib::to_multiset_contains(r, row);
    assert(r.contains(row));
    let j = choose|j: int| 0 <= j < r.len() && r[j] == row;
    let n = r.len() as int;
    let last = r[n - 1];
    assert(last.order >= row.order) by {
        if j < n - 1 {
            assert(crate::ordering::item_le(ItemOrder::ByOrder, r[j], r[n - 1]));
        }
    }
    assert(r.contains(last));
    vstd::seq_lib::to_multiset_contains(r, last);
    vstd::seq_lib::to_multiset_contains(new_items, last);
    assert(new_items.contains(last));
    if last != row {
        let k = choose|k: int| 0 <= k < new_items.len() && new_items[k] == last;
        assert(k < old_items.len());
        assert(old_items[k] == last);
        s.items.lemma_filter_pred(is_in(cid), k);
        assert(last.classification_id == cid);
        assert(old_items.contains(last));
        s.items.lemma_filter_contains_rev(is_in(cid), last);
        let i = choose|i: int| 0 <= i < s.items.len() && s.items[i] == last;
        lemma_max_item_order(s.items, cid);
        assert(s.items[i].order <= max_item_order_of(s, cid));
    }
}


/// Decoding the standard Base64 encoding of some bytes gives the bytes
/// back, whether the encoding carries `=` padding or not and wherever
/// white space stands in it: any text that, white space left out, is the
/// encoding followed by `pad` padding characters decodes to the bytes.
pub proof fn law_base64_round_trip(bytes: Seq<u8>, pad: nat, text: Seq<char>)
    requires
        text.filter(|c: char| !is_white_space(c)) == base64_encoding(bytes) + b64_padding(pad),
    ensures
        base64_decoded(text) == Some(bytes),
{
    lemma_sextets_skip_white_space(text);
    lemma_encode_sextets_range(bytes);
    lemma_sextets_of_chars(encode_sextets(bytes), pad);
    lemma_encode_decode_bytes(bytes);
}


/// A menu choice is carried out as the command of that very entry: the
/// command that a menu's source name and an entry id select (unless it is
/// the unknown command) is the one that stands for that source and id, so
/// `("item", "to-absolute")` selects the conversion to absolute paths and
/// no other.
pub proof fn law_menu_command_is_its_entry(source: Seq<char>, action: Seq<char>)
    ensures
        menu_command_spec(source, action) != MenuCommand::Unknown ==> command_entry(
            menu_command_spec(source, action),
        ) == (source, action),
{
}

/// Different menu entries select different commands.
pub proof fn law_menu_commands_distinct(s1: Seq<char>, a1: Seq<char>, s2: Seq<char>, a2: Seq<char>)
    requires
        menu_command_spec(s1, a1) != MenuCommand::Unknown,
        menu_command_spec(s1, a1) == menu_command_spec(s2, a2),
    ensures
        s1 == s2 && a1 == a2,
{
    law_menu_command_is_its_entry(s1, a1);
    law_menu_command_is_its_entry(s2, a2);
}


/// A path that, its surrounding double quotes trimmed, starts with
/// `http://` or `https://` becomes a web-address item named after that text
/// and targeting it, whatever the file system says about it.
pub proof fn law_web_paths_make_url_items(path: Seq<char>, cid: i64, order: i64, is_dir: bool)
    requires
        seq_starts_with(trim_char_seq(path, '"'), "http://"@) || seq_starts_with(
            trim_char_seq(path, '"'),
            "https://"@,
        ),
    ensures
        item_for_path(path, cid, order, is_dir).kind == ITEM_KIND_URL,
        item_for_path(path, cid, order, is_dir).name == trim_char_seq(path, '"'),
        item_for_path(path, cid, order, is_dir).data.target == Some(trim_char_seq(path, '"')),
{
    reveal_strlit("http://");
    reveal_strlit("https://");
    assert("http://"@ =~= crate::paths::http_prefix());
    assert("https://"@ =~= crate::paths::https_prefix());
}

/// Every item built from a path targets the path with its surrounding
/// double quotes trimmed and lands in the classification and at the order
/// asked for. It is a web-address item exactly when that text starts with
/// `http://` or `https://`; otherwise it is a folder item exactly when the
/// file system says it is a folder and it is not a `.lnk` shortcut, and a
/// file item in every other case.
pub proof fn law_item_for_path_kinds(path: Seq<char>, cid: i64, order: i64, is_dir: bool)
    ensures
        ({
            let p = trim_char_seq(path, '"');
            let it = item_for_path(path, cid, order, is_dir);
            let web = seq_starts_with(p, "http://"@) || seq_starts_with(p, "https://"@);
            &&& it.data.target == Some(p)
            &&& it.classification_id == cid
            &&& it.order == order
            &&& (it.kind == ITEM_KIND_URL <==> web)
            &&& !web ==> (it.kind == ITEM_KIND_FOLDER <==> (is_dir && !seq_ends_with(
                lowercase_text(p),
                ".lnk"@,
            )))
            &&& !web ==> (it.kind == ITEM_KIND_FILE || it.kind == ITEM_KIND_FOLDER)
        }),
{
    reveal_strlit("http://");
    reveal_strlit("https://");
    reveal_strlit(".lnk");
    assert("http://"@ =~= crate::paths::http_prefix());
    assert("https://"@ =~= crate::paths::https_prefix());
    assert(".lnk"@ =~= crate::launch::lnk_suffix());
}


/// Every target written relative to a directory (starting with `.`, so
/// `./x` and `../x` alike) is converted to an absolute path, unless its
/// second character is `:` (then it reads as a Windows drive path).
pub proof fn law_dot_targets_are_converted(t: Seq<char>)
    requires
        t.len() > 0,
        t[0] == '.',
        !(t.len() >= 2 && t[1] == ':'),
    ensures
        absolute_eligible(t),
{
    assert(!seq_starts_with(t, seq!['\\', '\\'])) by {
        if seq_starts_with(t, seq!['\\', '\\']) {
            assert(t.take(2)[0] == t[0]);
        }
    }
    assert(!is_web_address(t)) by {
        if seq_starts_with(t, crate::paths::http_prefix()) {
            assert(t.take(7)[0] == t[0]);
        }
        if seq_starts_with(t, crate::paths::https_prefix()) {
            assert(t.take(8)[0] == t[0]);
        }
    }
}

/// What converting to a relative path gives is converted back by the
/// conversion to an absolute path (unless its second character is `:`).
pub proof fn law_relative_targets_convert_back(target: Seq<char>, base: Seq<char>, rel: Seq<char>)
    requires
        relative_target(target, base) == Some(rel),
        !(rel.len() >= 2 && rel[1] == ':'),
    ensures
        absolute_eligible(rel),
{
    let d = crate::paths::diff_paths_text(target, base)->0;
    let fs = crate::paths::forward_slashes(d);
    if fs[0] != '.' {
        assert(rel == seq!['.', '/'] + fs);
        assert(rel[0] == '.');
    }
    law_dot_targets_are_converted(rel);
}


/// A file or folder item whose target is missing, or does not exist on
/// disk, is shown as invalid; an item of any other kind never is, and
/// neither is one whose target exists.
pub proof fn law_invalid_rows(item: ItemView, exists: bool)
    ensures
        (item.kind == ITEM_KIND_FILE || item.kind == ITEM_KIND_FOLDER) && (item.data.target is None
            || !exists) ==> invalid_spec(item, exists),
        item.kind != ITEM_KIND_FILE && item.kind != ITEM_KIND_FOLDER ==> !invalid_spec(item, exists),
        item.data.target is Some && exists ==> !invalid_spec(item, exists),
{
}

/// Opening hands over a target that is not a web address only when the
/// file system says it exists, and a web address whatever it says; what
/// is handed over is always the item's own, non-empty target.
pub proof fn law_open_target(item: ItemView, exists: bool)
    ensures
        item.kind != ITEM_KIND_URL && !exists ==> open_target_spec(item, exists) is None,
        item.kind == ITEM_KIND_URL ==> open_target_spec(item, exists) == open_target_spec(item, true),
        open_target_spec(item, exists) matches Some(t) ==> item.data.target == Some(t) && t.len() > 0,
        item.data.target is Some && item.data.target->0.len() > 0 && (item.kind == ITEM_KIND_URL
            || exists) ==> open_target_spec(item, exists) == item.data.target,
{
}

} // verus!
