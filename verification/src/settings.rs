//! The settings table: one value under each key.

use vstd::prelude::*;

use crate::lookup::lemma_position_found;
use crate::lookup::lemma_position_where;
use crate::lookup::position_where;
use crate::records::setting_views;
use crate::records::Setting;
use crate::records::SettingView;
use crate::text::same_text;

verus! {

/// The rows that stand under `key`.
pub open spec fn setting_has_key(key: Seq<char>) -> spec_fn(SettingView) -> bool {
    |row: SettingView| row.key == key
}

/// The position of the setting under `key`, or the length of the table.
pub open spec fn setting_position(table: Seq<SettingView>, key: Seq<char>) -> int {
    position_where(table, setting_has_key(key))
}

/// No two settings share a key.
pub open spec fn settings_distinct(table: Seq<SettingView>) -> bool {
    forall|i: int, j: int|
        0 <= i < j < table.len() ==> (#[trigger] table[i]).key != (#[trigger] table[j]).key
}

/// The table after `row` was put: it replaces the setting under its key, or
/// is added where the key is new.
pub open spec fn settings_after_put(table: Seq<SettingView>, row: SettingView) -> Seq<SettingView> {
    let at = setting_position(table, row.key);
    if at < table.len() {
        table.update(at, row)
    } else {
        table.push(row)
    }
}

/// The value that the table holds under `key`, if any.
pub open spec fn setting_under(table: Seq<SettingView>, key: Seq<char>) -> Option<SettingView> {
    let at = setting_position(table, key);
    if at < table.len() {
        Some(table[at])
    } else {
        None
    }
}

/// A put keeps the keys distinct, and the row is then found under its key;
/// what stands under another key stays.
pub proof fn lemma_put_setting(table: Seq<SettingView>, row: SettingView)
    requires
        settings_distinct(table),
    ensures
        settings_distinct(settings_after_put(table, row)),
        setting_under(settings_after_put(table, row), row.key) == Some(row),
        forall|other: Seq<char>|
            other != row.key ==> #[trigger] setting_under(settings_after_put(table, row), other)
                == setting_under(table, other),
{
    let at = setting_position(table, row.key);
    let after = settings_after_put(table, row);
    lemma_position_where(table, setting_has_key(row.key));
    lemma_position_found(after, setting_has_key(row.key), at);
    assert forall|other: Seq<char>| other != row.key implies #[trigger] setting_under(after, other)
        == setting_under(table, other) by {
        let p = setting_position(table, other);
        lemma_position_where(table, setting_has_key(other));
        if p < table.len() {
            lemma_position_found(after, setting_has_key(other), p);
        } else {
            if at < table.len() {
                lemma_position_found(after, setting_has_key(other), p);
            } else {
                lemma_position_found(after, setting_has_key(other), p + 1);
            }
        }
    }
}

/// The position of the setting under `key`, or the length of the table.
pub fn find_setting(rows: &Vec<Setting>, key: &str) -> (at: usize)
    ensures
        at == setting_position(setting_views(rows@), key@),
        at <= rows@.len(),
        at < rows@.len() ==> rows@[at as int].key@ == key@,
{
    let ghost table = setting_views(rows@);
    let mut i: usize = 0;
    while i < rows.len()
        invariant
            i <= rows@.len(),
            table == setting_views(rows@),
            forall|j: int| 0 <= j < i ==> !setting_has_key(key@)(#[trigger] table[j]),
        decreases rows@.len() - i,
    {
        if same_text(rows[i].key.as_str(), key) {
            proof {
                lemma_position_found(table, setting_has_key(key@), i as int);
            }
            return i;
        }
        i += 1;
    }
    proof {
        lemma_position_found(table, setting_has_key(key@), i as int);
    }
    i
}

/// Puts `row` into the table under its key.
pub fn put_setting(rows: &mut Vec<Setting>, row: Setting)
    ensures
        setting_views(final(rows)@) == settings_after_put(setting_views(old(rows)@), row@),
{
    let at = find_setting(rows, row.key.as_str());
    if at < rows.len() {
        rows[at] = row;
    } else {
        rows.push(row);
    }
}

} // verus!
