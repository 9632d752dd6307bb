//! The provider table: credentials under unique names, at most one of them
//! the default.

use vstd::prelude::*;

use crate::lookup::has_row;
use crate::lookup::lemma_position_found;
use crate::lookup::lemma_position_where;
use crate::lookup::position_where;
use crate::records::provider_views;
use crate::records::summary_of;
use crate::records::summary_views;
use crate::records::ProviderRecord;
use crate::records::ProviderSummary;
use crate::records::ProviderSummaryView;
use crate::records::ProviderView;
use crate::sorting::is_ranking;
use crate::sorting::lemma_insert_position_found;
use crate::sorting::lemma_sorted_by_push;
use crate::sorting::sorted_by;
use crate::text::lemma_bytes_before_total;
use crate::text::lemma_bytes_before_transitive;
use crate::text::same_text;
use crate::text::text_before;
use crate::text::text_precedes;

verus! {

/// The rows of the provider `name`.
pub open spec fn provider_named(name: Seq<char>) -> spec_fn(ProviderView) -> bool {
    |row: ProviderView| row.provider == name
}

/// The rows that are flagged as the default.
pub open spec fn is_default_row() -> spec_fn(ProviderView) -> bool {
    |row: ProviderView| row.is_default
}

/// A listing shows the summary of every provider exactly once, and no
/// provider behind one whose display name comes later.
pub proof fn lemma_provider_listing(table: Seq<ProviderView>)
    ensures
        provider_listing(table).to_multiset() == table.map_values(
            |row: ProviderView| summary_of(row),
        ).to_multiset(),
        provider_listing(table).len() == table.len(),
        forall|a: int, b: int|
            0 <= a < b < table.len() ==> !text_before(
                (#[trigger] provider_listing(table)[b]).display_name,
                (#[trigger] provider_listing(table)[a]).display_name,
            ),
{
    let summaries = table.map_values(|row: ProviderView| summary_of(row));
    lemma_provider_order_ranks();
    crate::sorting::lemma_sorted_by_is_sorted(summaries, provider_order());
    crate::sorting::lemma_sorted_by_permutes(summaries, provider_order());
}

/// The position of the provider `name`, or the length of the table.
pub open spec fn provider_position(table: Seq<ProviderView>, name: Seq<char>) -> int {
    position_where(table, provider_named(name))
}

/// `row` with its default flag set to `flag`.
pub open spec fn with_flag(row: ProviderView, flag: bool) -> ProviderView {
    ProviderView { is_default: flag, ..row }
}

/// The table with the default flag cleared on every row.
pub open spec fn without_defaults(table: Seq<ProviderView>) -> Seq<ProviderView> {
    table.map_values(|row: ProviderView| with_flag(row, false))
}

/// The table with the default flag set on the rows of `name` and cleared on
/// every other row.
pub open spec fn with_only_default(table: Seq<ProviderView>, name: Seq<char>) -> Seq<ProviderView> {
    table.map_values(|row: ProviderView| with_flag(row, row.provider == name))
}

/// No two rows are flagged as the default.
pub open spec fn at_most_one_default(table: Seq<ProviderView>) -> bool {
    forall|i: int, j: int|
        0 <= i < j < table.len() ==> !((#[trigger] table[i]).is_default && (
        #[trigger] table[j]).is_default)
}

/// Exactly one row is flagged as the default.
pub open spec fn single_default(table: Seq<ProviderView>) -> bool {
    at_most_one_default(table) && has_row(table, is_default_row())
}

/// The table is in order: names are unique, ids grow with the position and
/// lie below `next_id`, and no two rows are the default.
pub open spec fn providers_wf(table: Seq<ProviderView>, next_id: int) -> bool {
    &&& forall|i: int, j: int|
        0 <= i < j < table.len() ==> (#[trigger] table[i]).provider != (
        #[trigger] table[j]).provider
    &&& forall|i: int, j: int|
        0 <= i < j < table.len() ==> (#[trigger] table[i]).id < (#[trigger] table[j]).id
    &&& forall|i: int| 0 <= i < table.len() ==> 1 <= (#[trigger] table[i]).id < next_id
    &&& at_most_one_default(table)
    &&& 1 <= next_id
}

/// What an upsert writes: the sealed key and the request to be the default.
pub struct ProviderEntry {
    pub provider: Seq<char>,
    pub display_name: Seq<char>,
    pub api_key: Seq<char>,
    pub default_model: Option<Seq<char>>,
    pub make_default: bool,
}

/// Whether the entry becomes the default: it asks for it, or it is the first.
pub open spec fn promotes(table: Seq<ProviderView>, entry: ProviderEntry) -> bool {
    entry.make_default || table.len() == 0
}

/// The table after the upsert of `entry`. Where the entry is promoted, every
/// flag is cleared first. A row of that name takes the entry's fields, keeps
/// its id, and stays the default if it was; a new name gets a new row with
/// the id `next_id`.
pub open spec fn providers_after_upsert(
    table: Seq<ProviderView>,
    next_id: int,
    entry: ProviderEntry,
) -> Seq<ProviderView> {
    let promote = promotes(table, entry);
    let base = if promote {
        without_defaults(table)
    } else {
        table
    };
    let at = provider_position(table, entry.provider);
    if at < table.len() {
        base.update(
            at,
            ProviderView {
                id: base[at].id,
                provider: entry.provider,
                display_name: entry.display_name,
                api_key: entry.api_key,
                default_model: entry.default_model,
                is_default: promote || base[at].is_default,
            },
        )
    } else {
        base.push(
            ProviderView {
                id: next_id,
                provider: entry.provider,
                display_name: entry.display_name,
                api_key: entry.api_key,
                default_model: entry.default_model,
                is_default: promote,
            },
        )
    }
}

/// The next free id after the upsert of `entry`.
pub open spec fn next_id_after_upsert(
    table: Seq<ProviderView>,
    next_id: int,
    entry: ProviderEntry,
) -> int {
    if provider_position(table, entry.provider) < table.len() {
        next_id
    } else {
        next_id + 1
    }
}

/// The row that chat uses: the default, or the first row where none is
/// flagged. The length of the table where it is empty.
pub open spec fn chosen_provider(table: Seq<ProviderView>) -> int {
    let flagged = position_where(table, is_default_row());
    if flagged < table.len() {
        flagged
    } else {
        0
    }
}

/// An upsert keeps the table in order, the entry is then found under its
/// name, and exactly one row is the default afterwards if the entry was
/// promoted or exactly one was before.
pub proof fn lemma_upsert(table: Seq<ProviderView>, next_id: int, entry: ProviderEntry)
    requires
        providers_wf(table, next_id),
    ensures
        providers_wf(
            providers_after_upsert(table, next_id, entry),
            next_id_after_upsert(table, next_id, entry),
        ),
        provider_position(providers_after_upsert(table, next_id, entry), entry.provider)
            == provider_position(table, entry.provider),
        provider_position(table, entry.provider) < providers_after_upsert(
            table,
            next_id,
            entry,
        ).len(),
        promotes(table, entry) || single_default(table) ==> single_default(
            providers_after_upsert(table, next_id, entry),
        ),
{
    let promote = promotes(table, entry);
    let at = provider_position(table, entry.provider);
    let after = providers_after_upsert(table, next_id, entry);
    lemma_position_where(table, provider_named(entry.provider));
    assert forall|i: int| 0 <= i < after.len() && i != at implies (#[trigger] after[i]).provider
        == table[i].provider && after[i].id == table[i].id && after[i].is_default == (!promote
        && table[i].is_default) by {}
    lemma_position_found(after, provider_named(entry.provider), at);
    if promote || single_default(table) {
        if promote {
            lemma_position_found(after, is_default_row(), at);
        } else {
            let d = position_where(table, is_default_row());
            lemma_position_where(table, is_default_row());
            lemma_position_found(after, is_default_row(), d);
        }
    }
}

/// Marking one provider as the default keeps the table in order; exactly the
/// rows of that name are then the default, and where the name is known
/// exactly one row is.
pub proof fn lemma_only_default(table: Seq<ProviderView>, next_id: int, name: Seq<char>)
    requires
        providers_wf(table, next_id),
    ensures
        providers_wf(with_only_default(table, name), next_id),
        forall|i: int|
            0 <= i < table.len() ==> (#[trigger] with_only_default(table, name)[i]).is_default == (
            table[i].provider == name),
        has_row(table, provider_named(name)) ==> single_default(with_only_default(table, name)),
{
    let after = with_only_default(table, name);
    if has_row(table, provider_named(name)) {
        let at = provider_position(table, name);
        lemma_position_where(table, provider_named(name));
        lemma_position_found(after, is_default_row(), at);
    }
}

/// The table after each entry of `entries` was upserted in turn, with the
/// next free id.
pub open spec fn providers_after_upserts(
    table: Seq<ProviderView>,
    next_id: int,
    entries: Seq<ProviderEntry>,
) -> (Seq<ProviderView>, int)
    decreases entries.len(),
{
    if entries.len() == 0 {
        (table, next_id)
    } else {
        let (before, id) = providers_after_upserts(table, next_id, entries.drop_last());
        (
            providers_after_upsert(before, id, entries.last()),
            next_id_after_upsert(before, id, entries.last()),
        )
    }
}

/// After one or more upserts into an empty table exactly one row is the
/// default, whatever the entries ask for: the first is promoted because it
/// is the first, and every later one either takes the flag over or leaves
/// it where it is.
pub proof fn lemma_upserts_leave_one_default(entries: Seq<ProviderEntry>)
    requires
        entries.len() >= 1,
    ensures
        single_default(providers_after_upserts(Seq::empty(), 1, entries).0),
        providers_wf(
            providers_after_upserts(Seq::empty(), 1, entries).0,
            providers_after_upserts(Seq::empty(), 1, entries).1,
        ),
    decreases entries.len(),
{
    let empty = Seq::<ProviderView>::empty();
    if entries.len() == 1 {
        assert(providers_after_upserts(empty, 1, entries.drop_last()) == (empty, 1int));
    } else {
        lemma_upserts_leave_one_default(entries.drop_last());
        let (before, id) = providers_after_upserts(empty, 1, entries.drop_last());
        lemma_upsert(before, id, entries.last());
    }
}

/// The order of a provider listing: by display name, ascending in the byte
/// order of the text.
pub open spec fn provider_order() -> spec_fn(ProviderSummaryView, ProviderSummaryView) -> bool {
    |x: ProviderSummaryView, y: ProviderSummaryView| text_before(x.display_name, y.display_name)
}

/// The listing of the table: the summary of every row, by display name.
pub open spec fn provider_listing(table: Seq<ProviderView>) -> Seq<ProviderSummaryView> {
    sorted_by(table.map_values(|row: ProviderView| summary_of(row)), provider_order())
}

/// The order of a provider listing ranks its rows.
pub proof fn lemma_provider_order_ranks()
    ensures
        is_ranking(provider_order()),
{
    let before = provider_order();
    assert forall|x: ProviderSummaryView| !#[trigger] before(x, x) by {
        lemma_bytes_before_total(
            vstd::utf8::encode_utf8(x.display_name),
            vstd::utf8::encode_utf8(x.display_name),
        );
    }
    assert forall|x: ProviderSummaryView, y: ProviderSummaryView, z: ProviderSummaryView|
        #[trigger] before(x, y) && #[trigger] before(y, z) implies before(x, z) by {
        lemma_bytes_before_transitive(
            vstd::utf8::encode_utf8(x.display_name),
            vstd::utf8::encode_utf8(y.display_name),
            vstd::utf8::encode_utf8(z.display_name),
        );
    }
    assert forall|x: ProviderSummaryView, y: ProviderSummaryView, z: ProviderSummaryView|
        !#[trigger] before(x, y) && !#[trigger] before(y, z) implies !before(x, z) by {
        let a = vstd::utf8::encode_utf8(x.display_name);
        let b = vstd::utf8::encode_utf8(y.display_name);
        let c = vstd::utf8::encode_utf8(z.display_name);
        lemma_bytes_before_total(a, b);
        lemma_bytes_before_total(b, c);
        lemma_bytes_before_total(a, c);
        if crate::text::bytes_before(a, c) && b != a && b != c {
            lemma_bytes_before_transitive(c, b, a);
        }
    }
}

/// The position of the provider `name`, or the length of the table.
pub fn find_provider(rows: &Vec<ProviderRecord>, name: &str) -> (at: usize)
    ensures
        at == provider_position(provider_views(rows@), name@),
        at <= rows@.len(),
{
    let ghost table = provider_views(rows@);
    let mut i: usize = 0;
    while i < rows.len()
        invariant
            i <= rows@.len(),
            table == provider_views(rows@),
            forall|j: int| 0 <= j < i ==> !provider_named(name@)(#[trigger] table[j]),
        decreases rows@.len() - i,
    {
        if same_text(rows[i].provider.as_str(), name) {
            proof {
                lemma_position_found(table, provider_named(name@), i as int);
            }
            return i;
        }
        i += 1;
    }
    proof {
        lemma_position_found(table, provider_named(name@), i as int);
    }
    i
}

/// The position of the row that chat uses, or the length of the table where
/// it is empty.
pub fn find_chosen(rows: &Vec<ProviderRecord>) -> (at: usize)
    ensures
        at == chosen_provider(provider_views(rows@)),
        rows@.len() > 0 ==> at < rows@.len(),
        rows@.len() == 0 ==> at == 0,
{
    let ghost table = provider_views(rows@);
    let mut i: usize = 0;
    while i < rows.len()
        invariant
            i <= rows@.len(),
            table == provider_views(rows@),
            forall|j: int| 0 <= j < i ==> !is_default_row()(#[trigger] table[j]),
        decreases rows@.len() - i,
    {
        if rows[i].is_default {
            proof {
                lemma_position_found(table, is_default_row(), i as int);
            }
            return i;
        }
        i += 1;
    }
    proof {
        lemma_position_found(table, is_default_row(), i as int);
    }
    0
}

/// Sets the default flag of every row to whether `keep` names it; with no
/// name, clears every flag.
pub fn flag_rows(rows: &mut Vec<ProviderRecord>, keep: Option<&str>)
    ensures
        provider_views(final(rows)@) == match keep {
            Some(name) => with_only_default(provider_views(old(rows)@), name@),
            None => without_defaults(provider_views(old(rows)@)),
        },
{
    let ghost before = provider_views(rows@);
    let ghost target = match keep {
        Some(name) => with_only_default(before, name@),
        None => without_defaults(before),
    };
    let mut i: usize = 0;
    while i < rows.len()
        invariant
            i <= rows@.len(),
            rows@.len() == before.len(),
            target.len() == before.len(),
            target == match keep {
                Some(name) => with_only_default(before, name@),
                None => without_defaults(before),
            },
            forall|j: int| 0 <= j < i ==> (#[trigger] rows@[j])@ == target[j],
            forall|j: int| i <= j < rows@.len() ==> (#[trigger] rows@[j])@ == before[j],
        decreases rows@.len() - i,
    {
        let flag = match keep {
            Some(name) => same_text(rows[i].provider.as_str(), name),
            None => false,
        };
        let mut row = rows[i].duplicate();
        row.is_default = flag;
        rows[i] = row;
        i += 1;
    }
}

/// Upserts one entry whose key is already sealed, and gives the position of
/// its row.
pub fn upsert_row(
    rows: &mut Vec<ProviderRecord>,
    next_id: i64,
    provider: String,
    display_name: String,
    api_key: String,
    default_model: Option<String>,
    make_default: bool,
) -> (at: usize)
    ensures
        provider_views(final(rows)@) == providers_after_upsert(
            provider_views(old(rows)@),
            next_id as int,
            ProviderEntry {
                provider: provider@,
                display_name: display_name@,
                api_key: api_key@,
                default_model: crate::records::text_view(default_model),
                make_default,
            },
        ),
        at == provider_position(provider_views(old(rows)@), provider@),
        at < final(rows)@.len(),
{
    let promote = make_default || rows.len() == 0;
    let at = find_provider(rows, provider.as_str());
    if promote {
        flag_rows(rows, None);
    }
    if at < rows.len() {
        let row = ProviderRecord {
            id: rows[at].id,
            provider,
            display_name,
            api_key,
            default_model,
            is_default: promote || rows[at].is_default,
        };
        rows[at] = row;
    } else {
        let row = ProviderRecord {
            id: next_id,
            provider,
            display_name,
            api_key,
            default_model,
            is_default: promote,
        };
        rows.push(row);
    }
    at
}

/// The summaries of all rows, by display name.
pub fn list_in_order(rows: &Vec<ProviderRecord>) -> (out: Vec<ProviderSummary>)
    ensures
        summary_views(out@) == provider_listing(provider_views(rows@)),
{
    let ghost table = provider_views(rows@).map_values(|row: ProviderView| summary_of(row));
    let mut out: Vec<ProviderSummary> = Vec::new();
    let mut i: usize = 0;
    while i < rows.len()
        invariant
            i <= rows@.len(),
            table == provider_views(rows@).map_values(|row: ProviderView| summary_of(row)),
            summary_views(out@) == sorted_by(table.take(i as int), provider_order()),
        decreases rows@.len() - i,
    {
        let row = rows[i].summary();
        let ghost sorted = summary_views(out@);
        let mut at: usize = out.len();
        while at > 0 && text_precedes(row.display_name.as_str(), out[at - 1].display_name.as_str())
            invariant
                at <= out@.len(),
                sorted == summary_views(out@),
                forall|k: int| at <= k < sorted.len() ==> provider_order()(row@, #[trigger] sorted[k]),
            decreases at,
        {
            at -= 1;
        }
        proof {
            lemma_insert_position_found(sorted, row@, provider_order(), at as int);
            assert(table.take(i + 1) =~= table.take(i as int).push(row@));
            lemma_sorted_by_push(table.take(i as int), row@, provider_order());
        }
        out.insert(at, row);
        i += 1;
    }
    assert(table.take(rows@.len() as int) =~= table);
    out
}

} // verus!
