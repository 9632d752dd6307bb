//! The conversation and message tables: conversations under unique ids, each
//! with its messages, its preview of the last message, and its pin.

use vstd::prelude::*;
use vstd::string::StringExecFns;

use crate::lookup::lemma_position_found;
use crate::lookup::lemma_rows_where_push;
use crate::lookup::position_where;
use crate::lookup::rows_where;
use crate::records::conversation_views;
use crate::records::message_views;
use crate::records::ConversationMessage;
use crate::records::ConversationSummary;
use crate::records::ConversationView;
use crate::records::MessageView;
use crate::sorting::is_ranking;
use crate::sorting::lemma_insert_position_found;
use crate::sorting::lemma_sorted_by_is_sorted;
use crate::sorting::lemma_sorted_by_permutes;
use crate::sorting::lemma_sorted_by_push;
use crate::sorting::sorted_by;
use crate::text::first_chars;
use crate::text::lemma_text_order;
use crate::text::prefix_of;
use crate::text::same_text;
use crate::text::text_before;
use crate::text::text_precedes;

verus! {

/// How many characters of a message its conversation shows as a preview.
pub const PREVIEW_CHARS: usize = 200;

/// The title of a conversation until it is renamed or titled.
pub open spec fn default_title() -> Seq<char> {
    "New chat"@
}

/// The rows of the conversation `id`.
pub open spec fn conversation_with_id(id: Seq<char>) -> spec_fn(ConversationView) -> bool {
    |row: ConversationView| row.id == id
}

/// The position of the conversation `id`, or the length of the table.
pub open spec fn conversation_position(table: Seq<ConversationView>, id: Seq<char>) -> int {
    position_where(table, conversation_with_id(id))
}

/// No two conversations share an id.
pub open spec fn conversations_distinct(table: Seq<ConversationView>) -> bool {
    forall|i: int, j: int|
        0 <= i < j < table.len() ==> (#[trigger] table[i]).id != (#[trigger] table[j]).id
}

/// A conversation as it is created: unpinned, without messages, titled as
/// asked or by default.
pub open spec fn new_conversation(
    id: Seq<char>,
    title: Option<Seq<char>>,
    now: Seq<char>,
) -> ConversationView {
    ConversationView {
        id,
        title: match title {
            Some(t) => t,
            None => default_title(),
        },
        pinned: false,
        last_message_preview: None,
        last_message_at: None,
        created_at: now,
        updated_at: now,
    }
}

/// `row` under a new title.
pub open spec fn renamed(row: ConversationView, title: Seq<char>, now: Seq<char>) -> ConversationView {
    ConversationView { title, updated_at: now, ..row }
}

/// `row` with its pin set.
pub open spec fn pinned_as(row: ConversationView, pinned: bool, now: Seq<char>) -> ConversationView {
    ConversationView { pinned, updated_at: now, ..row }
}

/// `row` after a message with `content` was recorded: the preview is the
/// first 200 characters of the content.
pub open spec fn with_last_message(
    row: ConversationView,
    content: Seq<char>,
    now: Seq<char>,
) -> ConversationView {
    ConversationView {
        last_message_preview: Some(prefix_of(content, PREVIEW_CHARS as nat)),
        last_message_at: Some(now),
        updated_at: now,
        ..row
    }
}

/// When a conversation was last active: at its last message, or at its last
/// change where it has no message.
pub open spec fn activity(row: ConversationView) -> Seq<char> {
    match row.last_message_at {
        Some(at) => at,
        None => row.updated_at,
    }
}

/// Whether `x` is listed strictly ahead of `y`: pinned ahead of unpinned,
/// then the later activity, then the later creation.
pub open spec fn conversation_before(x: ConversationView, y: ConversationView) -> bool {
    if x.pinned != y.pinned {
        x.pinned
    } else if activity(x) != activity(y) {
        text_before(activity(y), activity(x))
    } else {
        text_before(y.created_at, x.created_at)
    }
}

/// The order of a conversation listing.
pub open spec fn conversation_order() -> spec_fn(ConversationView, ConversationView) -> bool {
    |x: ConversationView, y: ConversationView| conversation_before(x, y)
}

/// The listing of the table: every conversation, in listing order.
pub open spec fn conversation_listing(table: Seq<ConversationView>) -> Seq<ConversationView> {
    sorted_by(table, conversation_order())
}

/// The order of a conversation listing ranks its rows.
pub proof fn lemma_conversation_order_ranks()
    ensures
        is_ranking(conversation_order()),
{
    let before = conversation_order();
    assert forall|x: ConversationView| !#[trigger] before(x, x) by {
        lemma_text_order(x.created_at, x.created_at, x.created_at);
    }
    assert forall|x: ConversationView, y: ConversationView, z: ConversationView|
        #[trigger] before(x, y) && #[trigger] before(y, z) implies before(x, z) by {
        lemma_text_order(activity(z), activity(y), activity(x));
        lemma_text_order(z.created_at, y.created_at, x.created_at);
    }
    assert forall|x: ConversationView, y: ConversationView, z: ConversationView|
        !#[trigger] before(x, y) && !#[trigger] before(y, z) implies !before(x, z) by {
        lemma_text_order(activity(z), activity(y), activity(x));
        lemma_text_order(z.created_at, y.created_at, x.created_at);
    }
}

/// A listing shows every conversation of the table exactly once, pinned
/// conversations ahead of unpinned ones, and within each group the later
/// activity first, then the later creation.
pub proof fn lemma_conversation_listing(table: Seq<ConversationView>)
    ensures
        conversation_listing(table).to_multiset() == table.to_multiset(),
        conversation_listing(table).len() == table.len(),
        forall|a: int, b: int|
            0 <= a < b < table.len() ==> {
                let first = #[trigger] conversation_listing(table)[a];
                let second = #[trigger] conversation_listing(table)[b];
                &&& second.pinned ==> first.pinned
                &&& first.pinned == second.pinned ==> !text_before(
                    activity(first),
                    activity(second),
                )
                &&& first.pinned == second.pinned && activity(first) == activity(second)
                    ==> !text_before(first.created_at, second.created_at)
            },
{
    lemma_conversation_order_ranks();
    lemma_sorted_by_is_sorted(table, conversation_order());
    lemma_sorted_by_permutes(table, conversation_order());
    let listing = conversation_listing(table);
    assert forall|a: int, b: int| 0 <= a < b < table.len() implies {
        let first = #[trigger] listing[a];
        let second = #[trigger] listing[b];
        &&& second.pinned ==> first.pinned
        &&& first.pinned == second.pinned ==> !text_before(activity(first), activity(second))
        &&& first.pinned == second.pinned && activity(first) == activity(second) ==> !text_before(
            first.created_at,
            second.created_at,
        )
    } by {
        lemma_text_order(activity(listing[a]), activity(listing[b]), activity(listing[a]));
    }
}

/// The messages of the conversation `id`.
pub open spec fn message_in(id: Seq<char>) -> spec_fn(MessageView) -> bool {
    |row: MessageView| row.conversation_id == id
}

/// The messages of every conversation but `id`.
pub open spec fn message_outside(id: Seq<char>) -> spec_fn(MessageView) -> bool {
    |row: MessageView| row.conversation_id != id
}

/// The rows of the message `id`.
pub open spec fn message_with_id(id: Seq<char>) -> spec_fn(MessageView) -> bool {
    |row: MessageView| row.id == id
}

/// The order of a message listing: by creation time, ascending in the byte
/// order of the text.
pub open spec fn message_order() -> spec_fn(MessageView, MessageView) -> bool {
    |x: MessageView, y: MessageView| text_before(x.created_at, y.created_at)
}

/// The order of a message listing ranks its rows.
pub proof fn lemma_message_order_ranks()
    ensures
        is_ranking(message_order()),
{
    let before = message_order();
    assert forall|x: MessageView| !#[trigger] before(x, x) by {
        lemma_text_order(x.created_at, x.created_at, x.created_at);
    }
    assert forall|x: MessageView, y: MessageView, z: MessageView|
        #[trigger] before(x, y) && #[trigger] before(y, z) implies before(x, z) by {
        lemma_text_order(x.created_at, y.created_at, z.created_at);
    }
    assert forall|x: MessageView, y: MessageView, z: MessageView|
        !#[trigger] before(x, y) && !#[trigger] before(y, z) implies !before(x, z) by {
        lemma_text_order(x.created_at, y.created_at, z.created_at);
    }
}

/// The first `limit` rows of `s`; all of them where the limit is absent,
/// negative, or not below their number.
pub open spec fn limited<T>(s: Seq<T>, limit: Option<i64>) -> Seq<T> {
    match limit {
        Some(n) => if 0 <= n < s.len() {
            s.take(n as int)
        } else {
            s
        },
        None => s,
    }
}

/// The messages of the conversation `id`, oldest first, messages of one
/// time in the order in which they were recorded; no more than `limit`.
pub open spec fn conversation_messages(
    table: Seq<MessageView>,
    id: Seq<char>,
    limit: Option<i64>,
) -> Seq<MessageView> {
    limited(sorted_by(rows_where(table, message_in(id)), message_order()), limit)
}

/// Without a limit, a listing of messages shows every message of the
/// conversation exactly once and no other, and no message behind one that
/// was created later.
pub proof fn lemma_message_listing(table: Seq<MessageView>, id: Seq<char>)
    ensures
        conversation_messages(table, id, None).to_multiset() == rows_where(
            table,
            message_in(id),
        ).to_multiset(),
        forall|a: int|
            0 <= a < conversation_messages(table, id, None).len() ==> (
            #[trigger] conversation_messages(table, id, None)[a]).conversation_id == id,
        forall|a: int, b: int|
            0 <= a < b < conversation_messages(table, id, None).len() ==> !text_before(
                (#[trigger] conversation_messages(table, id, None)[b]).created_at,
                (#[trigger] conversation_messages(table, id, None)[a]).created_at,
            ),
{
    let own = rows_where(table, message_in(id));
    let listing = conversation_messages(table, id, None);
    lemma_message_order_ranks();
    lemma_sorted_by_is_sorted(own, message_order());
    lemma_sorted_by_permutes(own, message_order());
    crate::lookup::lemma_rows_where_members(table, message_in(id));
    assert forall|a: int| 0 <= a < listing.len() implies (#[trigger] listing[a]).conversation_id
        == id by {
        vstd::seq_lib::to_multiset_contains(listing, listing[a]);
        vstd::seq_lib::to_multiset_contains(own, listing[a]);
    }
}

/// A limit keeps the first rows of a listing, in their order.
pub proof fn lemma_limited_is_prefix<T>(s: Seq<T>, limit: Option<i64>)
    ensures
        limited(s, limit).len() <= s.len(),
        limited(s, limit) == s.take(limited(s, limit).len() as int),
        limit matches Some(n) ==> (0 <= n ==> limited(s, limit).len() <= n),
{
}

/// Whether `role` names one of the two parties of a conversation.
pub open spec fn is_role(role: Seq<char>) -> bool {
    role == "user"@ || role == "assistant"@
}

/// Whether `role` names one of the two parties of a conversation.
pub fn role_is_known(role: &str) -> (r: bool)
    ensures
        r == is_role(role@),
{
    same_text(role, "user") || same_text(role, "assistant")
}

/// The position of the conversation `id`, or the length of the table.
pub fn find_conversation(rows: &Vec<ConversationSummary>, id: &str) -> (at: usize)
    ensures
        at == conversation_position(conversation_views(rows@), id@),
        at <= rows@.len(),
{
    let ghost table = conversation_views(rows@);
    let mut i: usize = 0;
    while i < rows.len()
        invariant
            i <= rows@.len(),
            table == conversation_views(rows@),
            forall|j: int| 0 <= j < i ==> !conversation_with_id(id@)(#[trigger] table[j]),
        decreases rows@.len() - i,
    {
        if same_text(rows[i].id.as_str(), id) {
            proof {
                lemma_position_found(table, conversation_with_id(id@), i as int);
            }
            return i;
        }
        i += 1;
    }
    proof {
        lemma_position_found(table, conversation_with_id(id@), i as int);
    }
    i
}

/// The position of the message `id`, or the length of the table.
pub fn find_message(rows: &Vec<ConversationMessage>, id: &str) -> (at: usize)
    ensures
        at == position_where(message_views(rows@), message_with_id(id@)),
        at <= rows@.len(),
{
    let ghost table = message_views(rows@);
    let mut i: usize = 0;
    while i < rows.len()
        invariant
            i <= rows@.len(),
            table == message_views(rows@),
            forall|j: int| 0 <= j < i ==> !message_with_id(id@)(#[trigger] table[j]),
        decreases rows@.len() - i,
    {
        if same_text(rows[i].id.as_str(), id) {
            proof {
                lemma_position_found(table, message_with_id(id@), i as int);
            }
            return i;
        }
        i += 1;
    }
    proof {
        lemma_position_found(table, message_with_id(id@), i as int);
    }
    i
}

/// When the conversation was last active.
pub fn activity_of(row: &ConversationSummary) -> (r: &str)
    ensures
        r@ == activity(row@),
{
    match &row.last_message_at {
        Some(at) => at.as_str(),
        None => row.updated_at.as_str(),
    }
}

/// Whether `x` is listed strictly ahead of `y`.
pub fn conversation_precedes(x: &ConversationSummary, y: &ConversationSummary) -> (r: bool)
    ensures
        r == conversation_before(x@, y@),
{
    proof {
        lemma_text_order(activity(x@), activity(y@), activity(x@));
    }
    if x.pinned != y.pinned {
        x.pinned
    } else if text_precedes(activity_of(y), activity_of(x)) {
        true
    } else if text_precedes(activity_of(x), activity_of(y)) {
        false
    } else {
        text_precedes(y.created_at.as_str(), x.created_at.as_str())
    }
}

/// Every conversation, in listing order.
pub fn conversations_in_order(rows: &Vec<ConversationSummary>) -> (out: Vec<ConversationSummary>)
    ensures
        conversation_views(out@) == conversation_listing(conversation_views(rows@)),
{
    let ghost table = conversation_views(rows@);
    let mut out: Vec<ConversationSummary> = Vec::new();
    let mut i: usize = 0;
    while i < rows.len()
        invariant
            i <= rows@.len(),
            table == conversation_views(rows@),
            conversation_views(out@) == sorted_by(table.take(i as int), conversation_order()),
        decreases rows@.len() - i,
    {
        let row = rows[i].duplicate();
        let ghost sorted = conversation_views(out@);
        let mut at: usize = out.len();
        while at > 0 && conversation_precedes(&row, &out[at - 1])
            invariant
                at <= out@.len(),
                sorted == conversation_views(out@),
                forall|k: int|
                    at <= k < sorted.len() ==> conversation_order()(row@, #[trigger] sorted[k]),
            decreases at,
        {
            at -= 1;
        }
        proof {
            lemma_insert_position_found(sorted, row@, conversation_order(), at as int);
            assert(table.take(i + 1) =~= table.take(i as int).push(row@));
            lemma_sorted_by_push(table.take(i as int), row@, conversation_order());
        }
        out.insert(at, row);
        i += 1;
    }
    assert(table.take(rows@.len() as int) =~= table);
    out
}

/// The messages of the conversation `id`, oldest first, no more than `limit`.
pub fn messages_in_order(rows: &Vec<ConversationMessage>, id: &str, limit: Option<i64>) -> (out:
    Vec<ConversationMessage>)
    ensures
        message_views(out@) == conversation_messages(message_views(rows@), id@, limit),
{
    let ghost table = message_views(rows@);
    let mut out: Vec<ConversationMessage> = Vec::new();
    let mut i: usize = 0;
    while i < rows.len()
        invariant
            i <= rows@.len(),
            table == message_views(rows@),
            message_views(out@) == sorted_by(
                rows_where(table.take(i as int), message_in(id@)),
                message_order(),
            ),
        decreases rows@.len() - i,
    {
        proof {
            assert(table.take(i + 1) =~= table.take(i as int).push(table[i as int]));
            lemma_rows_where_push(table.take(i as int), table[i as int], message_in(id@));
        }
        if same_text(rows[i].conversation_id.as_str(), id) {
            let row = rows[i].duplicate();
            let ghost sorted = message_views(out@);
            let mut at: usize = out.len();
            while at > 0 && text_precedes(row.created_at.as_str(), out[at - 1].created_at.as_str())
                invariant
                    at <= out@.len(),
                    sorted == message_views(out@),
                    forall|k: int|
                        at <= k < sorted.len() ==> message_order()(row@, #[trigger] sorted[k]),
                decreases at,
            {
                at -= 1;
            }
            proof {
                lemma_insert_position_found(sorted, row@, message_order(), at as int);
                lemma_sorted_by_push(
                    rows_where(table.take(i as int), message_in(id@)),
                    row@,
                    message_order(),
                );
            }
            out.insert(at, row);
        }
        i += 1;
    }
    assert(table.take(rows@.len() as int) =~= table);
    match limit {
        Some(n) => {
            if 0 <= n && (n as u64) < (out.len() as u64) {
                out.truncate(n as usize);
            }
        },
        None => {},
    }
    out
}

/// Removes the messages of the conversation `id`.
pub fn remove_messages_of(rows: &mut Vec<ConversationMessage>, id: &str)
    ensures
        message_views(final(rows)@) == rows_where(
            message_views(old(rows)@),
            message_outside(id@),
        ),
{
    let ghost table = message_views(rows@);
    let mut kept: Vec<ConversationMessage> = Vec::new();
    let mut i: usize = 0;
    while i < rows.len()
        invariant
            i <= rows@.len(),
            table == message_views(rows@),
            message_views(kept@) == rows_where(table.take(i as int), message_outside(id@)),
        decreases rows@.len() - i,
    {
        proof {
            assert(table.take(i + 1) =~= table.take(i as int).push(table[i as int]));
            lemma_rows_where_push(table.take(i as int), table[i as int], message_outside(id@));
        }
        if !same_text(rows[i].conversation_id.as_str(), id) {
            let row = rows[i].duplicate();
            kept.push(row);
        }
        i += 1;
    }
    assert(table.take(rows@.len() as int) =~= table);
    *rows = kept;
}

/// The preview that a conversation shows of a message.
pub fn preview_of(content: &str) -> (r: String)
    ensures
        r@ == prefix_of(content@, PREVIEW_CHARS as nat),
{
    first_chars(content, PREVIEW_CHARS)
}

/// The title of a new conversation: as asked, or the default.
pub fn title_or_default(title: Option<String>) -> (r: String)
    ensures
        r@ == match title {
            Some(t) => t@,
            None => default_title(),
        },
{
    match title {
        Some(t) => t,
        None => String::from_str("New chat"),
    }
}

} // verus!
