//! The rows that the store keeps and the values that it takes and gives,
//! each with its mathematical view.

use vstd::prelude::*;

verus! {

/// The view of an optional text.
pub open spec fn text_view(text: Option<String>) -> Option<Seq<char>> {
    match text {
        Some(s) => Some(s@),
        None => None,
    }
}

/// A copy of an optional text.
pub fn copy_text(text: &Option<String>) -> (r: Option<String>)
    ensures
        r == *text,
{
    match text {
        Some(s) => Some(s.clone()),
        None => None,
    }
}

/// One setting: a value under a unique key. Where `is_secret` holds, `value`
/// is a sealed token and never the plain text.
#[derive(Debug)]
pub struct Setting {
    pub key: String,
    pub value: String,
    pub is_secret: bool,
    pub updated_at: String,
}

/// The view of a `Setting`.
pub struct SettingView {
    pub key: Seq<char>,
    pub value: Seq<char>,
    pub is_secret: bool,
    pub updated_at: Seq<char>,
}

impl View for Setting {
    type V = SettingView;

    open spec fn view(&self) -> SettingView {
        SettingView {
            key: self.key@,
            value: self.value@,
            is_secret: self.is_secret,
            updated_at: self.updated_at@,
        }
    }
}

impl Setting {
    /// A copy of this row.
    pub fn duplicate(&self) -> (r: Self)
        ensures
            r == *self,
    {
        Setting {
            key: self.key.clone(),
            value: self.value.clone(),
            is_secret: self.is_secret,
            updated_at: self.updated_at.clone(),
        }
    }
}

/// One provider credential as it is stored: `api_key` is always a sealed
/// token.
#[derive(Debug)]
pub struct ProviderRecord {
    pub id: i64,
    pub provider: String,
    pub display_name: String,
    pub api_key: String,
    pub default_model: Option<String>,
    pub is_default: bool,
}

/// The view of a `ProviderRecord`.
pub struct ProviderView {
    pub id: int,
    pub provider: Seq<char>,
    pub display_name: Seq<char>,
    pub api_key: Seq<char>,
    pub default_model: Option<Seq<char>>,
    pub is_default: bool,
}

impl View for ProviderRecord {
    type V = ProviderView;

    open spec fn view(&self) -> ProviderView {
        ProviderView {
            id: self.id as int,
            provider: self.provider@,
            display_name: self.display_name@,
            api_key: self.api_key@,
            default_model: text_view(self.default_model),
            is_default: self.is_default,
        }
    }
}

impl ProviderRecord {
    /// A copy of this row.
    pub fn duplicate(&self) -> (r: Self)
        ensures
            r == *self,
    {
        ProviderRecord {
            id: self.id,
            provider: self.provider.clone(),
            display_name: self.display_name.clone(),
            api_key: self.api_key.clone(),
            default_model: copy_text(&self.default_model),
            is_default: self.is_default,
        }
    }

    /// What a listing shows of this row.
    pub fn summary(&self) -> (r: ProviderSummary)
        ensures
            r@ == summary_of(self@),
    {
        ProviderSummary {
            id: self.id,
            provider: self.provider.clone(),
            display_name: self.display_name.clone(),
            default_model: copy_text(&self.default_model),
            is_default: self.is_default,
            has_api_key: self.api_key.as_str().unicode_len() > 0,
        }
    }
}

/// What a listing shows of a provider: all but the key itself.
#[derive(Debug)]
pub struct ProviderSummary {
    pub id: i64,
    pub provider: String,
    pub display_name: String,
    pub default_model: Option<String>,
    pub is_default: bool,
    pub has_api_key: bool,
}

/// The view of a `ProviderSummary`.
pub struct ProviderSummaryView {
    pub id: int,
    pub provider: Seq<char>,
    pub display_name: Seq<char>,
    pub default_model: Option<Seq<char>>,
    pub is_default: bool,
    pub has_api_key: bool,
}

impl View for ProviderSummary {
    type V = ProviderSummaryView;

    open spec fn view(&self) -> ProviderSummaryView {
        ProviderSummaryView {
            id: self.id as int,
            provider: self.provider@,
            display_name: self.display_name@,
            default_model: text_view(self.default_model),
            is_default: self.is_default,
            has_api_key: self.has_api_key,
        }
    }
}

impl ProviderSummary {
    /// A copy of this summary.
    pub fn duplicate(&self) -> (r: Self)
        ensures
            r == *self,
    {
        ProviderSummary {
            id: self.id,
            provider: self.provider.clone(),
            display_name: self.display_name.clone(),
            default_model: copy_text(&self.default_model),
            is_default: self.is_default,
            has_api_key: self.has_api_key,
        }
    }
}

/// The summary of a stored provider: `has_api_key` says that the stored key
/// is not empty.
pub open spec fn summary_of(row: ProviderView) -> ProviderSummaryView {
    ProviderSummaryView {
        id: row.id,
        provider: row.provider,
        display_name: row.display_name,
        default_model: row.default_model,
        is_default: row.is_default,
        has_api_key: row.api_key.len() > 0,
    }
}

/// A provider credential ready for use: `api_key` is the plain key.
#[derive(Debug)]
pub struct ProviderCredential {
    pub provider: String,
    pub display_name: String,
    pub default_model: Option<String>,
    pub api_key: String,
}

/// The view of a `ProviderCredential`.
pub struct CredentialView {
    pub provider: Seq<char>,
    pub display_name: Seq<char>,
    pub default_model: Option<Seq<char>>,
    pub api_key: Seq<char>,
}

impl View for ProviderCredential {
    type V = CredentialView;

    open spec fn view(&self) -> CredentialView {
        CredentialView {
            provider: self.provider@,
            display_name: self.display_name@,
            default_model: text_view(self.default_model),
            api_key: self.api_key@,
        }
    }
}

/// What an upsert of a provider is given: `api_key` is the plain key.
#[derive(Debug)]
pub struct ProviderUpsertPayload {
    pub provider: String,
    pub display_name: String,
    pub api_key: String,
    pub default_model: Option<String>,
    pub make_default: bool,
}

/// The preferences of the user, each absent until it is first saved.
#[derive(Debug)]
pub struct UserPreferences {
    pub language: Option<String>,
    pub theme: Option<String>,
    pub system_prompt: Option<String>,
}

impl Default for UserPreferences {
    fn default() -> (r: Self)
        ensures
            r.language is None,
            r.theme is None,
            r.system_prompt is None,
    {
        UserPreferences { language: None, theme: None, system_prompt: None }
    }
}

/// A change of preferences: what is absent stays as it is.
#[derive(Debug)]
pub struct PreferencesUpdate {
    pub language: Option<String>,
    pub theme: Option<String>,
    pub system_prompt: Option<String>,
}

/// One conversation, as the store keeps it and as a listing shows it.
#[derive(Debug)]
pub struct ConversationSummary {
    pub id: String,
    pub title: String,
    pub pinned: bool,
    pub last_message_preview: Option<String>,
    pub last_message_at: Option<String>,
    pub created_at: String,
    pub updated_at: String,
}

/// The view of a `ConversationSummary`.
pub struct ConversationView {
    pub id: Seq<char>,
    pub title: Seq<char>,
    pub pinned: bool,
    pub last_message_preview: Option<Seq<char>>,
    pub last_message_at: Option<Seq<char>>,
    pub created_at: Seq<char>,
    pub updated_at: Seq<char>,
}

impl View for ConversationSummary {
    type V = ConversationView;

    open spec fn view(&self) -> ConversationView {
        ConversationView {
            id: self.id@,
            title: self.title@,
            pinned: self.pinned,
            last_message_preview: text_view(self.last_message_preview),
            last_message_at: text_view(self.last_message_at),
            created_at: self.created_at@,
            updated_at: self.updated_at@,
        }
    }
}

impl ConversationSummary {
    /// A copy of this row.
    pub fn duplicate(&self) -> (r: Self)
        ensures
            r == *self,
    {
        ConversationSummary {
            id: self.id.clone(),
            title: self.title.clone(),
            pinned: self.pinned,
            last_message_preview: copy_text(&self.last_message_preview),
            last_message_at: copy_text(&self.last_message_at),
            created_at: self.created_at.clone(),
            updated_at: self.updated_at.clone(),
        }
    }
}

/// One message of a conversation.
#[derive(Debug)]
pub struct ConversationMessage {
    pub id: String,
    pub conversation_id: String,
    pub role: String,
    pub content: String,
    pub created_at: String,
}

/// The view of a `ConversationMessage`.
pub struct MessageView {
    pub id: Seq<char>,
    pub conversation_id: Seq<char>,
    pub role: Seq<char>,
    pub content: Seq<char>,
    pub created_at: Seq<char>,
}

impl View for ConversationMessage {
    type V = MessageView;

    open spec fn view(&self) -> MessageView {
        MessageView {
            id: self.id@,
            conversation_id: self.conversation_id@,
            role: self.role@,
            content: self.content@,
            created_at: self.created_at@,
        }
    }
}

impl ConversationMessage {
    /// A copy of this row.
    pub fn duplicate(&self) -> (r: Self)
        ensures
            r == *self,
    {
        ConversationMessage {
            id: self.id.clone(),
            conversation_id: self.conversation_id.clone(),
            role: self.role.clone(),
            content: self.content.clone(),
            created_at: self.created_at.clone(),
        }
    }
}

/// The views of the rows of a table, in order.
pub open spec fn setting_views(rows: Seq<Setting>) -> Seq<SettingView> {
    rows.map_values(|row: Setting| row@)
}

/// The views of the rows of a table, in order.
pub open spec fn provider_views(rows: Seq<ProviderRecord>) -> Seq<ProviderView> {
    rows.map_values(|row: ProviderRecord| row@)
}

/// The views of the rows of a listing, in order.
pub open spec fn summary_views(rows: Seq<ProviderSummary>) -> Seq<ProviderSummaryView> {
    rows.map_values(|row: ProviderSummary| row@)
}

/// The views of the rows of a table, in order.
pub open spec fn conversation_views(rows: Seq<ConversationSummary>) -> Seq<ConversationView> {
    rows.map_values(|row: ConversationSummary| row@)
}

/// The views of the rows of a table, in order.
pub open spec fn message_views(rows: Seq<ConversationMessage>) -> Seq<MessageView> {
    rows.map_values(|row: ConversationMessage| row@)
}

/// A copy of the rows.
pub fn copy_settings(rows: &Vec<Setting>) -> (out: Vec<Setting>)
    ensures
        out@ == rows@,
{
    let mut out: Vec<Setting> = Vec::new();
    let mut i: usize = 0;
    while i < rows.len()
        invariant
            i <= rows@.len(),
            out@ == rows@.take(i as int),
        decreases rows@.len() - i,
    {
        out.push(rows[i].duplicate());
        i += 1;
    }
    out
}

/// A copy of the rows.
pub fn copy_providers(rows: &Vec<ProviderRecord>) -> (out: Vec<ProviderRecord>)
    ensures
        out@ == rows@,
{
    let mut out: Vec<ProviderRecord> = Vec::new();
    let mut i: usize = 0;
    while i < rows.len()
        invariant
            i <= rows@.len(),
            out@ == rows@.take(i as int),
        decreases rows@.len() - i,
    {
        out.push(rows[i].duplicate());
        i += 1;
    }
    out
}

/// A copy of the rows.
pub fn copy_conversations(rows: &Vec<ConversationSummary>) -> (out: Vec<ConversationSummary>)
    ensures
        out@ == rows@,
{
    let mut out: Vec<ConversationSummary> = Vec::new();
    let mut i: usize = 0;
    while i < rows.len()
        invariant
            i <= rows@.len(),
            out@ == rows@.take(i as int),
        decreases rows@.len() - i,
    {
        out.push(rows[i].duplicate());
        i += 1;
    }
    out
}

/// A copy of the rows.
pub fn copy_messages(rows: &Vec<ConversationMessage>) -> (out: Vec<ConversationMessage>)
    ensures
        out@ == rows@,
{
    let mut out: Vec<ConversationMessage> = Vec::new();
    let mut i: usize = 0;
    while i < rows.len()
        invariant
            i <= rows@.len(),
            out@ == rows@.take(i as int),
        decreases rows@.len() - i,
    {
        out.push(rows[i].duplicate());
        i += 1;
    }
    out
}

} // verus!
