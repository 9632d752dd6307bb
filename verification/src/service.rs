//! The config store: settings, provider credentials, conversations and
//! their messages, with the cipher that seals what is secret.
//!
//! Every change is one step from one consistent state to the next: a call
//! that fails leaves the store as it was.

use vstd::prelude::*;
use vstd::string::StringExecFns;

use crate::catalog::draft_entry;
use crate::catalog::drafts_entry;
use crate::catalog::entry_views;
use crate::catalog::optional_json_text;
use crate::catalog::server_summary_views;
use crate::catalog::source_views;
use crate::catalog::CatalogSnapshot;
use crate::catalog::CatalogView;
use crate::catalog::EntryDraft;
use crate::catalog::McpCatalog;
use crate::catalog::McpRegistryEntry;
use crate::catalog::McpRegistryUpsert;
use crate::catalog::McpServerSummary;
use crate::catalog::McpServerUpsert;
use crate::catalog::McpSource;
use crate::catalog::McpSourceUpsert;
use crate::catalog::ServerDraft;
use crate::conversations::conversation_listing;
use crate::conversations::conversation_messages;
use crate::conversations::conversation_position;
use crate::conversations::conversation_with_id;
use crate::conversations::conversations_distinct;
use crate::conversations::conversations_in_order;
use crate::conversations::find_conversation;
use crate::conversations::find_message;
use crate::conversations::is_role;
use crate::conversations::message_in;
use crate::conversations::message_outside;
use crate::conversations::PREVIEW_CHARS;
use crate::conversations::message_with_id;
use crate::conversations::messages_in_order;
use crate::conversations::new_conversation;
use crate::conversations::pinned_as;
use crate::conversations::preview_of;
use crate::conversations::remove_messages_of;
use crate::conversations::renamed;
use crate::conversations::role_is_known;
use crate::conversations::title_or_default;
use crate::conversations::with_last_message;
use crate::crypto::plaintext_of;
use crate::crypto::reports_fault;
use crate::crypto::seals;
use crate::crypto::CryptoService;
use crate::crypto::TokenFault;
use crate::error::row_not_found;
use crate::ids::generate_id;
use crate::ids::is_generated_id;
use crate::ids::no_id_words;
use crate::error::ConfigError;
use crate::lookup::has_row;
use crate::lookup::lemma_has_row;
use crate::lookup::lemma_position_where;
use crate::lookup::lemma_rows_where_members;
use crate::lookup::lemma_rows_where_nested;
use crate::lookup::lemma_rows_where_none;
use crate::lookup::lemma_rows_where_push;
use crate::lookup::position_where;
use crate::lookup::rows_where;
use crate::paths::ConfigPaths;
use crate::providers::chosen_provider;
use crate::providers::find_chosen;
use crate::providers::find_provider;
use crate::providers::flag_rows;
use crate::providers::lemma_only_default;
use crate::providers::lemma_upsert;
use crate::providers::list_in_order;
use crate::providers::next_id_after_upsert;
use crate::providers::promotes;
use crate::providers::provider_listing;
use crate::providers::provider_named;
use crate::providers::provider_position;
use crate::providers::providers_after_upsert;
use crate::providers::providers_wf;
use crate::providers::single_default;
use crate::providers::upsert_row;
use crate::providers::with_only_default;
use crate::providers::ProviderEntry;
use crate::records::conversation_views;
use crate::records::copy_text;
use crate::records::message_views;
use crate::records::provider_views;
use crate::records::setting_views;
use crate::records::summary_of;
use crate::records::summary_views;
use crate::records::text_view;
use crate::records::ConversationMessage;
use crate::records::ConversationSummary;
use crate::records::ConversationView;
use crate::records::CredentialView;
use crate::records::MessageView;
use crate::records::PreferencesUpdate;
use crate::records::ProviderCredential;
use crate::records::ProviderRecord;
use crate::records::ProviderSummary;
use crate::records::ProviderUpsertPayload;
use crate::records::ProviderView;
use crate::records::Setting;
use crate::records::SettingView;
use crate::records::UserPreferences;
use crate::settings::find_setting;
use crate::text::prefix_of;
use crate::settings::lemma_put_setting;
use crate::settings::put_setting;
use crate::settings::setting_under;
use crate::settings::settings_after_put;
use crate::settings::settings_distinct;

verus! {

/// The state of the store: its tables, the next free provider id, and the
/// catalog.
pub struct StoreView {
    pub settings: Seq<SettingView>,
    pub providers: Seq<ProviderView>,
    pub next_provider_id: int,
    pub conversations: Seq<ConversationView>,
    pub messages: Seq<MessageView>,
    pub catalog: CatalogView,
}

/// Every message names one of the two roles and belongs to a conversation of
/// the table, and no two messages share an id.
pub open spec fn messages_wf(messages: Seq<MessageView>, conversations: Seq<ConversationView>) -> bool {
    &&& forall|k: int|
        0 <= k < messages.len() ==> is_role((#[trigger] messages[k]).role) && has_row(
            conversations,
            conversation_with_id(messages[k].conversation_id),
        )
    &&& forall|i: int, j: int|
        0 <= i < j < messages.len() ==> (#[trigger] messages[i]).id != (#[trigger] messages[j]).id
}

/// The last message of the conversation `id`, if it has any.
pub open spec fn last_message(messages: Seq<MessageView>, id: Seq<char>) -> Option<MessageView> {
    let own = rows_where(messages, message_in(id));
    if own.len() == 0 {
        None
    } else {
        Some(own.last())
    }
}

/// Whether `row` shows its last message: the preview and the time are those
/// of the last message of the conversation, and absent where it has none.
pub open spec fn shows_last_message(row: ConversationView, messages: Seq<MessageView>) -> bool {
    match last_message(messages, row.id) {
        None => row.last_message_preview is None && row.last_message_at is None,
        Some(message) => {
            &&& row.last_message_preview == Some(prefix_of(message.content, PREVIEW_CHARS as nat))
            &&& row.last_message_at == Some(message.created_at)
        },
    }
}

/// Every conversation shows its last message: no message is in the table
/// without its conversation showing it, and no conversation shows a message
/// that is not in the table.
pub open spec fn previews_current(
    conversations: Seq<ConversationView>,
    messages: Seq<MessageView>,
) -> bool {
    forall|i: int|
        0 <= i < conversations.len() ==> shows_last_message(#[trigger] conversations[i], messages)
}

impl StoreView {
    /// The store with nothing in it.
    pub open spec fn empty() -> StoreView {
        StoreView {
            settings: Seq::empty(),
            providers: Seq::empty(),
            next_provider_id: 1,
            conversations: Seq::empty(),
            messages: Seq::empty(),
            catalog: CatalogView::empty(),
        }
    }

    /// The state is consistent: keys, provider names and ids are unique, at
    /// most one provider is the default, every message belongs to a
    /// conversation, every conversation shows its last message, and the
    /// catalog is consistent.
    pub open spec fn wf(self) -> bool {
        &&& settings_distinct(self.settings)
        &&& providers_wf(self.providers, self.next_provider_id)
        &&& conversations_distinct(self.conversations)
        &&& messages_wf(self.messages, self.conversations)
        &&& previews_current(self.conversations, self.messages)
        &&& self.catalog.wf()
    }
}

/// What a read of the setting under `key` gives: nothing where the key is
/// unknown, the value as it stands where it is not secret, and what the
/// stored token opens to where it is.
pub open spec fn readable_setting(
    table: Seq<SettingView>,
    cipher_key: Seq<u8>,
    key: Seq<char>,
) -> Result<Option<Seq<char>>, TokenFault> {
    match setting_under(table, key) {
        None => Ok(None),
        Some(row) => if row.is_secret {
            match plaintext_of(cipher_key, row.value) {
                Ok(text) => Ok(Some(text)),
                Err(fault) => Err(fault),
            }
        } else {
            Ok(Some(row.value))
        },
    }
}

/// Whether `stored` is what a setting keeps for `value`: a sealing of it
/// where the setting is secret, the value itself where it is not.
pub open spec fn keeps(cipher_key: Seq<u8>, stored: Seq<char>, value: Seq<char>, secret: bool) -> bool {
    if secret {
        seals(cipher_key, stored, value)
    } else {
        stored == value
    }
}

/// The key under which the language of the interface is kept.
pub open spec fn language_key() -> Seq<char> {
    "ui.language"@
}

/// The key under which the theme of the interface is kept.
pub open spec fn theme_key() -> Seq<char> {
    "ui.theme"@
}

/// The key under which the system prompt is kept.
pub open spec fn system_prompt_key() -> Seq<char> {
    "chat.systemPrompt"@
}

/// The settings after `value`, where present, was put under `key` as a plain
/// setting.
pub open spec fn settings_after_preference(
    table: Seq<SettingView>,
    key: Seq<char>,
    value: Option<Seq<char>>,
    now: Seq<char>,
) -> Seq<SettingView> {
    match value {
        Some(text) => settings_after_put(
            table,
            SettingView { key, value: text, is_secret: false, updated_at: now },
        ),
        None => table,
    }
}

/// The store.
pub struct ConfigService {
    crypto: CryptoService,
    paths: ConfigPaths,
    settings: Vec<Setting>,
    providers: Vec<ProviderRecord>,
    next_provider_id: i64,
    conversations: Vec<ConversationSummary>,
    messages: Vec<ConversationMessage>,
    catalog: McpCatalog,
}

impl View for ConfigService {
    type V = StoreView;

    closed spec fn view(&self) -> StoreView {
        StoreView {
            settings: setting_views(self.settings@),
            providers: provider_views(self.providers@),
            next_provider_id: self.next_provider_id as int,
            conversations: conversation_views(self.conversations@),
            messages: message_views(self.messages@),
            catalog: self.catalog@,
        }
    }
}

impl ConfigService {
    /// The master key of the cipher.
    pub closed spec fn cipher_key(&self) -> Seq<u8> {
        self.crypto.key()
    }

    /// The files of this installation.
    pub closed spec fn files(&self) -> ConfigPaths {
        self.paths
    }

    /// The state is consistent.
    pub open spec fn wf(&self) -> bool {
        self@.wf()
    }

    /// An empty store that seals with `crypto`.
    pub fn new(paths: ConfigPaths, crypto: CryptoService) -> (r: Self)
        ensures
            r.wf(),
            r@ == StoreView::empty(),
            r.cipher_key() == crypto.key(),
            r.files() == paths,
    {
        let r = ConfigService {
            crypto,
            paths,
            settings: Vec::new(),
            providers: Vec::new(),
            next_provider_id: 1,
            conversations: Vec::new(),
            messages: Vec::new(),
            catalog: McpCatalog::new(),
        };
        assert(r@.settings =~= Seq::empty());
        assert(r@.providers =~= Seq::empty());
        assert(r@.conversations =~= Seq::empty());
        assert(r@.messages =~= Seq::empty());
        r
    }

    /// The files of this installation.
    pub fn paths(&self) -> (r: &ConfigPaths)
        ensures
            *r == self.files(),
    {
        &self.paths
    }

    /// The cipher of this store.
    pub fn crypto(&self) -> (r: &CryptoService)
        ensures
            r.key() == self.cipher_key(),
    {
        &self.crypto
    }

    /// Puts `stored` under `key` as it is: the row replaces the setting of
    /// that key or is added.
    pub fn store_setting(&mut self, key: &str, stored: String, secret: bool, now: &str)
        requires
            old(self).wf(),
        ensures
            final(self).wf(),
            final(self)@ == (StoreView {
                settings: settings_after_put(
                    old(self)@.settings,
                    SettingView { key: key@, value: stored@, is_secret: secret, updated_at: now@ },
                ),
                ..old(self)@
            }),
            final(self).cipher_key() == old(self).cipher_key(),
            final(self).files() == old(self).files(),
    {
        let row = Setting {
            key: String::from_str(key),
            value: stored,
            is_secret: secret,
            updated_at: String::from_str(now),
        };
        proof {
            lemma_put_setting(self@.settings, row@);
        }
        put_setting(&mut self.settings, row);
    }

    /// Sets the setting under `key`. A secret value is sealed first, and only
    /// the token is kept. Fails, and changes nothing, only where a secret
    /// cannot be sealed.
    pub fn set_setting(&mut self, key: &str, value: &str, secret: bool, now: &str) -> (r: Result<
        (),
        ConfigError,
    >)
        requires
            old(self).wf(),
        ensures
            final(self).wf(),
            final(self).cipher_key() == old(self).cipher_key(),
            final(self).files() == old(self).files(),
            match r {
                Ok(_) => {
                    &&& setting_under(final(self)@.settings, key@) matches Some(row)
                    &&& keeps(old(self).cipher_key(), row.value, value@, secret)
                    &&& final(self)@ == (StoreView {
                        settings: settings_after_put(
                            old(self)@.settings,
                            SettingView {
                                key: key@,
                                value: row.value,
                                is_secret: secret,
                                updated_at: now@,
                            },
                        ),
                        ..old(self)@
                    })
                },
                Err(e) => secret && e is Encryption && final(self)@ == old(self)@,
            },
    {
        let stored = if secret {
            match self.crypto.encrypt(value) {
                Ok(token) => token,
                Err(e) => {
                    return Err(e);
                },
            }
        } else {
            String::from_str(value)
        };
        proof {
            lemma_put_setting(
                self@.settings,
                SettingView { key: key@, value: stored@, is_secret: secret, updated_at: now@ },
            );
        }
        self.store_setting(key, stored, secret, now);
        Ok(())
    }

    /// Reads the setting under `key`, opening it where it is secret.
    pub fn get_setting(&self, key: &str) -> (r: Result<Option<String>, ConfigError>)
        ensures
            match readable_setting(self@.settings, self.cipher_key(), key@) {
                Ok(value) => r matches Ok(found) && text_view(found) == value,
                Err(fault) => r matches Err(e) && reports_fault(e, fault),
            },
    {
        let at = find_setting(&self.settings, key);
        if at < self.settings.len() {
            let row = &self.settings[at];
            if row.is_secret {
                match self.crypto.decrypt(row.value.as_str()) {
                    Ok(text) => Ok(Some(text)),
                    Err(e) => Err(e),
                }
            } else {
                Ok(Some(row.value.clone()))
            }
        } else {
            Ok(None)
        }
    }

    /// Reads the three preferences. Fails with the first that does not open.
    pub fn get_preferences(&self) -> (r: Result<UserPreferences, ConfigError>)
        ensures
            match readable_setting(self@.settings, self.cipher_key(), language_key()) {
                Err(fault) => r matches Err(e) && reports_fault(e, fault),
                Ok(language) => match readable_setting(
                    self@.settings,
                    self.cipher_key(),
                    theme_key(),
                ) {
                    Err(fault) => r matches Err(e) && reports_fault(e, fault),
                    Ok(theme) => match readable_setting(
                        self@.settings,
                        self.cipher_key(),
                        system_prompt_key(),
                    ) {
                        Err(fault) => r matches Err(e) && reports_fault(e, fault),
                        Ok(prompt) => {
                            &&& r matches Ok(prefs)
                            &&& text_view(prefs.language) == language
                            &&& text_view(prefs.theme) == theme
                            &&& text_view(prefs.system_prompt) == prompt
                        },
                    },
                },
            },
    {
        let language = match self.get_setting("ui.language") {
            Ok(v) => v,
            Err(e) => {
                return Err(e);
            },
        };
        let theme = match self.get_setting("ui.theme") {
            Ok(v) => v,
            Err(e) => {
                return Err(e);
            },
        };
        let system_prompt = match self.get_setting("chat.systemPrompt") {
            Ok(v) => v,
            Err(e) => {
                return Err(e);
            },
        };
        Ok(UserPreferences { language, theme, system_prompt })
    }

    /// Saves the preferences that `prefs` holds, each as a plain setting;
    /// what is absent stays as it is. Always succeeds.
    pub fn save_preferences(&mut self, prefs: PreferencesUpdate, now: &str) -> (r: Result<
        (),
        ConfigError,
    >)
        requires
            old(self).wf(),
        ensures
            final(self).wf(),
            final(self).cipher_key() == old(self).cipher_key(),
            final(self).files() == old(self).files(),
            r is Ok,
            final(self)@ == (StoreView {
                settings: settings_after_preference(
                    settings_after_preference(
                        settings_after_preference(
                            old(self)@.settings,
                            language_key(),
                            text_view(prefs.language),
                            now@,
                        ),
                        theme_key(),
                        text_view(prefs.theme),
                        now@,
                    ),
                    system_prompt_key(),
                    text_view(prefs.system_prompt),
                    now@,
                ),
                ..old(self)@
            }),
    {
        if let Some(language) = prefs.language {
            self.store_setting("ui.language", language, false, now);
        }
        if let Some(theme) = prefs.theme {
            self.store_setting("ui.theme", theme, false, now);
        }
        if let Some(prompt) = prefs.system_prompt {
            self.store_setting("chat.systemPrompt", prompt, false, now);
        }
        Ok(())
    }
}

/// Why chat has no credential to use.
pub enum CredentialFault {
    /// No provider is configured.
    Missing,
    /// The stored key of the provider does not open.
    Sealed(TokenFault),
}

/// The credential that chat uses: that of the default provider, or of the
/// first provider where none is the default, with its key opened.
pub open spec fn default_credential(table: Seq<ProviderView>, cipher_key: Seq<u8>) -> Result<
    CredentialView,
    CredentialFault,
> {
    if table.len() == 0 {
        Err(CredentialFault::Missing)
    } else {
        let row = table[chosen_provider(table)];
        match plaintext_of(cipher_key, row.api_key) {
            Ok(api_key) => Ok(
                CredentialView {
                    provider: row.provider,
                    display_name: row.display_name,
                    default_model: row.default_model,
                    api_key,
                },
            ),
            Err(fault) => Err(CredentialFault::Sealed(fault)),
        }
    }
}

/// Whether `error` is the failure that stands for `fault`.
pub open spec fn reports_credential_fault(error: ConfigError, fault: CredentialFault) -> bool {
    match fault {
        CredentialFault::Missing => error is MissingDefaultProvider,
        CredentialFault::Sealed(inner) => reports_fault(error, inner),
    }
}

/// The entry that an upsert of `payload` writes once its key is sealed into
/// `token`.
pub open spec fn entry_of(payload: ProviderUpsertPayload, token: Seq<char>) -> ProviderEntry {
    ProviderEntry {
        provider: payload.provider@,
        display_name: payload.display_name@,
        api_key: token,
        default_model: text_view(payload.default_model),
        make_default: payload.make_default,
    }
}

/// Whether the table has no room for another provider: the name is new and
/// the ids are used up.
pub open spec fn providers_exhausted(state: StoreView, name: Seq<char>) -> bool {
    provider_position(state.providers, name) >= state.providers.len() && state.next_provider_id
        >= i64::MAX
}

/// The state after the upsert of `entry`.
pub open spec fn state_after_upsert(state: StoreView, entry: ProviderEntry) -> StoreView {
    StoreView {
        providers: providers_after_upsert(state.providers, state.next_provider_id, entry),
        next_provider_id: next_id_after_upsert(state.providers, state.next_provider_id, entry),
        ..state
    }
}

impl ConfigService {
    /// The summary of every provider, by display name.
    pub fn list_providers(&self) -> (r: Result<Vec<ProviderSummary>, ConfigError>)
        ensures
            r matches Ok(list) && summary_views(list@) == provider_listing(self@.providers),
    {
        Ok(list_in_order(&self.providers))
    }

    /// Whether any provider is configured.
    pub fn has_any_provider(&self) -> (r: Result<bool, ConfigError>)
        ensures
            r matches Ok(any) && any == (self@.providers.len() > 0),
    {
        Ok(self.providers.len() > 0)
    }

    /// The credential that chat uses, with its key opened: that of the
    /// default provider, or of the first provider where none is the default.
    /// With no provider at all the failure is `MissingDefaultProvider`.
    pub fn default_provider_credentials(&self) -> (r: Result<ProviderCredential, ConfigError>)
        ensures
            match default_credential(self@.providers, self.cipher_key()) {
                Ok(credential) => r matches Ok(found) && found@ == credential,
                Err(fault) => r matches Err(e) && reports_credential_fault(e, fault),
            },
    {
        if self.providers.len() == 0 {
            return Err(ConfigError::MissingDefaultProvider);
        }
        let at = find_chosen(&self.providers);
        let row = &self.providers[at];
        match self.crypto.decrypt(row.api_key.as_str()) {
            Ok(api_key) => Ok(
                ProviderCredential {
                    provider: row.provider.clone(),
                    display_name: row.display_name.clone(),
                    default_model: copy_text(&row.default_model),
                    api_key,
                },
            ),
            Err(e) => Err(e),
        }
    }

    /// Upserts a provider whose key is already sealed into `token`, and gives
    /// the summary of its row. Fails, and changes nothing, only where the
    /// name is new and the ids are used up.
    pub fn upsert_sealed_provider(&mut self, payload: ProviderUpsertPayload, token: String) -> (r:
        Result<ProviderSummary, ConfigError>)
        requires
            old(self).wf(),
        ensures
            final(self).wf(),
            final(self).cipher_key() == old(self).cipher_key(),
            final(self).files() == old(self).files(),
            match r {
                Ok(summary) => {
                    &&& !providers_exhausted(old(self)@, payload.provider@)
                    &&& final(self)@ == state_after_upsert(old(self)@, entry_of(payload, token@))
                    &&& summary@ == summary_of(
                        final(self)@.providers[provider_position(
                            old(self)@.providers,
                            payload.provider@,
                        )],
                    )
                },
                Err(e) => {
                    &&& providers_exhausted(old(self)@, payload.provider@)
                    &&& e.is_database("provider ids are used up"@)
                    &&& final(self)@ == old(self)@
                },
            },
            r is Ok && (promotes(old(self)@.providers, entry_of(payload, token@)) || single_default(
                old(self)@.providers,
            )) ==> single_default(final(self)@.providers),
    {
        let ghost entry = entry_of(payload, token@);
        let at = find_provider(&self.providers, payload.provider.as_str());
        let is_new = at >= self.providers.len();
        if is_new && self.next_provider_id >= i64::MAX {
            return Err(ConfigError::database("provider ids are used up"));
        }
        proof {
            lemma_upsert(self@.providers, self@.next_provider_id, entry);
        }
        let at = upsert_row(
            &mut self.providers,
            self.next_provider_id,
            payload.provider,
            payload.display_name,
            token,
            payload.default_model,
            payload.make_default,
        );
        if is_new {
            self.next_provider_id = self.next_provider_id + 1;
        }
        let summary = self.providers[at].summary();
        Ok(summary)
    }

    /// Upserts a provider: its key is sealed, and the row of that name takes
    /// the new fields or a new row is added. The row becomes the only default
    /// where the payload asks for it or the table was empty; else the flags
    /// stay. Fails, and changes nothing, where the key cannot be sealed or the
    /// ids are used up.
    pub fn upsert_provider(&mut self, payload: ProviderUpsertPayload) -> (r: Result<
        ProviderSummary,
        ConfigError,
    >)
        requires
            old(self).wf(),
        ensures
            final(self).wf(),
            final(self).cipher_key() == old(self).cipher_key(),
            final(self).files() == old(self).files(),
            match r {
                Ok(summary) => {
                    let at = provider_position(old(self)@.providers, payload.provider@);
                    let token = final(self)@.providers[at].api_key;
                    &&& !providers_exhausted(old(self)@, payload.provider@)
                    &&& seals(old(self).cipher_key(), token, payload.api_key@)
                    &&& final(self)@ == state_after_upsert(old(self)@, entry_of(payload, token))
                    &&& summary@ == summary_of(final(self)@.providers[at])
                    &&& (payload.make_default || old(self)@.providers.len() == 0 || single_default(
                        old(self)@.providers,
                    )) ==> single_default(final(self)@.providers)
                },
                Err(e) => {
                    &&& final(self)@ == old(self)@
                    &&& if providers_exhausted(old(self)@, payload.provider@) {
                        e.is_database("provider ids are used up"@)
                    } else {
                        e is Encryption
                    }
                },
            },
    {
        let at = find_provider(&self.providers, payload.provider.as_str());
        if at >= self.providers.len() && self.next_provider_id >= i64::MAX {
            return Err(ConfigError::database("provider ids are used up"));
        }
        let token = match self.crypto.encrypt(payload.api_key.as_str()) {
            Ok(token) => token,
            Err(e) => {
                return Err(e);
            },
        };
        self.upsert_sealed_provider(payload, token)
    }

    /// Makes `provider` the default: the flag of every row becomes whether
    /// the row is of that name. Always succeeds.
    pub fn set_default_provider(&mut self, provider: &str) -> (r: Result<(), ConfigError>)
        requires
            old(self).wf(),
        ensures
            final(self).wf(),
            final(self).cipher_key() == old(self).cipher_key(),
            final(self).files() == old(self).files(),
            r is Ok,
            final(self)@ == (StoreView {
                providers: with_only_default(old(self)@.providers, provider@),
                ..old(self)@
            }),
            forall|i: int|
                0 <= i < final(self)@.providers.len() ==> (
                #[trigger] final(self)@.providers[i]).is_default == (final(self)@.providers[i].provider
                    == provider@),
            has_row(old(self)@.providers, provider_named(provider@)) ==> single_default(
                final(self)@.providers,
            ),
    {
        proof {
            lemma_only_default(self@.providers, self@.next_provider_id, provider@);
        }
        flag_rows(&mut self.providers, Some(provider));
        Ok(())
    }
}

/// The ids of the conversations, in order.
pub open spec fn conversation_ids(table: Seq<ConversationView>) -> Seq<Seq<char>> {
    table.map_values(|row: ConversationView| row.id)
}

/// The ids of the messages, in order.
pub open spec fn message_ids(table: Seq<MessageView>) -> Seq<Seq<char>> {
    table.map_values(|row: MessageView| row.id)
}

/// Whether `error` is a failure that the drawing of an id can end in: no id
/// could be drawn, or the id that was drawn is taken, which one of the ids
/// `taken` must have the shape for. `words` are those of the store for the
/// table of the ids.
pub open spec fn id_failure(error: ConfigError, taken: Seq<Seq<char>>, words: Seq<char>) -> bool {
    ||| error.is_io(no_id_words())
    ||| error.is_database(words) && exists|k: int|
        0 <= k < taken.len() && is_generated_id(#[trigger] taken[k])
}

/// The state with one more conversation.
pub open spec fn state_with_conversation(state: StoreView, row: ConversationView) -> StoreView {
    StoreView { conversations: state.conversations.push(row), ..state }
}

/// The state with the conversation at `at` replaced by `row`.
pub open spec fn state_with_changed_conversation(
    state: StoreView,
    at: int,
    row: ConversationView,
) -> StoreView {
    StoreView { conversations: state.conversations.update(at, row), ..state }
}

/// The state without the conversation `id` and without its messages.
pub open spec fn state_without_conversation(state: StoreView, id: Seq<char>) -> StoreView {
    let at = conversation_position(state.conversations, id);
    StoreView {
        conversations: if at < state.conversations.len() {
            state.conversations.remove(at)
        } else {
            state.conversations
        },
        messages: rows_where(state.messages, message_outside(id)),
        ..state
    }
}

/// The state after `message` was recorded: the message is the last of its
/// table, and its conversation shows it as its last message.
pub open spec fn state_with_message(state: StoreView, message: MessageView) -> StoreView {
    let at = conversation_position(state.conversations, message.conversation_id);
    StoreView {
        conversations: state.conversations.update(
            at,
            with_last_message(state.conversations[at], message.content, message.created_at),
        ),
        messages: state.messages.push(message),
        ..state
    }
}

/// Why a message cannot be recorded, if it cannot: its role is unknown, its
/// conversation is missing, or its id is taken. The first that holds counts.
pub open spec fn message_refusal(state: StoreView, message: MessageView) -> Option<Seq<char>> {
    if !is_role(message.role) {
        Some("CHECK constraint failed: role"@)
    } else if !has_row(state.conversations, conversation_with_id(message.conversation_id)) {
        Some("FOREIGN KEY constraint failed"@)
    } else if has_row(state.messages, message_with_id(message.id)) {
        Some("UNIQUE constraint failed: messages.id"@)
    } else {
        None
    }
}

/// A conversation without messages shows none.
proof fn lemma_no_messages_of(state: StoreView, id: Seq<char>)
    requires
        state.wf(),
        !has_row(state.conversations, conversation_with_id(id)),
    ensures
        last_message(state.messages, id) is None,
{
    lemma_rows_where_none(state.messages, message_in(id));
}

/// With one more conversation, without messages, the state is still
/// consistent.
proof fn lemma_conversation_keeps_wf(state: StoreView, row: ConversationView)
    requires
        state.wf(),
        !has_row(state.conversations, conversation_with_id(row.id)),
        row.last_message_preview is None,
        row.last_message_at is None,
    ensures
        state_with_conversation(state, row).wf(),
{
    let before = state.conversations;
    let after = before.push(row);
    lemma_position_where(before, conversation_with_id(row.id));
    assert forall|p: int| 0 <= p < before.len() implies has_row(
        after,
        conversation_with_id((#[trigger] before[p]).id),
    ) by {
        lemma_has_row(after, conversation_with_id(before[p].id), p);
    }
    lemma_messages_follow(state.messages, before, after);
    lemma_no_messages_of(state, row.id);
}

/// With a conversation changed in what it shows of itself, not of its
/// messages, the state is still consistent.
proof fn lemma_change_keeps_wf(state: StoreView, at: int, row: ConversationView)
    requires
        state.wf(),
        0 <= at < state.conversations.len(),
        row.id == state.conversations[at].id,
        row.last_message_preview == state.conversations[at].last_message_preview,
        row.last_message_at == state.conversations[at].last_message_at,
    ensures
        state_with_changed_conversation(state, at, row).wf(),
{
    let before = state.conversations;
    let after = before.update(at, row);
    assert forall|p: int| 0 <= p < before.len() implies has_row(
        after,
        conversation_with_id((#[trigger] before[p]).id),
    ) by {
        lemma_has_row(after, conversation_with_id(before[p].id), p);
    }
    lemma_messages_follow(state.messages, before, after);
}

/// With a message recorded that nothing refuses, the state is still
/// consistent: the message is in the table, and its conversation shows it.
pub proof fn lemma_message_keeps_wf(state: StoreView, message: MessageView)
    requires
        state.wf(),
        message_refusal(state, message) is None,
    ensures
        state_with_message(state, message).wf(),
        last_message(state_with_message(state, message).messages, message.conversation_id) == Some(
            message,
        ),
{
    let after_state = state_with_message(state, message);
    let before = state.conversations;
    let after = after_state.conversations;
    lemma_position_where(before, conversation_with_id(message.conversation_id));
    assert forall|p: int| 0 <= p < before.len() implies has_row(
        after,
        conversation_with_id((#[trigger] before[p]).id),
    ) by {
        lemma_has_row(after, conversation_with_id(before[p].id), p);
    }
    lemma_messages_follow(state.messages, before, after);
    let messages = after_state.messages;
    lemma_position_where(state.messages, message_with_id(message.id));
    assert forall|i: int| 0 <= i < after.len() implies shows_last_message(
        #[trigger] after[i],
        messages,
    ) by {
        lemma_rows_where_push(state.messages, message, message_in(after[i].id));
    }
}

/// Messages stay in order where every conversation of the old table is
/// still found in the new one.
proof fn lemma_messages_follow(
    messages: Seq<MessageView>,
    before: Seq<ConversationView>,
    after: Seq<ConversationView>,
)
    requires
        messages_wf(messages, before),
        forall|p: int|
            0 <= p < before.len() ==> has_row(
                after,
                conversation_with_id((#[trigger] before[p]).id),
            ),
    ensures
        messages_wf(messages, after),
{
    assert forall|k: int| 0 <= k < messages.len() implies has_row(
        after,
        conversation_with_id((#[trigger] messages[k]).conversation_id),
    ) by {
        let wanted = conversation_with_id(messages[k].conversation_id);
        lemma_position_where(before, wanted);
        let p = position_where(before, wanted);
    }
}

/// Without a conversation and its messages the state is still consistent.
proof fn lemma_delete_keeps_wf(state: StoreView, id: Seq<char>)
    requires
        state.wf(),
    ensures
        state_without_conversation(state, id).wf(),
{
    let after = state_without_conversation(state, id);
    let at = conversation_position(state.conversations, id);
    lemma_position_where(state.conversations, conversation_with_id(id));
    lemma_rows_where_members(state.messages, message_outside(id));
    assert forall|k: int| 0 <= k < after.messages.len() implies is_role(
        (#[trigger] after.messages[k]).role,
    ) && has_row(after.conversations, conversation_with_id(after.messages[k].conversation_id)) by {
        let m = after.messages[k];
        let i = choose|i: int| 0 <= i < state.messages.len() && state.messages[i] == m;
        let wanted = conversation_with_id(m.conversation_id);
        lemma_position_where(state.conversations, wanted);
        let p = position_where(state.conversations, wanted);
        if at < state.conversations.len() {
            let q = if p < at { p } else { p - 1 };
            lemma_has_row(after.conversations, wanted, q);
        }
    }
    lemma_kept_messages_distinct(state.messages, message_outside(id));
    assert forall|i: int| 0 <= i < after.conversations.len() implies shows_last_message(
        #[trigger] after.conversations[i],
        after.messages,
    ) by {
        let own = after.conversations[i].id;
        lemma_rows_where_nested(state.messages, message_outside(id), message_in(own));
    }
}

/// Messages that are kept from a table with unique ids have unique ids.
proof fn lemma_kept_messages_distinct(messages: Seq<MessageView>, wanted: spec_fn(MessageView) -> bool)
    requires
        forall|i: int, j: int|
            0 <= i < j < messages.len() ==> (#[trigger] messages[i]).id != (
            #[trigger] messages[j]).id,
    ensures
        forall|i: int, j: int|
            0 <= i < j < rows_where(messages, wanted).len() ==> (#[trigger] rows_where(
                messages,
                wanted,
            )[i]).id != (#[trigger] rows_where(messages, wanted)[j]).id,
    decreases messages.len(),
{
    if messages.len() > 0 {
        lemma_kept_messages_distinct(messages.drop_last(), wanted);
        lemma_rows_where_members(messages.drop_last(), wanted);
    }
}

impl ConfigService {
    /// Adds a conversation under `id`, titled as asked or "New chat".
    /// Fails, and changes nothing, only where the id is taken.
    pub fn insert_conversation(&mut self, id: String, title: Option<String>, now: &str) -> (r:
        Result<ConversationSummary, ConfigError>)
        requires
            old(self).wf(),
        ensures
            final(self).wf(),
            final(self).cipher_key() == old(self).cipher_key(),
            final(self).files() == old(self).files(),
            match r {
                Ok(row) => {
                    &&& !has_row(old(self)@.conversations, conversation_with_id(id@))
                    &&& row@ == new_conversation(id@, text_view(title), now@)
                    &&& final(self)@ == state_with_conversation(old(self)@, row@)
                },
                Err(e) => {
                    &&& has_row(old(self)@.conversations, conversation_with_id(id@))
                    &&& e.is_database("UNIQUE constraint failed: conversations.id"@)
                    &&& final(self)@ == old(self)@
                },
            },
    {
        let at = find_conversation(&self.conversations, id.as_str());
        if at < self.conversations.len() {
            return Err(ConfigError::database("UNIQUE constraint failed: conversations.id"));
        }
        let row = ConversationSummary {
            id,
            title: title_or_default(title),
            pinned: false,
            last_message_preview: None,
            last_message_at: None,
            created_at: String::from_str(now),
            updated_at: String::from_str(now),
        };
        let shown = row.duplicate();
        proof {
            lemma_conversation_keeps_wf(self@, row@);
        }
        self.conversations.push(row);
        assert(conversation_views(self.conversations@) =~= old(self)@.conversations.push(row@));
        Ok(shown)
    }

    /// Starts a conversation under a fresh random id, titled as asked or
    /// "New chat". Fails, and changes nothing, only where no id can be drawn
    /// or the id that was drawn is taken, which needs a conversation with
    /// an id of that shape.
    pub fn create_conversation(&mut self, title: Option<String>, now: &str) -> (r: Result<
        ConversationSummary,
        ConfigError,
    >)
        requires
            old(self).wf(),
        ensures
            final(self).wf(),
            final(self).cipher_key() == old(self).cipher_key(),
            final(self).files() == old(self).files(),
            match r {
                Ok(row) => {
                    &&& is_generated_id(row@.id)
                    &&& !has_row(old(self)@.conversations, conversation_with_id(row@.id))
                    &&& row@ == new_conversation(row@.id, text_view(title), now@)
                    &&& final(self)@ == state_with_conversation(old(self)@, row@)
                },
                Err(e) => {
                    &&& id_failure(
                        e,
                        conversation_ids(old(self)@.conversations),
                        "UNIQUE constraint failed: conversations.id"@,
                    )
                    &&& final(self)@ == old(self)@
                },
            },
    {
        let id = match generate_id() {
            Ok(id) => id,
            Err(e) => {
                return Err(e);
            },
        };
        let ghost drawn = id@;
        let r = self.insert_conversation(id, title, now);
        proof {
            if r is Err {
                let table = old(self)@.conversations;
                lemma_position_where(table, conversation_with_id(drawn));
                let at = conversation_position(table, drawn);
                assert(conversation_with_id(drawn)(table[at]));
                assert(conversation_ids(table)[at] == drawn);
            }
        }
        r
    }

    /// The conversation `id`, or the failure of a row that is not there.
    pub fn get_conversation(&self, id: &str) -> (r: Result<ConversationSummary, ConfigError>)
        ensures
            match r {
                Ok(row) => {
                    &&& has_row(self@.conversations, conversation_with_id(id@))
                    &&& row@ == self@.conversations[conversation_position(self@.conversations, id@)]
                },
                Err(e) => {
                    &&& !has_row(self@.conversations, conversation_with_id(id@))
                    &&& e.is_database(row_not_found())
                },
            },
    {
        let at = find_conversation(&self.conversations, id);
        if at < self.conversations.len() {
            let row = self.conversations[at].duplicate();
            Ok(row)
        } else {
            Err(ConfigError::row_not_found())
        }
    }

    /// Every conversation: pinned ones first, then by the latest activity,
    /// then by the latest creation.
    pub fn list_conversations(&self) -> (r: Result<Vec<ConversationSummary>, ConfigError>)
        ensures
            r matches Ok(list) && conversation_views(list@) == conversation_listing(
                self@.conversations,
            ),
    {
        Ok(conversations_in_order(&self.conversations))
    }

    /// Replaces the conversation at `at` by `row`, which has the same id and
    /// shows the same last message.
    fn change_conversation(&mut self, at: usize, row: ConversationSummary)
        requires
            old(self).wf(),
            at < old(self)@.conversations.len(),
            row@.id == old(self)@.conversations[at as int].id,
            row@.last_message_preview == old(self)@.conversations[at as int].last_message_preview,
            row@.last_message_at == old(self)@.conversations[at as int].last_message_at,
        ensures
            final(self).wf(),
            final(self).cipher_key() == old(self).cipher_key(),
            final(self).files() == old(self).files(),
            final(self)@ == state_with_changed_conversation(old(self)@, at as int, row@),
    {
        proof {
            lemma_change_keeps_wf(self@, at as int, row@);
        }
        self.conversations[at] = row;
        assert(conversation_views(self.conversations@) =~= old(self)@.conversations.update(
            at as int,
            row@,
        ));
    }

    /// Gives the conversation `id` a new title. Fails, and changes nothing,
    /// where there is no such conversation.
    pub fn rename_conversation(&mut self, id: &str, title: &str, now: &str) -> (r: Result<
        ConversationSummary,
        ConfigError,
    >)
        requires
            old(self).wf(),
        ensures
            final(self).wf(),
            final(self).cipher_key() == old(self).cipher_key(),
            final(self).files() == old(self).files(),
            match r {
                Ok(row) => {
                    let at = conversation_position(old(self)@.conversations, id@);
                    &&& has_row(old(self)@.conversations, conversation_with_id(id@))
                    &&& row@ == renamed(old(self)@.conversations[at], title@, now@)
                    &&& final(self)@ == state_with_changed_conversation(old(self)@, at, row@)
                },
                Err(e) => {
                    &&& !has_row(old(self)@.conversations, conversation_with_id(id@))
                    &&& e.is_database(row_not_found())
                    &&& final(self)@ == old(self)@
                },
            },
    {
        let at = find_conversation(&self.conversations, id);
        if at >= self.conversations.len() {
            return Err(ConfigError::row_not_found());
        }
        let mut row = self.conversations[at].duplicate();
        row.title = String::from_str(title);
        row.updated_at = String::from_str(now);
        let shown = row.duplicate();
        self.change_conversation(at, row);
        Ok(shown)
    }

    /// Pins or unpins the conversation `id`. Fails, and changes nothing,
    /// where there is no such conversation.
    pub fn set_conversation_pin(&mut self, id: &str, pinned: bool, now: &str) -> (r: Result<
        ConversationSummary,
        ConfigError,
    >)
        requires
            old(self).wf(),
        ensures
            final(self).wf(),
            final(self).cipher_key() == old(self).cipher_key(),
            final(self).files() == old(self).files(),
            match r {
                Ok(row) => {
                    let at = conversation_position(old(self)@.conversations, id@);
                    &&& has_row(old(self)@.conversations, conversation_with_id(id@))
                    &&& row@ == pinned_as(old(self)@.conversations[at], pinned, now@)
                    &&& final(self)@ == state_with_changed_conversation(old(self)@, at, row@)
                },
                Err(e) => {
                    &&& !has_row(old(self)@.conversations, conversation_with_id(id@))
                    &&& e.is_database(row_not_found())
                    &&& final(self)@ == old(self)@
                },
            },
    {
        let at = find_conversation(&self.conversations, id);
        if at >= self.conversations.len() {
            return Err(ConfigError::row_not_found());
        }
        let mut row = self.conversations[at].duplicate();
        row.pinned = pinned;
        row.updated_at = String::from_str(now);
        let shown = row.duplicate();
        self.change_conversation(at, row);
        Ok(shown)
    }

    /// Deletes the conversation `id` and, with it, its messages. Always
    /// succeeds; without such a conversation only stray messages of that id
    /// would go, and a consistent store has none.
    pub fn delete_conversation(&mut self, id: &str) -> (r: Result<(), ConfigError>)
        requires
            old(self).wf(),
        ensures
            final(self).wf(),
            final(self).cipher_key() == old(self).cipher_key(),
            final(self).files() == old(self).files(),
            r is Ok,
            final(self)@ == state_without_conversation(old(self)@, id@),
    {
        proof {
            lemma_delete_keeps_wf(self@, id@);
        }
        let at = find_conversation(&self.conversations, id);
        if at < self.conversations.len() {
            self.conversations.remove(at);
            assert(conversation_views(self.conversations@) =~= old(self)@.conversations.remove(
                at as int,
            ));
        }
        remove_messages_of(&mut self.messages, id);
        Ok(())
    }

    /// Records a message under `id`: the message is added, and its
    /// conversation takes the first 200 characters of the content as its
    /// preview, and `now` as the time of its last message and of its last
    /// change, all in one step. Fails, and changes nothing, where
    /// `message_refusal` says why.
    pub fn insert_message(
        &mut self,
        id: String,
        conversation_id: &str,
        role: &str,
        content: &str,
        now: &str,
    ) -> (r: Result<ConversationMessage, ConfigError>)
        requires
            old(self).wf(),
        ensures
            final(self).wf(),
            final(self).cipher_key() == old(self).cipher_key(),
            final(self).files() == old(self).files(),
            match r {
                Ok(message) => {
                    &&& message@ == (MessageView {
                        id: id@,
                        conversation_id: conversation_id@,
                        role: role@,
                        content: content@,
                        created_at: now@,
                    })
                    &&& message_refusal(old(self)@, message@) is None
                    &&& final(self)@ == state_with_message(old(self)@, message@)
                },
                Err(e) => {
                    &&& message_refusal(
                        old(self)@,
                        MessageView {
                            id: id@,
                            conversation_id: conversation_id@,
                            role: role@,
                            content: content@,
                            created_at: now@,
                        },
                    ) matches Some(why)
                    &&& e.is_database(why)
                    &&& final(self)@ == old(self)@
                },
            },
    {
        if !role_is_known(role) {
            return Err(ConfigError::database("CHECK constraint failed: role"));
        }
        let at = find_conversation(&self.conversations, conversation_id);
        if at >= self.conversations.len() {
            return Err(ConfigError::database("FOREIGN KEY constraint failed"));
        }
        let taken = find_message(&self.messages, id.as_str());
        if taken < self.messages.len() {
            return Err(ConfigError::database("UNIQUE constraint failed: messages.id"));
        }
        let message = ConversationMessage {
            id,
            conversation_id: String::from_str(conversation_id),
            role: String::from_str(role),
            content: String::from_str(content),
            created_at: String::from_str(now),
        };
        let shown = message.duplicate();
        let mut row = self.conversations[at].duplicate();
        row.last_message_preview = Some(preview_of(content));
        row.last_message_at = Some(String::from_str(now));
        row.updated_at = String::from_str(now);
        proof {
            lemma_message_keeps_wf(self@, message@);
        }
        self.conversations[at] = row;
        self.messages.push(message);
        assert(conversation_views(self.conversations@) =~= old(self)@.conversations.update(
            at as int,
            row@,
        ));
        assert(message_views(self.messages@) =~= old(self)@.messages.push(message@));
        Ok(shown)
    }

    /// Records a message under a fresh random id, as `insert_message` does.
    /// Where the role is known and the conversation exists, it fails only
    /// where no id can be drawn or the id that was drawn is taken, which
    /// needs a message with an id of that shape.
    pub fn record_message(&mut self, conversation_id: &str, role: &str, content: &str, now: &str) -> (r:
        Result<ConversationMessage, ConfigError>)
        requires
            old(self).wf(),
        ensures
            final(self).wf(),
            final(self).cipher_key() == old(self).cipher_key(),
            final(self).files() == old(self).files(),
            match r {
                Ok(message) => {
                    &&& is_generated_id(message@.id)
                    &&& message@ == (MessageView {
                        id: message@.id,
                        conversation_id: conversation_id@,
                        role: role@,
                        content: content@,
                        created_at: now@,
                    })
                    &&& message_refusal(old(self)@, message@) is None
                    &&& final(self)@ == state_with_message(old(self)@, message@)
                },
                Err(e) => {
                    &&& final(self)@ == old(self)@
                    &&& if !is_role(role@) {
                        e.is_database("CHECK constraint failed: role"@)
                    } else if !has_row(
                        old(self)@.conversations,
                        conversation_with_id(conversation_id@),
                    ) {
                        e.is_database("FOREIGN KEY constraint failed"@)
                    } else {
                        id_failure(
                            e,
                            message_ids(old(self)@.messages),
                            "UNIQUE constraint failed: messages.id"@,
                        )
                    }
                },
            },
    {
        if !role_is_known(role) {
            return Err(ConfigError::database("CHECK constraint failed: role"));
        }
        if find_conversation(&self.conversations, conversation_id) >= self.conversations.len() {
            return Err(ConfigError::database("FOREIGN KEY constraint failed"));
        }
        let id = match generate_id() {
            Ok(id) => id,
            Err(e) => {
                return Err(e);
            },
        };
        let ghost drawn = id@;
        let r = self.insert_message(id, conversation_id, role, content, now);
        proof {
            if r is Err {
                let table = old(self)@.messages;
                lemma_position_where(table, message_with_id(drawn));
                let at = position_where(table, message_with_id(drawn));
                assert(message_with_id(drawn)(table[at]));
                assert(message_ids(table)[at] == drawn);
            }
        }
        r
    }

    /// The messages of the conversation `conversation_id`, oldest first;
    /// messages of one time stay in the order in which they were recorded.
    /// A limit that is not negative keeps the first that many.
    pub fn get_conversation_messages(&self, conversation_id: &str, limit: Option<i64>) -> (r:
        Result<Vec<ConversationMessage>, ConfigError>)
        ensures
            r matches Ok(list) && message_views(list@) == conversation_messages(
                self@.messages,
                conversation_id@,
                limit,
            ),
    {
        Ok(messages_in_order(&self.messages, conversation_id, limit))
    }
}

/// The rows of a store, as they are saved and loaded.
#[derive(Debug)]
pub struct StoreSnapshot {
    pub settings: Vec<Setting>,
    pub providers: Vec<ProviderRecord>,
    pub next_provider_id: i64,
    pub conversations: Vec<ConversationSummary>,
    pub messages: Vec<ConversationMessage>,
    pub catalog: CatalogSnapshot,
}

impl View for StoreSnapshot {
    type V = StoreView;

    open spec fn view(&self) -> StoreView {
        StoreView {
            settings: setting_views(self.settings@),
            providers: provider_views(self.providers@),
            next_provider_id: self.next_provider_id as int,
            conversations: conversation_views(self.conversations@),
            messages: message_views(self.messages@),
            catalog: self.catalog@,
        }
    }
}

/// Whether no two settings share a key.
fn settings_are_distinct(rows: &Vec<Setting>) -> (r: bool)
    ensures
        r == settings_distinct(setting_views(rows@)),
{
    let ghost table = setting_views(rows@);
    let mut j: usize = 0;
    while j < rows.len()
        invariant
            j <= rows@.len(),
            table == setting_views(rows@),
            forall|a: int, b: int| 0 <= a < b < j ==> (#[trigger] table[a]).key != (#[trigger] table[b]).key,
        decreases rows@.len() - j,
    {
        let mut i: usize = 0;
        while i < j
            invariant
                i <= j < rows@.len(),
                table == setting_views(rows@),
                forall|a: int| 0 <= a < i ==> (#[trigger] table[a]).key != table[j as int].key,
            decreases j - i,
        {
            if crate::text::same_text(rows[i].key.as_str(), rows[j].key.as_str()) {
                assert(table[i as int].key == table[j as int].key);
                return false;
            }
            i += 1;
        }
        j += 1;
    }
    true
}

/// Whether no two conversations share an id.
fn conversations_are_distinct(rows: &Vec<ConversationSummary>) -> (r: bool)
    ensures
        r == conversations_distinct(conversation_views(rows@)),
{
    let ghost table = conversation_views(rows@);
    let mut j: usize = 0;
    while j < rows.len()
        invariant
            j <= rows@.len(),
            table == conversation_views(rows@),
            forall|a: int, b: int| 0 <= a < b < j ==> (#[trigger] table[a]).id != (#[trigger] table[b]).id,
        decreases rows@.len() - j,
    {
        let mut i: usize = 0;
        while i < j
            invariant
                i <= j < rows@.len(),
                table == conversation_views(rows@),
                forall|a: int| 0 <= a < i ==> (#[trigger] table[a]).id != table[j as int].id,
            decreases j - i,
        {
            if crate::text::same_text(rows[i].id.as_str(), rows[j].id.as_str()) {
                assert(table[i as int].id == table[j as int].id);
                return false;
            }
            i += 1;
        }
        j += 1;
    }
    true
}

/// Whether the provider table is in order.
fn providers_are_wf(rows: &Vec<ProviderRecord>, next_id: i64) -> (r: bool)
    ensures
        r == providers_wf(provider_views(rows@), next_id as int),
{
    let ghost table = provider_views(rows@);
    if next_id < 1 {
        return false;
    }
    let mut seen_default = false;
    let mut j: usize = 0;
    while j < rows.len()
        invariant
            j <= rows@.len(),
            table == provider_views(rows@),
            1 <= next_id,
            forall|a: int, b: int|
                0 <= a < b < j ==> (#[trigger] table[a]).provider != (#[trigger] table[b]).provider,
            forall|a: int, b: int| 0 <= a < b < j ==> (#[trigger] table[a]).id < (#[trigger] table[b]).id,
            forall|a: int| 0 <= a < j ==> 1 <= (#[trigger] table[a]).id < next_id,
            forall|a: int, b: int|
                0 <= a < b < j ==> !((#[trigger] table[a]).is_default && (
                #[trigger] table[b]).is_default),
            seen_default <==> exists|a: int| 0 <= a < j && (#[trigger] table[a]).is_default,
        decreases rows@.len() - j,
    {
        if rows[j].id < 1 || rows[j].id >= next_id {
            return false;
        }
        if j > 0 {
            assert(table[j - 1] == rows@[j - 1]@);
            if rows[j - 1].id >= rows[j].id {
                return false;
            }
        }
        if rows[j].is_default && seen_default {
            return false;
        }
        let mut i: usize = 0;
        while i < j
            invariant
                i <= j < rows@.len(),
                table == provider_views(rows@),
                forall|a: int| 0 <= a < i ==> (#[trigger] table[a]).provider != table[j as int].provider,
            decreases j - i,
        {
            if crate::text::same_text(rows[i].provider.as_str(), rows[j].provider.as_str()) {
                assert(table[i as int].provider == table[j as int].provider);
                return false;
            }
            i += 1;
        }
        if rows[j].is_default {
            seen_default = true;
        }
        j += 1;
    }
    true
}

/// Whether the messages are in order within the conversations.
fn messages_are_wf(rows: &Vec<ConversationMessage>, conversations: &Vec<ConversationSummary>) -> (r:
    bool)
    ensures
        r == messages_wf(message_views(rows@), conversation_views(conversations@)),
{
    let ghost table = message_views(rows@);
    let ghost parents = conversation_views(conversations@);
    let mut j: usize = 0;
    while j < rows.len()
        invariant
            j <= rows@.len(),
            table == message_views(rows@),
            parents == conversation_views(conversations@),
            forall|k: int|
                0 <= k < j ==> is_role((#[trigger] table[k]).role) && has_row(
                    parents,
                    conversation_with_id(table[k].conversation_id),
                ),
            forall|a: int, b: int| 0 <= a < b < j ==> (#[trigger] table[a]).id != (#[trigger] table[b]).id,
        decreases rows@.len() - j,
    {
        assert(table[j as int] == rows@[j as int]@);
        if !role_is_known(rows[j].role.as_str()) {
            return false;
        }
        let at = find_conversation(conversations, rows[j].conversation_id.as_str());
        if at >= conversations.len() {
            return false;
        }
        let mut i: usize = 0;
        while i < j
            invariant
                i <= j < rows@.len(),
                table == message_views(rows@),
                forall|a: int| 0 <= a < i ==> (#[trigger] table[a]).id != table[j as int].id,
            decreases j - i,
        {
            if crate::text::same_text(rows[i].id.as_str(), rows[j].id.as_str()) {
                assert(table[i as int].id == table[j as int].id);
                return false;
            }
            i += 1;
        }
        j += 1;
    }
    true
}

/// The position of the last message of the conversation `id`, or the length
/// of the table where it has none.
fn last_message_position(rows: &Vec<ConversationMessage>, id: &str) -> (at: usize)
    ensures
        at <= rows@.len(),
        at == rows@.len() ==> last_message(message_views(rows@), id@) is None,
        at < rows@.len() ==> last_message(message_views(rows@), id@) == Some(rows@[at as int]@),
{
    let ghost table = message_views(rows@);
    let mut j: usize = rows.len();
    assert(table.take(j as int) == table);
    while j > 0
        invariant
            j <= rows@.len(),
            table == message_views(rows@),
            last_message(table, id@) == last_message(table.take(j as int), id@),
        decreases j,
    {
        let ghost part = table.take(j as int);
        assert(part.drop_last() == table.take(j - 1));
        if crate::text::same_text(rows[j - 1].conversation_id.as_str(), id) {
            assert(rows_where(part, message_in(id@)) == rows_where(
                part.drop_last(),
                message_in(id@),
            ).push(part.last()));
            return j - 1;
        }
        j -= 1;
    }
    rows.len()
}

/// Whether `shown` is the text `text`.
fn shows_text(shown: &Option<String>, text: &str) -> (r: bool)
    ensures
        r == (text_view(*shown) == Some(text@)),
{
    match shown {
        Some(found) => crate::text::same_text(found.as_str(), text),
        None => false,
    }
}

/// Whether every conversation shows its last message.
fn previews_are_current(
    conversations: &Vec<ConversationSummary>,
    messages: &Vec<ConversationMessage>,
) -> (r: bool)
    ensures
        r == previews_current(conversation_views(conversations@), message_views(messages@)),
{
    let ghost table = conversation_views(conversations@);
    let ghost sent = message_views(messages@);
    let mut i: usize = 0;
    while i < conversations.len()
        invariant
            i <= conversations@.len(),
            table == conversation_views(conversations@),
            sent == message_views(messages@),
            forall|k: int| 0 <= k < i ==> shows_last_message(#[trigger] table[k], sent),
        decreases conversations@.len() - i,
    {
        let row = &conversations[i];
        assert(table[i as int] == row@);
        let at = last_message_position(messages, row.id.as_str());
        let shown = if at < messages.len() {
            let message = &messages[at];
            let preview = preview_of(message.content.as_str());
            shows_text(&row.last_message_preview, preview.as_str()) && shows_text(
                &row.last_message_at,
                message.created_at.as_str(),
            )
        } else {
            row.last_message_preview.is_none() && row.last_message_at.is_none()
        };
        if !shown {
            return false;
        }
        i += 1;
    }
    true
}

impl ConfigService {
    /// The store of the rows of `snapshot`, where they are consistent; else
    /// the refusal "inconsistent rows".
    pub fn restore(paths: ConfigPaths, crypto: CryptoService, snapshot: StoreSnapshot) -> (r: Result<
        Self,
        ConfigError,
    >)
        ensures
            match r {
                Ok(store) => {
                    &&& snapshot@.wf()
                    &&& store.wf()
                    &&& store@ == snapshot@
                    &&& store.cipher_key() == crypto.key()
                    &&& store.files() == paths
                },
                Err(e) => !snapshot@.wf() && e.is_database("inconsistent rows"@),
            },
    {
        let consistent = settings_are_distinct(&snapshot.settings) && providers_are_wf(
            &snapshot.providers,
            snapshot.next_provider_id,
        ) && conversations_are_distinct(&snapshot.conversations) && messages_are_wf(
            &snapshot.messages,
            &snapshot.conversations,
        ) && previews_are_current(&snapshot.conversations, &snapshot.messages)
            && snapshot.catalog.is_consistent();
        if !consistent {
            return Err(ConfigError::database("inconsistent rows"));
        }
        Ok(
            ConfigService {
                crypto,
                paths,
                settings: snapshot.settings,
                providers: snapshot.providers,
                next_provider_id: snapshot.next_provider_id,
                conversations: snapshot.conversations,
                messages: snapshot.messages,
                catalog: McpCatalog::restore(snapshot.catalog),
            },
        )
    }

    /// Whether the state is consistent. It is after every operation of the
    /// store; this is the test for a caller that cannot know where its store
    /// came from.
    pub fn is_consistent(&self) -> (r: bool)
        ensures
            r == self.wf(),
    {
        settings_are_distinct(&self.settings) && providers_are_wf(
            &self.providers,
            self.next_provider_id,
        ) && conversations_are_distinct(&self.conversations) && messages_are_wf(
            &self.messages,
            &self.conversations,
        ) && previews_are_current(&self.conversations, &self.messages)
            && self.catalog.is_consistent()
    }

    /// The rows of the store, to be saved.
    pub fn snapshot(&self) -> (r: StoreSnapshot)
        ensures
            r@ == self@,
    {
        StoreSnapshot {
            settings: crate::records::copy_settings(&self.settings),
            providers: crate::records::copy_providers(&self.providers),
            next_provider_id: self.next_provider_id,
            conversations: crate::records::copy_conversations(&self.conversations),
            messages: crate::records::copy_messages(&self.messages),
            catalog: self.catalog.snapshot(),
        }
    }

    /// A second store in the same state, under the same key and files.
    pub fn duplicate(&self) -> (r: Self)
        requires
            self.wf(),
        ensures
            r.wf(),
            r@ == self@,
            r.cipher_key() == self.cipher_key(),
            r.files() == self.files(),
    {
        let snapshot = self.snapshot();
        ConfigService {
            crypto: self.crypto.duplicate(),
            paths: self.paths.duplicate(),
            settings: snapshot.settings,
            providers: snapshot.providers,
            next_provider_id: snapshot.next_provider_id,
            conversations: snapshot.conversations,
            messages: snapshot.messages,
            catalog: McpCatalog::restore(snapshot.catalog),
        }
    }

    /// The settings as they are kept, secrets sealed.
    pub fn settings(&self) -> (r: &Vec<Setting>)
        ensures
            setting_views(r@) == self@.settings,
    {
        &self.settings
    }

    /// The providers as they are kept, keys sealed.
    pub fn providers(&self) -> (r: &Vec<ProviderRecord>)
        ensures
            provider_views(r@) == self@.providers,
    {
        &self.providers
    }

    /// The id that the next new provider gets.
    pub fn next_provider_id(&self) -> (r: i64)
        ensures
            r == self@.next_provider_id,
    {
        self.next_provider_id
    }

    /// The conversations in the order in which they were started.
    pub fn conversations(&self) -> (r: &Vec<ConversationSummary>)
        ensures
            conversation_views(r@) == self@.conversations,
    {
        &self.conversations
    }

    /// The messages in the order in which they were recorded.
    pub fn messages(&self) -> (r: &Vec<ConversationMessage>)
        ensures
            message_views(r@) == self@.messages,
    {
        &self.messages
    }
}

/// Whether `draft` is what a server payload is written as: its fields as
/// given, its configuration and its secrets present where the payload has
/// them, the secrets as a sealing under `cipher_key` of their text. The
/// texts are whatever the JSON values serialise to.
pub open spec fn drafts_server(draft: ServerDraft, payload: McpServerUpsert, cipher_key: Seq<u8>) -> bool {
    &&& draft.slug@ == payload.slug@
    &&& draft.name@ == payload.name@
    &&& text_view(draft.installed_version) == text_view(payload.installed_version)
    &&& text_view(draft.status) == text_view(payload.status)
    &&& text_view(draft.install_path) == text_view(payload.install_path)
    &&& draft.auto_start == payload.auto_start
    &&& draft.config is Some <==> payload.config is Some
    &&& draft.secrets is Some <==> payload.secrets is Some
    &&& draft.secrets matches Some(token) ==> exists|text: Seq<char>| #[trigger]
        seals(cipher_key, token@, text)
}

impl ConfigService {
    /// The catalog of MCP servers.
    pub fn catalog(&self) -> (r: &McpCatalog)
        ensures
            r@ == self@.catalog,
    {
        &self.catalog
    }

    /// The sources of the catalog: by priority, then by name without case.
    pub fn list_mcp_sources(&self) -> (r: Result<Vec<McpSource>, ConfigError>)
        ensures
            r matches Ok(list) && source_views(list@) == self@.catalog.source_listing(),
    {
        Ok(self.catalog.list_sources())
    }

    /// Upserts a source under its slug and gives its row. Fails, and changes
    /// nothing, only where the slug is new and the ids are used up.
    pub fn upsert_mcp_source(&mut self, payload: McpSourceUpsert, now: &str) -> (r: Result<
        McpSource,
        ConfigError,
    >)
        requires
            old(self).wf(),
        ensures
            final(self).wf(),
            final(self).cipher_key() == old(self).cipher_key(),
            final(self).files() == old(self).files(),
            match r {
                Ok(row) => {
                    let at = old(self)@.catalog.source_position(payload.slug@);
                    &&& final(self)@ == (StoreView {
                        catalog: old(self)@.catalog.with_source(payload, now@),
                        ..old(self)@
                    })
                    &&& 0 <= at < final(self)@.catalog.sources.len()
                    &&& row@ == final(self)@.catalog.sources[at]
                },
                Err(e) => {
                    &&& old(self)@.catalog.source_position(payload.slug@)
                        >= old(self)@.catalog.sources.len()
                    &&& old(self)@.catalog.next_source_id >= i64::MAX
                    &&& e.is_database("mcp ids are used up"@)
                    &&& final(self)@ == old(self)@
                },
            },
    {
        self.catalog.upsert_source(payload, now)
    }

    /// Deletes the source under `slug`, if there is one. Always succeeds.
    pub fn delete_mcp_source(&mut self, slug: &str) -> (r: Result<(), ConfigError>)
        requires
            old(self).wf(),
        ensures
            final(self).wf(),
            final(self).cipher_key() == old(self).cipher_key(),
            final(self).files() == old(self).files(),
            r is Ok,
            final(self)@ == (StoreView {
                catalog: old(self)@.catalog.without_source(slug@),
                ..old(self)@
            }),
    {
        self.catalog.delete_source(slug);
        Ok(())
    }

    /// The registry: by name without case, then the greater version first.
    pub fn list_mcp_registry(&self) -> (r: Result<Vec<McpRegistryEntry>, ConfigError>)
        ensures
            r matches Ok(list) && entry_views(list@) == self@.catalog.entry_listing(),
    {
        Ok(self.catalog.list_registry())
    }

    /// Upserts a registry entry, written as `draft`, under its slug and
    /// version and gives its row. Fails, and changes nothing, only where the
    /// key is new and the ids are used up.
    pub fn upsert_mcp_registry_draft(&mut self, draft: EntryDraft, now: &str) -> (r: Result<
        McpRegistryEntry,
        ConfigError,
    >)
        requires
            old(self).wf(),
        ensures
            final(self).wf(),
            final(self).cipher_key() == old(self).cipher_key(),
            final(self).files() == old(self).files(),
            match r {
                Ok(row) => {
                    let at = old(self)@.catalog.entry_position(draft.slug@, draft.version@);
                    &&& final(self)@ == (StoreView {
                        catalog: old(self)@.catalog.with_entry(draft, now@),
                        ..old(self)@
                    })
                    &&& 0 <= at < final(self)@.catalog.registry.len()
                    &&& row@ == final(self)@.catalog.registry[at]
                },
                Err(e) => {
                    &&& old(self)@.catalog.entry_position(draft.slug@, draft.version@)
                        >= old(self)@.catalog.registry.len()
                    &&& old(self)@.catalog.next_entry_id >= i64::MAX
                    &&& e.is_database("mcp ids are used up"@)
                    &&& final(self)@ == old(self)@
                },
            },
    {
        self.catalog.upsert_entry(draft, now)
    }

    /// Upserts a registry entry under its slug and version and gives its
    /// row: the tags are joined by commas and the manifest is kept as its
    /// JSON text. A failure is a refusal of the store, and changes nothing.
    pub fn upsert_mcp_registry_entry(&mut self, payload: McpRegistryUpsert, now: &str) -> (r:
        Result<McpRegistryEntry, ConfigError>)
        requires
            old(self).wf(),
        ensures
            final(self).wf(),
            final(self).cipher_key() == old(self).cipher_key(),
            final(self).files() == old(self).files(),
            match r {
                Ok(row) => {
                    let at = old(self)@.catalog.entry_position(payload.slug@, payload.version@);
                    &&& exists|draft: EntryDraft|
                        #[trigger] drafts_entry(draft, payload) && final(self)@ == (StoreView {
                            catalog: old(self)@.catalog.with_entry(draft, now@),
                            ..old(self)@
                        })
                    &&& 0 <= at < final(self)@.catalog.registry.len()
                    &&& row@ == final(self)@.catalog.registry[at]
                },
                Err(e) => e is Database && final(self)@ == old(self)@,
            },
    {
        let draft = match draft_entry(payload) {
            Ok(draft) => draft,
            Err(e) => {
                return Err(e);
            },
        };
        let r = self.upsert_mcp_registry_draft(draft, now);
        r
    }

    /// The servers of the catalog, without their secrets: by name without
    /// case.
    pub fn list_mcp_servers(&self) -> (r: Result<Vec<McpServerSummary>, ConfigError>)
        ensures
            r matches Ok(list) && server_summary_views(list@) == self@.catalog.server_listing(),
    {
        Ok(self.catalog.list_servers())
    }

    /// What a server payload is written as: the configuration as its JSON
    /// text, the secrets as a sealing of theirs. Fails where a value has no
    /// text or the secrets cannot be sealed.
    pub fn draft_mcp_server(&self, payload: McpServerUpsert) -> (r: Result<ServerDraft, ConfigError>)
        ensures
            match r {
                Ok(draft) => drafts_server(draft, payload, self.cipher_key()),
                Err(e) => (payload.config is Some || payload.secrets is Some) && (e is Database
                    || e is Encryption),
            },
    {
        let config = match optional_json_text(&payload.config) {
            Ok(text) => text,
            Err(e) => {
                return Err(e);
            },
        };
        let secrets = match optional_json_text(&payload.secrets) {
            Ok(text) => text,
            Err(e) => {
                return Err(e);
            },
        };
        let ghost mut sealed_text: Seq<char> = Seq::empty();
        let sealed = match secrets {
            Some(text) => match self.crypto.encrypt(text.as_str()) {
                Ok(token) => {
                    proof {
                        sealed_text = text@;
                    }
                    Some(token)
                },
                Err(e) => {
                    return Err(e);
                },
            },
            None => None,
        };
        let draft = ServerDraft {
            slug: payload.slug,
            name: payload.name,
            installed_version: payload.installed_version,
            status: payload.status,
            install_path: payload.install_path,
            auto_start: payload.auto_start,
            config,
            secrets: sealed,
        };
        proof {
            if draft.secrets is Some {
                assert(seals(self.cipher_key(), draft.secrets->0@, sealed_text));
            }
        }
        Ok(draft)
    }

    /// Upserts a server, written as `draft`, under its slug and gives what a
    /// listing shows of it. Fails, and changes nothing, only where the slug
    /// is new and the ids are used up.
    pub fn upsert_mcp_server_draft(&mut self, draft: ServerDraft, now: &str) -> (r: Result<
        McpServerSummary,
        ConfigError,
    >)
        requires
            old(self).wf(),
        ensures
            final(self).wf(),
            final(self).cipher_key() == old(self).cipher_key(),
            final(self).files() == old(self).files(),
            match r {
                Ok(row) => {
                    let at = old(self)@.catalog.server_position(draft.slug@);
                    &&& final(self)@ == (StoreView {
                        catalog: old(self)@.catalog.with_server(draft, now@),
                        ..old(self)@
                    })
                    &&& 0 <= at < final(self)@.catalog.servers.len()
                    &&& row@ == final(self)@.catalog.servers[at].summary
                },
                Err(e) => {
                    &&& old(self)@.catalog.server_position(draft.slug@)
                        >= old(self)@.catalog.servers.len()
                    &&& old(self)@.catalog.next_server_id >= i64::MAX
                    &&& e.is_database("mcp ids are used up"@)
                    &&& final(self)@ == old(self)@
                },
            },
    {
        self.catalog.upsert_server(draft, now)
    }

    /// Upserts a server under its slug and gives what a listing shows of it.
    /// The configuration is kept as its JSON text; secrets are sealed, and
    /// where the payload has none the secrets of the row stay. A failure
    /// changes nothing.
    pub fn upsert_mcp_server(&mut self, payload: McpServerUpsert, now: &str) -> (r: Result<
        McpServerSummary,
        ConfigError,
    >)
        requires
            old(self).wf(),
        ensures
            final(self).wf(),
            final(self).cipher_key() == old(self).cipher_key(),
            final(self).files() == old(self).files(),
            match r {
                Ok(row) => {
                    let at = old(self)@.catalog.server_position(payload.slug@);
                    &&& exists|draft: ServerDraft|
                        #[trigger] drafts_server(draft, payload, old(self).cipher_key()) && final(self)@ == (StoreView {
                            catalog: old(self)@.catalog.with_server(draft, now@),
                            ..old(self)@
                        })
                    &&& 0 <= at < final(self)@.catalog.servers.len()
                    &&& row@ == final(self)@.catalog.servers[at].summary
                },
                Err(e) => (e is Database || e is Encryption) && final(self)@ == old(self)@,
            },
    {
        let draft = match self.draft_mcp_server(payload) {
            Ok(draft) => draft,
            Err(e) => {
                return Err(e);
            },
        };
        let r = self.upsert_mcp_server_draft(draft, now);
        r
    }

    /// Deletes the server under `slug`, if there is one. Always succeeds.
    pub fn delete_mcp_server(&mut self, slug: &str) -> (r: Result<(), ConfigError>)
        requires
            old(self).wf(),
        ensures
            final(self).wf(),
            final(self).cipher_key() == old(self).cipher_key(),
            final(self).files() == old(self).files(),
            r is Ok,
            final(self)@ == (StoreView {
                catalog: old(self)@.catalog.without_server(slug@),
                ..old(self)@
            }),
    {
        self.catalog.delete_server(slug);
        Ok(())
    }

    /// Notes the status of the server under `slug` as of a health check at
    /// `now`, and gives what a listing shows of it. Fails, and changes
    /// nothing, where there is no such server.
    pub fn update_mcp_server_status(&mut self, slug: &str, status: &str, now: &str) -> (r: Result<
        McpServerSummary,
        ConfigError,
    >)
        requires
            old(self).wf(),
        ensures
            final(self).wf(),
            final(self).cipher_key() == old(self).cipher_key(),
            final(self).files() == old(self).files(),
            final(self)@ == (StoreView {
                catalog: old(self)@.catalog.with_server_status(slug@, status@, now@),
                ..old(self)@
            }),
            match r {
                Ok(row) => {
                    let at = old(self)@.catalog.server_position(slug@);
                    &&& 0 <= at < old(self)@.catalog.servers.len()
                    &&& row@ == final(self)@.catalog.servers[at].summary
                },
                Err(e) => {
                    &&& old(self)@.catalog.server_position(slug@)
                        >= old(self)@.catalog.servers.len()
                    &&& e.is_database(row_not_found())
                },
            },
    {
        self.catalog.update_server_status(slug, status, now)
    }
}

} // verus!
