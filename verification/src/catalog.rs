//! The catalog of MCP servers: the sources that registries are synced
//! from, the registry entries, and the servers that are installed.

use vstd::prelude::*;
use vstd::string::StringExecFns;

use crate::error::row_not_found;
use crate::error::ConfigError;
use crate::lookup::lemma_position_found;
use crate::lookup::lemma_position_where;
use crate::lookup::position_where;
use crate::records::copy_text;
use crate::records::text_view;
use crate::sorting::is_ranking;
use crate::sorting::lemma_insert_position_found;
use crate::sorting::lemma_sorted_by_push;
use crate::sorting::sorted_by;
use crate::text::lemma_nocase_order;
use crate::text::lemma_text_order;
use crate::text::same_nocase;
use crate::text::same_text;
use crate::text::text_before;
use crate::text::text_before_nocase;
use crate::text::text_precedes;
use crate::text::text_precedes_nocase;

verus! {

/// `serde_json::Value`: a JSON value as the interface hands it in. Carried
/// through to its serialisation, never looked into.
#[verifier::external_type_specification]
#[verifier::external_body]
pub struct ExJsonValue(serde_json::Value);

/// `serde_json::Error`: why a JSON value has no text. Carried through, never
/// looked into.
#[verifier::external_type_specification]
#[verifier::external_body]
pub struct ExJsonError(serde_json::Error);

/// Calls `serde_json::to_string` on a JSON value: its text, or the error of
/// the crate. Nothing is claimed of the text.
#[verifier::external_body]
fn json_text(value: &serde_json::Value) -> Result<String, serde_json::Error> {
    serde_json::to_string(value)
}

/// The words of a `serde_json::Error`, as its `Display` gives them.
#[verifier::external_body]
fn describe_json_error(error: &serde_json::Error) -> String {
    format!("{}", error)
}

/// The kind of a source that names none.
pub open spec fn default_kind() -> Seq<char> {
    "custom"@
}

/// The priority of a source that names none.
pub const DEFAULT_PRIORITY: i64 = 100;

/// The status of a server that names none.
pub open spec fn default_status() -> Seq<char> {
    "stopped"@
}

/// A source of registry entries.
#[derive(Debug)]
pub struct McpSource {
    pub id: i64,
    pub slug: String,
    pub name: String,
    pub kind: String,
    pub endpoint: Option<String>,
    pub priority: i64,
    pub last_synced_at: Option<String>,
    pub created_at: String,
    pub updated_at: String,
}

/// The view of an `McpSource`.
pub struct SourceView {
    pub id: int,
    pub slug: Seq<char>,
    pub name: Seq<char>,
    pub kind: Seq<char>,
    pub endpoint: Option<Seq<char>>,
    pub priority: int,
    pub last_synced_at: Option<Seq<char>>,
    pub created_at: Seq<char>,
    pub updated_at: Seq<char>,
}

impl View for McpSource {
    type V = SourceView;

    open spec fn view(&self) -> SourceView {
        SourceView {
            id: self.id as int,
            slug: self.slug@,
            name: self.name@,
            kind: self.kind@,
            endpoint: text_view(self.endpoint),
            priority: self.priority as int,
            last_synced_at: text_view(self.last_synced_at),
            created_at: self.created_at@,
            updated_at: self.updated_at@,
        }
    }
}

impl McpSource {
    /// A copy of this row.
    pub fn duplicate(&self) -> (r: Self)
        ensures
            r == *self,
    {
        McpSource {
            id: self.id,
            slug: self.slug.clone(),
            name: self.name.clone(),
            kind: self.kind.clone(),
            endpoint: copy_text(&self.endpoint),
            priority: self.priority,
            last_synced_at: copy_text(&self.last_synced_at),
            created_at: self.created_at.clone(),
            updated_at: self.updated_at.clone(),
        }
    }
}

/// What an upsert of a source is given.
#[derive(Debug)]
pub struct McpSourceUpsert {
    pub slug: String,
    pub name: String,
    pub kind: Option<String>,
    pub endpoint: Option<String>,
    pub priority: Option<i64>,
}

/// One version of one server in the registry.
#[derive(Debug)]
pub struct McpRegistryEntry {
    pub id: i64,
    pub slug: String,
    pub name: String,
    pub version: String,
    pub summary: Option<String>,
    pub author: Option<String>,
    pub homepage: Option<String>,
    pub tags: Option<String>,
    pub manifest: String,
    pub checksum: Option<String>,
    pub source_slug: Option<String>,
    pub synced_at: Option<String>,
    pub created_at: String,
    pub updated_at: String,
}

/// The view of an `McpRegistryEntry`.
pub struct EntryView {
    pub id: int,
    pub slug: Seq<char>,
    pub name: Seq<char>,
    pub version: Seq<char>,
    pub summary: Option<Seq<char>>,
    pub author: Option<Seq<char>>,
    pub homepage: Option<Seq<char>>,
    pub tags: Option<Seq<char>>,
    pub manifest: Seq<char>,
    pub checksum: Option<Seq<char>>,
    pub source_slug: Option<Seq<char>>,
    pub synced_at: Option<Seq<char>>,
    pub created_at: Seq<char>,
    pub updated_at: Seq<char>,
}

impl View for McpRegistryEntry {
    type V = EntryView;

    open spec fn view(&self) -> EntryView {
        EntryView {
            id: self.id as int,
            slug: self.slug@,
            name: self.name@,
            version: self.version@,
            summary: text_view(self.summary),
            author: text_view(self.author),
            homepage: text_view(self.homepage),
            tags: text_view(self.tags),
            manifest: self.manifest@,
            checksum: text_view(self.checksum),
            source_slug: text_view(self.source_slug),
            synced_at: text_view(self.synced_at),
            created_at: self.created_at@,
            updated_at: self.updated_at@,
        }
    }
}

impl McpRegistryEntry {
    /// A copy of this row.
    pub fn duplicate(&self) -> (r: Self)
        ensures
            r == *self,
    {
        McpRegistryEntry {
            id: self.id,
            slug: self.slug.clone(),
            name: self.name.clone(),
            version: self.version.clone(),
            summary: copy_text(&self.summary),
            author: copy_text(&self.author),
            homepage: copy_text(&self.homepage),
            tags: copy_text(&self.tags),
            manifest: self.manifest.clone(),
            checksum: copy_text(&self.checksum),
            source_slug: copy_text(&self.source_slug),
            synced_at: copy_text(&self.synced_at),
            created_at: self.created_at.clone(),
            updated_at: self.updated_at.clone(),
        }
    }
}

/// What an upsert of a registry entry is given: the manifest as a JSON
/// value, the tags one by one.
#[derive(Debug)]
pub struct McpRegistryUpsert {
    pub slug: String,
    pub name: String,
    pub version: String,
    pub summary: Option<String>,
    pub author: Option<String>,
    pub homepage: Option<String>,
    pub tags: Option<Vec<String>>,
    pub manifest: serde_json::Value,
    pub checksum: Option<String>,
    pub source_slug: Option<String>,
}

/// What a listing shows of an installed server: all but its secrets.
#[derive(Debug)]
pub struct McpServerSummary {
    pub id: i64,
    pub slug: String,
    pub name: String,
    pub installed_version: Option<String>,
    pub status: String,
    pub install_path: Option<String>,
    pub auto_start: bool,
    pub config: Option<String>,
    pub last_health_check: Option<String>,
    pub created_at: String,
    pub updated_at: String,
}

/// The view of an `McpServerSummary`.
pub struct ServerSummaryView {
    pub id: int,
    pub slug: Seq<char>,
    pub name: Seq<char>,
    pub installed_version: Option<Seq<char>>,
    pub status: Seq<char>,
    pub install_path: Option<Seq<char>>,
    pub auto_start: bool,
    pub config: Option<Seq<char>>,
    pub last_health_check: Option<Seq<char>>,
    pub created_at: Seq<char>,
    pub updated_at: Seq<char>,
}

impl View for McpServerSummary {
    type V = ServerSummaryView;

    open spec fn view(&self) -> ServerSummaryView {
        ServerSummaryView {
            id: self.id as int,
            slug: self.slug@,
            name: self.name@,
            installed_version: text_view(self.installed_version),
            status: self.status@,
            install_path: text_view(self.install_path),
            auto_start: self.auto_start,
            config: text_view(self.config),
            last_health_check: text_view(self.last_health_check),
            created_at: self.created_at@,
            updated_at: self.updated_at@,
        }
    }
}

impl McpServerSummary {
    /// A copy of this summary.
    pub fn duplicate(&self) -> (r: Self)
        ensures
            r == *self,
    {
        McpServerSummary {
            id: self.id,
            slug: self.slug.clone(),
            name: self.name.clone(),
            installed_version: copy_text(&self.installed_version),
            status: self.status.clone(),
            install_path: copy_text(&self.install_path),
            auto_start: self.auto_start,
            config: copy_text(&self.config),
            last_health_check: copy_text(&self.last_health_check),
            created_at: self.created_at.clone(),
            updated_at: self.updated_at.clone(),
        }
    }
}

/// An installed server as it is stored: what a listing shows, and its
/// secrets as a sealed token.
#[derive(Debug)]
pub struct McpServerRecord {
    pub summary: McpServerSummary,
    pub secrets: Option<String>,
}

/// The view of an `McpServerRecord`.
pub struct ServerView {
    pub summary: ServerSummaryView,
    pub secrets: Option<Seq<char>>,
}

impl View for McpServerRecord {
    type V = ServerView;

    open spec fn view(&self) -> ServerView {
        ServerView { summary: self.summary@, secrets: text_view(self.secrets) }
    }
}

impl McpServerRecord {
    /// A copy of this row.
    pub fn duplicate(&self) -> (r: Self)
        ensures
            r == *self,
    {
        McpServerRecord { summary: self.summary.duplicate(), secrets: copy_text(&self.secrets) }
    }
}

/// What an upsert of a server is given: its configuration and its secrets as
/// JSON values.
#[derive(Debug)]
pub struct McpServerUpsert {
    pub slug: String,
    pub name: String,
    pub installed_version: Option<String>,
    pub status: Option<String>,
    pub install_path: Option<String>,
    pub auto_start: Option<bool>,
    pub config: Option<serde_json::Value>,
    pub secrets: Option<serde_json::Value>,
}

/// What an upsert of a registry entry writes: the manifest as text, the tags
/// joined.
#[derive(Debug)]
pub struct EntryDraft {
    pub slug: String,
    pub name: String,
    pub version: String,
    pub summary: Option<String>,
    pub author: Option<String>,
    pub homepage: Option<String>,
    pub tags: Option<String>,
    pub manifest: String,
    pub checksum: Option<String>,
    pub source_slug: Option<String>,
}

/// What an upsert of a server writes: the configuration as text, the secrets
/// sealed.
#[derive(Debug)]
pub struct ServerDraft {
    pub slug: String,
    pub name: String,
    pub installed_version: Option<String>,
    pub status: Option<String>,
    pub install_path: Option<String>,
    pub auto_start: Option<bool>,
    pub config: Option<String>,
    pub secrets: Option<String>,
}

/// The views of the rows of a table, in order.
pub open spec fn source_views(rows: Seq<McpSource>) -> Seq<SourceView> {
    rows.map_values(|row: McpSource| row@)
}

/// The views of the rows of a table, in order.
pub open spec fn entry_views(rows: Seq<McpRegistryEntry>) -> Seq<EntryView> {
    rows.map_values(|row: McpRegistryEntry| row@)
}

/// The views of the rows of a table, in order.
pub open spec fn server_views(rows: Seq<McpServerRecord>) -> Seq<ServerView> {
    rows.map_values(|row: McpServerRecord| row@)
}

/// The views of the rows of a listing, in order.
pub open spec fn server_summary_views(rows: Seq<McpServerSummary>) -> Seq<ServerSummaryView> {
    rows.map_values(|row: McpServerSummary| row@)
}

/// The sources under `slug`.
pub open spec fn source_with_slug(slug: Seq<char>) -> spec_fn(SourceView) -> bool {
    |row: SourceView| row.slug == slug
}

/// The entries of version `version` under `slug`.
pub open spec fn entry_keyed(slug: Seq<char>, version: Seq<char>) -> spec_fn(EntryView) -> bool {
    |row: EntryView| row.slug == slug && row.version == version
}

/// The servers under `slug`.
pub open spec fn server_with_slug(slug: Seq<char>) -> spec_fn(ServerView) -> bool {
    |row: ServerView| row.summary.slug == slug
}

/// The order of a source listing: by priority, then by name without case.
pub open spec fn source_order() -> spec_fn(SourceView, SourceView) -> bool {
    |x: SourceView, y: SourceView|
        x.priority < y.priority || (x.priority == y.priority && text_before_nocase(x.name, y.name))
}

/// The order of a registry listing: by name without case, then by version,
/// the greater version first.
pub open spec fn entry_order() -> spec_fn(EntryView, EntryView) -> bool {
    |x: EntryView, y: EntryView|
        text_before_nocase(x.name, y.name) || (same_nocase(x.name, y.name) && text_before(
            y.version,
            x.version,
        ))
}

/// The order of a server listing: by name without case.
pub open spec fn server_order() -> spec_fn(ServerSummaryView, ServerSummaryView) -> bool {
    |x: ServerSummaryView, y: ServerSummaryView| text_before_nocase(x.name, y.name)
}

/// The order of a source listing ranks its rows.
pub proof fn lemma_source_order_ranks()
    ensures
        is_ranking(source_order()),
{
    let before = source_order();
    assert forall|x: SourceView| !#[trigger] before(x, x) by {
        lemma_nocase_order(x.name, x.name, x.name);
    }
    assert forall|x: SourceView, y: SourceView, z: SourceView|
        #[trigger] before(x, y) && #[trigger] before(y, z) implies before(x, z) by {
        lemma_nocase_order(x.name, y.name, z.name);
    }
    assert forall|x: SourceView, y: SourceView, z: SourceView|
        !#[trigger] before(x, y) && !#[trigger] before(y, z) implies !before(x, z) by {
        lemma_nocase_order(x.name, y.name, z.name);
    }
}

/// The order of a registry listing ranks its rows.
pub proof fn lemma_entry_order_ranks()
    ensures
        is_ranking(entry_order()),
{
    let before = entry_order();
    assert forall|x: EntryView| !#[trigger] before(x, x) by {
        lemma_nocase_order(x.name, x.name, x.name);
        lemma_text_order(x.version, x.version, x.version);
    }
    assert forall|x: EntryView, y: EntryView, z: EntryView|
        #[trigger] before(x, y) && #[trigger] before(y, z) implies before(x, z) by {
        lemma_nocase_order(x.name, y.name, z.name);
        lemma_text_order(z.version, y.version, x.version);
    }
    assert forall|x: EntryView, y: EntryView, z: EntryView|
        !#[trigger] before(x, y) && !#[trigger] before(y, z) implies !before(x, z) by {
        lemma_nocase_order(x.name, y.name, z.name);
        lemma_text_order(z.version, y.version, x.version);
    }
}

/// The order of a server listing ranks its rows.
pub proof fn lemma_server_order_ranks()
    ensures
        is_ranking(server_order()),
{
    let before = server_order();
    assert forall|x: ServerSummaryView| !#[trigger] before(x, x) by {
        lemma_nocase_order(x.name, x.name, x.name);
    }
    assert forall|x: ServerSummaryView, y: ServerSummaryView, z: ServerSummaryView|
        #[trigger] before(x, y) && #[trigger] before(y, z) implies before(x, z) by {
        lemma_nocase_order(x.name, y.name, z.name);
    }
    assert forall|x: ServerSummaryView, y: ServerSummaryView, z: ServerSummaryView|
        !#[trigger] before(x, y) && !#[trigger] before(y, z) implies !before(x, z) by {
        lemma_nocase_order(x.name, y.name, z.name);
    }
}

/// The listings of the catalog show every row exactly once, each in its
/// order: sources by priority and then by name, entries by name and then the
/// greater version first, servers by name, names without case.
pub proof fn lemma_catalog_listings(catalog: CatalogView)
    ensures
        catalog.source_listing().to_multiset() == catalog.sources.to_multiset(),
        crate::sorting::is_sorted(catalog.source_listing(), source_order()),
        catalog.entry_listing().to_multiset() == catalog.registry.to_multiset(),
        crate::sorting::is_sorted(catalog.entry_listing(), entry_order()),
        catalog.server_listing().to_multiset() == catalog.servers.map_values(
            |row: ServerView| row.summary,
        ).to_multiset(),
        crate::sorting::is_sorted(catalog.server_listing(), server_order()),
{
    lemma_source_order_ranks();
    lemma_entry_order_ranks();
    lemma_server_order_ranks();
    crate::sorting::lemma_sorted_by_is_sorted(catalog.sources, source_order());
    crate::sorting::lemma_sorted_by_permutes(catalog.sources, source_order());
    crate::sorting::lemma_sorted_by_is_sorted(catalog.registry, entry_order());
    crate::sorting::lemma_sorted_by_permutes(catalog.registry, entry_order());
    let summaries = catalog.servers.map_values(|row: ServerView| row.summary);
    crate::sorting::lemma_sorted_by_is_sorted(summaries, server_order());
    crate::sorting::lemma_sorted_by_permutes(summaries, server_order());
}

/// The state of the catalog: its three tables and their next free ids.
pub struct CatalogView {
    pub sources: Seq<SourceView>,
    pub next_source_id: int,
    pub registry: Seq<EntryView>,
    pub next_entry_id: int,
    pub servers: Seq<ServerView>,
    pub next_server_id: int,
}

/// The source that an upsert writes over `old`, or as a new row where there
/// is none: the name and the endpoint as given, the kind and the priority as
/// given or by default.
pub open spec fn source_written(
    old: Option<SourceView>,
    next_id: int,
    slug: Seq<char>,
    name: Seq<char>,
    kind: Option<Seq<char>>,
    endpoint: Option<Seq<char>>,
    priority: Option<i64>,
    now: Seq<char>,
) -> SourceView {
    let kind = match kind {
        Some(k) => k,
        None => default_kind(),
    };
    let priority = match priority {
        Some(p) => p as int,
        None => DEFAULT_PRIORITY as int,
    };
    match old {
        Some(row) => SourceView { name, kind, endpoint, priority, updated_at: now, ..row },
        None => SourceView {
            id: next_id,
            slug,
            name,
            kind,
            endpoint,
            priority,
            last_synced_at: None,
            created_at: now,
            updated_at: now,
        },
    }
}

/// The entry that an upsert writes over `old`, or as a new row where there
/// is none. An entry is synced when it is written.
pub open spec fn entry_written(old: Option<EntryView>, next_id: int, draft: EntryDraft, now: Seq<char>) -> EntryView {
    EntryView {
        id: match old {
            Some(row) => row.id,
            None => next_id,
        },
        slug: draft.slug@,
        name: draft.name@,
        version: draft.version@,
        summary: text_view(draft.summary),
        author: text_view(draft.author),
        homepage: text_view(draft.homepage),
        tags: text_view(draft.tags),
        manifest: draft.manifest@,
        checksum: text_view(draft.checksum),
        source_slug: text_view(draft.source_slug),
        synced_at: Some(now),
        created_at: match old {
            Some(row) => row.created_at,
            None => now,
        },
        updated_at: now,
    }
}

/// The server that an upsert writes over `old`, or as a new row where there
/// is none. The status is as given or "stopped", the start with the system
/// as given or off; secrets that are not given stay as they are.
pub open spec fn server_written(old: Option<ServerView>, next_id: int, draft: ServerDraft, now: Seq<char>) -> ServerView {
    ServerView {
        summary: ServerSummaryView {
            id: match old {
                Some(row) => row.summary.id,
                None => next_id,
            },
            slug: draft.slug@,
            name: draft.name@,
            installed_version: text_view(draft.installed_version),
            status: match draft.status {
                Some(status) => status@,
                None => default_status(),
            },
            install_path: text_view(draft.install_path),
            auto_start: match draft.auto_start {
                Some(flag) => flag,
                None => false,
            },
            config: text_view(draft.config),
            last_health_check: match old {
                Some(row) => row.summary.last_health_check,
                None => None,
            },
            created_at: match old {
                Some(row) => row.summary.created_at,
                None => now,
            },
            updated_at: now,
        },
        secrets: match draft.secrets {
            Some(sealed) => Some(sealed@),
            None => match old {
                Some(row) => row.secrets,
                None => None,
            },
        },
    }
}

/// `row` after its health was checked.
pub open spec fn server_checked(row: ServerView, status: Seq<char>, now: Seq<char>) -> ServerView {
    ServerView {
        summary: ServerSummaryView {
            status,
            last_health_check: Some(now),
            updated_at: now,
            ..row.summary
        },
        ..row
    }
}

/// The row at `at`, if `at` lies within the table.
pub open spec fn row_at<T>(table: Seq<T>, at: int) -> Option<T> {
    if 0 <= at < table.len() {
        Some(table[at])
    } else {
        None
    }
}

/// The table with `row` written at `at`: in place of the row there, or
/// behind the last row where `at` is the length of the table.
pub open spec fn written_at<T>(table: Seq<T>, at: int, row: T) -> Seq<T> {
    if 0 <= at < table.len() {
        table.update(at, row)
    } else {
        table.push(row)
    }
}

/// The table without the row at `at`, where `at` lies within the table.
pub open spec fn removed_at<T>(table: Seq<T>, at: int) -> Seq<T> {
    if 0 <= at < table.len() {
        table.remove(at)
    } else {
        table
    }
}

/// The next free id once a row was written at `at`.
pub open spec fn next_id_after(len: int, at: int, next_id: int) -> int {
    if 0 <= at < len {
        next_id
    } else {
        next_id + 1
    }
}

impl CatalogView {
    /// The catalog with nothing in it.
    pub open spec fn empty() -> CatalogView {
        CatalogView {
            sources: Seq::empty(),
            next_source_id: 1,
            registry: Seq::empty(),
            next_entry_id: 1,
            servers: Seq::empty(),
            next_server_id: 1,
        }
    }

    /// The state is consistent: no two sources share a slug, no two entries
    /// a slug and a version, no two servers a slug.
    pub open spec fn wf(self) -> bool {
        &&& forall|i: int, j: int|
            0 <= i < j < self.sources.len() ==> (#[trigger] self.sources[i]).slug != (
            #[trigger] self.sources[j]).slug
        &&& forall|i: int, j: int|
            0 <= i < j < self.registry.len() ==> !((#[trigger] self.registry[i]).slug == (
            #[trigger] self.registry[j]).slug && self.registry[i].version
                == self.registry[j].version)
        &&& forall|i: int, j: int|
            0 <= i < j < self.servers.len() ==> (#[trigger] self.servers[i]).summary.slug != (
            #[trigger] self.servers[j]).summary.slug
    }

    /// Where the source under `slug` stands.
    pub open spec fn source_position(self, slug: Seq<char>) -> int {
        position_where(self.sources, source_with_slug(slug))
    }

    /// Where the entry of `version` under `slug` stands.
    pub open spec fn entry_position(self, slug: Seq<char>, version: Seq<char>) -> int {
        position_where(self.registry, entry_keyed(slug, version))
    }

    /// Where the server under `slug` stands.
    pub open spec fn server_position(self, slug: Seq<char>) -> int {
        position_where(self.servers, server_with_slug(slug))
    }

    /// The catalog after the upsert of a source.
    pub open spec fn with_source(self, payload: McpSourceUpsert, now: Seq<char>) -> CatalogView {
        let at = self.source_position(payload.slug@);
        CatalogView {
            sources: written_at(
                self.sources,
                at,
                source_written(
                    row_at(self.sources, at),
                    self.next_source_id,
                    payload.slug@,
                    payload.name@,
                    text_view(payload.kind),
                    text_view(payload.endpoint),
                    payload.priority,
                    now,
                ),
            ),
            next_source_id: next_id_after(self.sources.len() as int, at, self.next_source_id),
            ..self
        }
    }

    /// The catalog without the source under `slug`.
    pub open spec fn without_source(self, slug: Seq<char>) -> CatalogView {
        CatalogView { sources: removed_at(self.sources, self.source_position(slug)), ..self }
    }

    /// The catalog after the upsert of a registry entry.
    pub open spec fn with_entry(self, draft: EntryDraft, now: Seq<char>) -> CatalogView {
        let at = self.entry_position(draft.slug@, draft.version@);
        CatalogView {
            registry: written_at(
                self.registry,
                at,
                entry_written(row_at(self.registry, at), self.next_entry_id, draft, now),
            ),
            next_entry_id: next_id_after(self.registry.len() as int, at, self.next_entry_id),
            ..self
        }
    }

    /// The catalog after the upsert of a server.
    pub open spec fn with_server(self, draft: ServerDraft, now: Seq<char>) -> CatalogView {
        let at = self.server_position(draft.slug@);
        CatalogView {
            servers: written_at(
                self.servers,
                at,
                server_written(row_at(self.servers, at), self.next_server_id, draft, now),
            ),
            next_server_id: next_id_after(self.servers.len() as int, at, self.next_server_id),
            ..self
        }
    }

    /// The catalog without the server under `slug`.
    pub open spec fn without_server(self, slug: Seq<char>) -> CatalogView {
        CatalogView { servers: removed_at(self.servers, self.server_position(slug)), ..self }
    }

    /// The catalog after the health of the server under `slug` was checked.
    pub open spec fn with_server_status(self, slug: Seq<char>, status: Seq<char>, now: Seq<char>) -> CatalogView {
        let at = self.server_position(slug);
        if 0 <= at < self.servers.len() {
            CatalogView {
                servers: self.servers.update(at, server_checked(self.servers[at], status, now)),
                ..self
            }
        } else {
            self
        }
    }

    /// The listing of the sources.
    pub open spec fn source_listing(self) -> Seq<SourceView> {
        sorted_by(self.sources, source_order())
    }

    /// The listing of the registry.
    pub open spec fn entry_listing(self) -> Seq<EntryView> {
        sorted_by(self.registry, entry_order())
    }

    /// The listing of the servers.
    pub open spec fn server_listing(self) -> Seq<ServerSummaryView> {
        sorted_by(self.servers.map_values(|row: ServerView| row.summary), server_order())
    }
}

/// The tags of an entry as one text: joined by commas.
pub open spec fn joined(tags: Seq<String>) -> Seq<char>
    decreases tags.len(),
{
    if tags.len() == 0 {
        Seq::empty()
    } else if tags.len() == 1 {
        tags[0]@
    } else {
        joined(tags.drop_last()) + ","@ + tags.last()@
    }
}

/// The tags of an entry as one text.
pub fn join_tags(tags: &Vec<String>) -> (r: String)
    ensures
        r@ == joined(tags@),
{
    let mut out = String::new();
    let mut i: usize = 0;
    while i < tags.len()
        invariant
            i <= tags@.len(),
            out@ == joined(tags@.take(i as int)),
        decreases tags@.len() - i,
    {
        proof {
            assert(tags@.take(i + 1).drop_last() == tags@.take(i as int));
        }
        if i > 0 {
            out.append(",");
        }
        out.append(tags[i].as_str());
        i += 1;
    }
    assert(tags@.take(tags@.len() as int) == tags@);
    out
}

/// The catalog.
pub struct McpCatalog {
    sources: Vec<McpSource>,
    next_source_id: i64,
    registry: Vec<McpRegistryEntry>,
    next_entry_id: i64,
    servers: Vec<McpServerRecord>,
    next_server_id: i64,
}

impl View for McpCatalog {
    type V = CatalogView;

    closed spec fn view(&self) -> CatalogView {
        CatalogView {
            sources: source_views(self.sources@),
            next_source_id: self.next_source_id as int,
            registry: entry_views(self.registry@),
            next_entry_id: self.next_entry_id as int,
            servers: server_views(self.servers@),
            next_server_id: self.next_server_id as int,
        }
    }
}

/// The position of the source under `slug`, or the length of the table.
fn find_source(rows: &Vec<McpSource>, slug: &str) -> (at: usize)
    ensures
        at == position_where(source_views(rows@), source_with_slug(slug@)),
        at <= rows@.len(),
{
    let ghost table = source_views(rows@);
    let mut i: usize = 0;
    while i < rows.len()
        invariant
            i <= rows@.len(),
            table == source_views(rows@),
            forall|j: int| 0 <= j < i ==> !source_with_slug(slug@)(#[trigger] table[j]),
        decreases rows@.len() - i,
    {
        if same_text(rows[i].slug.as_str(), slug) {
            proof {
                lemma_position_found(table, source_with_slug(slug@), i as int);
            }
            return i;
        }
        i += 1;
    }
    proof {
        lemma_position_found(table, source_with_slug(slug@), i as int);
    }
    i
}

/// The position of the entry of `version` under `slug`, or the length of the
/// table.
fn find_entry(rows: &Vec<McpRegistryEntry>, slug: &str, version: &str) -> (at: usize)
    ensures
        at == position_where(entry_views(rows@), entry_keyed(slug@, version@)),
        at <= rows@.len(),
{
    let ghost table = entry_views(rows@);
    let mut i: usize = 0;
    while i < rows.len()
        invariant
            i <= rows@.len(),
            table == entry_views(rows@),
            forall|j: int| 0 <= j < i ==> !entry_keyed(slug@, version@)(#[trigger] table[j]),
        decreases rows@.len() - i,
    {
        if same_text(rows[i].slug.as_str(), slug) && same_text(rows[i].version.as_str(), version) {
            proof {
                lemma_position_found(table, entry_keyed(slug@, version@), i as int);
            }
            return i;
        }
        i += 1;
    }
    proof {
        lemma_position_found(table, entry_keyed(slug@, version@), i as int);
    }
    i
}

/// The position of the server under `slug`, or the length of the table.
fn find_server(rows: &Vec<McpServerRecord>, slug: &str) -> (at: usize)
    ensures
        at == position_where(server_views(rows@), server_with_slug(slug@)),
        at <= rows@.len(),
{
    let ghost table = server_views(rows@);
    let mut i: usize = 0;
    while i < rows.len()
        invariant
            i <= rows@.len(),
            table == server_views(rows@),
            forall|j: int| 0 <= j < i ==> !server_with_slug(slug@)(#[trigger] table[j]),
        decreases rows@.len() - i,
    {
        if same_text(rows[i].summary.slug.as_str(), slug) {
            proof {
                lemma_position_found(table, server_with_slug(slug@), i as int);
            }
            return i;
        }
        i += 1;
    }
    proof {
        lemma_position_found(table, server_with_slug(slug@), i as int);
    }
    i
}

/// Whether `x` is listed strictly ahead of `y`.
fn source_precedes(x: &McpSource, y: &McpSource) -> (r: bool)
    ensures
        r == source_order()(x@, y@),
{
    x.priority < y.priority || (x.priority == y.priority && text_precedes_nocase(
        x.name.as_str(),
        y.name.as_str(),
    ))
}

/// Whether `x` is listed strictly ahead of `y`.
fn entry_precedes(x: &McpRegistryEntry, y: &McpRegistryEntry) -> (r: bool)
    ensures
        r == entry_order()(x@, y@),
{
    proof {
        lemma_nocase_order(x@.name, y@.name, x@.name);
    }
    if text_precedes_nocase(x.name.as_str(), y.name.as_str()) {
        true
    } else if text_precedes_nocase(y.name.as_str(), x.name.as_str()) {
        false
    } else {
        text_precedes(y.version.as_str(), x.version.as_str())
    }
}

impl McpCatalog {
    /// The state is consistent.
    pub open spec fn wf(&self) -> bool {
        self@.wf()
    }

    /// An empty catalog.
    pub fn new() -> (r: Self)
        ensures
            r.wf(),
            r@ == CatalogView::empty(),
    {
        let r = McpCatalog {
            sources: Vec::new(),
            next_source_id: 1,
            registry: Vec::new(),
            next_entry_id: 1,
            servers: Vec::new(),
            next_server_id: 1,
        };
        assert(r@.sources =~= Seq::empty());
        assert(r@.registry =~= Seq::empty());
        assert(r@.servers =~= Seq::empty());
        r
    }

    /// The sources: by priority, then by name without case.
    pub fn list_sources(&self) -> (out: Vec<McpSource>)
        ensures
            source_views(out@) == self@.source_listing(),
    {
        let ghost table = source_views(self.sources@);
        let mut out: Vec<McpSource> = Vec::new();
        let mut i: usize = 0;
        while i < self.sources.len()
            invariant
                i <= self.sources@.len(),
                table == source_views(self.sources@),
                source_views(out@) == sorted_by(table.take(i as int), source_order()),
            decreases self.sources@.len() - i,
        {
            let row = self.sources[i].duplicate();
            let ghost sorted = source_views(out@);
            let mut at: usize = out.len();
            while at > 0 && source_precedes(&row, &out[at - 1])
                invariant
                    at <= out@.len(),
                    sorted == source_views(out@),
                    forall|k: int| at <= k < sorted.len() ==> source_order()(row@, #[trigger] sorted[k]),
                decreases at,
            {
                at -= 1;
            }
            proof {
                lemma_insert_position_found(sorted, row@, source_order(), at as int);
                assert(table.take(i + 1) =~= table.take(i as int).push(row@));
                lemma_sorted_by_push(table.take(i as int), row@, source_order());
            }
            out.insert(at, row);
            i += 1;
        }
        assert(table.take(self.sources@.len() as int) =~= table);
        out
    }

    /// Upserts a source under its slug and gives its row. Fails, and changes
    /// nothing, only where the slug is new and the ids are used up.
    pub fn upsert_source(&mut self, payload: McpSourceUpsert, now: &str) -> (r: Result<
        McpSource,
        ConfigError,
    >)
        requires
            old(self).wf(),
        ensures
            final(self).wf(),
            match r {
                Ok(row) => {
                    let at = old(self)@.source_position(payload.slug@);
                    &&& final(self)@ == old(self)@.with_source(payload, now@)
                    &&& 0 <= at < final(self)@.sources.len()
                    &&& row@ == final(self)@.sources[at]
                },
                Err(e) => {
                    &&& old(self)@.source_position(payload.slug@) >= old(self)@.sources.len()
                    &&& old(self)@.next_source_id >= i64::MAX
                    &&& e.is_database("mcp ids are used up"@)
                    &&& final(self)@ == old(self)@
                },
            },
    {
        let ghost table = self@.sources;
        let at = find_source(&self.sources, payload.slug.as_str());
        proof {
            lemma_position_where(table, source_with_slug(payload.slug@));
        }
        let kind = match payload.kind {
            Some(kind) => kind,
            None => String::from_str("custom"),
        };
        let priority = match payload.priority {
            Some(priority) => priority,
            None => DEFAULT_PRIORITY,
        };
        let row = if at < self.sources.len() {
            let old_row = &self.sources[at];
            McpSource {
                id: old_row.id,
                slug: old_row.slug.clone(),
                name: payload.name,
                kind,
                endpoint: payload.endpoint,
                priority,
                last_synced_at: copy_text(&old_row.last_synced_at),
                created_at: old_row.created_at.clone(),
                updated_at: String::from_str(now),
            }
        } else {
            if self.next_source_id >= i64::MAX {
                return Err(ConfigError::database("mcp ids are used up"));
            }
            McpSource {
                id: self.next_source_id,
                slug: payload.slug,
                name: payload.name,
                kind,
                endpoint: payload.endpoint,
                priority,
                last_synced_at: None,
                created_at: String::from_str(now),
                updated_at: String::from_str(now),
            }
        };
        let shown = row.duplicate();
        if at < self.sources.len() {
            self.sources[at] = row;
            assert(source_views(self.sources@) =~= table.update(at as int, row@));
        } else {
            self.sources.push(row);
            self.next_source_id = self.next_source_id + 1;
            assert(source_views(self.sources@) =~= table.push(row@));
        }
        Ok(shown)
    }

    /// Deletes the source under `slug`, if there is one.
    pub fn delete_source(&mut self, slug: &str)
        requires
            old(self).wf(),
        ensures
            final(self).wf(),
            final(self)@ == old(self)@.without_source(slug@),
    {
        let ghost table = self@.sources;
        let at = find_source(&self.sources, slug);
        if at < self.sources.len() {
            self.sources.remove(at);
            assert(source_views(self.sources@) =~= table.remove(at as int));
        }
    }

    /// The registry: by name without case, then the greater version first.
    pub fn list_registry(&self) -> (out: Vec<McpRegistryEntry>)
        ensures
            entry_views(out@) == self@.entry_listing(),
    {
        let ghost table = entry_views(self.registry@);
        let mut out: Vec<McpRegistryEntry> = Vec::new();
        let mut i: usize = 0;
        while i < self.registry.len()
            invariant
                i <= self.registry@.len(),
                table == entry_views(self.registry@),
                entry_views(out@) == sorted_by(table.take(i as int), entry_order()),
            decreases self.registry@.len() - i,
        {
            let row = self.registry[i].duplicate();
            let ghost sorted = entry_views(out@);
            let mut at: usize = out.len();
            while at > 0 && entry_precedes(&row, &out[at - 1])
                invariant
                    at <= out@.len(),
                    sorted == entry_views(out@),
                    forall|k: int| at <= k < sorted.len() ==> entry_order()(row@, #[trigger] sorted[k]),
                decreases at,
            {
                at -= 1;
            }
            proof {
                lemma_insert_position_found(sorted, row@, entry_order(), at as int);
                assert(table.take(i + 1) =~= table.take(i as int).push(row@));
                lemma_sorted_by_push(table.take(i as int), row@, entry_order());
            }
            out.insert(at, row);
            i += 1;
        }
        assert(table.take(self.registry@.len() as int) =~= table);
        out
    }

    /// Upserts a registry entry under its slug and version and gives its row.
    /// Fails, and changes nothing, only where the key is new and the ids are
    /// used up.
    pub fn upsert_entry(&mut self, draft: EntryDraft, now: &str) -> (r: Result<
        McpRegistryEntry,
        ConfigError,
    >)
        requires
            old(self).wf(),
        ensures
            final(self).wf(),
            match r {
                Ok(row) => {
                    let at = old(self)@.entry_position(draft.slug@, draft.version@);
                    &&& final(self)@ == old(self)@.with_entry(draft, now@)
                    &&& 0 <= at < final(self)@.registry.len()
                    &&& row@ == final(self)@.registry[at]
                },
                Err(e) => {
                    &&& old(self)@.entry_position(draft.slug@, draft.version@)
                        >= old(self)@.registry.len()
                    &&& old(self)@.next_entry_id >= i64::MAX
                    &&& e.is_database("mcp ids are used up"@)
                    &&& final(self)@ == old(self)@
                },
            },
    {
        let ghost table = self@.registry;
        let at = find_entry(&self.registry, draft.slug.as_str(), draft.version.as_str());
        proof {
            lemma_position_where(table, entry_keyed(draft.slug@, draft.version@));
        }
        let (id, created_at) = if at < self.registry.len() {
            let old_row = &self.registry[at];
            (old_row.id, old_row.created_at.clone())
        } else {
            if self.next_entry_id >= i64::MAX {
                return Err(ConfigError::database("mcp ids are used up"));
            }
            (self.next_entry_id, String::from_str(now))
        };
        let row = McpRegistryEntry {
            id,
            slug: draft.slug,
            name: draft.name,
            version: draft.version,
            summary: draft.summary,
            author: draft.author,
            homepage: draft.homepage,
            tags: draft.tags,
            manifest: draft.manifest,
            checksum: draft.checksum,
            source_slug: draft.source_slug,
            synced_at: Some(String::from_str(now)),
            created_at,
            updated_at: String::from_str(now),
        };
        let shown = row.duplicate();
        if at < self.registry.len() {
            self.registry[at] = row;
            assert(entry_views(self.registry@) =~= table.update(at as int, row@));
        } else {
            self.registry.push(row);
            self.next_entry_id = self.next_entry_id + 1;
            assert(entry_views(self.registry@) =~= table.push(row@));
        }
        Ok(shown)
    }

    /// The servers, without their secrets: by name without case.
    pub fn list_servers(&self) -> (out: Vec<McpServerSummary>)
        ensures
            server_summary_views(out@) == self@.server_listing(),
    {
        let ghost table = server_views(self.servers@).map_values(|row: ServerView| row.summary);
        let mut out: Vec<McpServerSummary> = Vec::new();
        let mut i: usize = 0;
        while i < self.servers.len()
            invariant
                i <= self.servers@.len(),
                table == server_views(self.servers@).map_values(|row: ServerView| row.summary),
                server_summary_views(out@) == sorted_by(table.take(i as int), server_order()),
            decreases self.servers@.len() - i,
        {
            let row = self.servers[i].summary.duplicate();
            let ghost sorted = server_summary_views(out@);
            let mut at: usize = out.len();
            while at > 0 && text_precedes_nocase(row.name.as_str(), out[at - 1].name.as_str())
                invariant
                    at <= out@.len(),
                    sorted == server_summary_views(out@),
                    forall|k: int| at <= k < sorted.len() ==> server_order()(row@, #[trigger] sorted[k]),
                decreases at,
            {
                at -= 1;
            }
            proof {
                lemma_insert_position_found(sorted, row@, server_order(), at as int);
                assert(table.take(i + 1) =~= table.take(i as int).push(row@));
                lemma_sorted_by_push(table.take(i as int), row@, server_order());
            }
            out.insert(at, row);
            i += 1;
        }
        assert(table.take(self.servers@.len() as int) =~= table);
        out
    }

    /// Upserts a server under its slug and gives what a listing shows of it.
    /// Fails, and changes nothing, only where the slug is new and the ids
    /// are used up.
    pub fn upsert_server(&mut self, draft: ServerDraft, now: &str) -> (r: Result<
        McpServerSummary,
        ConfigError,
    >)
        requires
            old(self).wf(),
        ensures
            final(self).wf(),
            match r {
                Ok(row) => {
                    let at = old(self)@.server_position(draft.slug@);
                    &&& final(self)@ == old(self)@.with_server(draft, now@)
                    &&& 0 <= at < final(self)@.servers.len()
                    &&& row@ == final(self)@.servers[at].summary
                },
                Err(e) => {
                    &&& old(self)@.server_position(draft.slug@) >= old(self)@.servers.len()
                    &&& old(self)@.next_server_id >= i64::MAX
                    &&& e.is_database("mcp ids are used up"@)
                    &&& final(self)@ == old(self)@
                },
            },
    {
        let ghost table = self@.servers;
        let at = find_server(&self.servers, draft.slug.as_str());
        proof {
            lemma_position_where(table, server_with_slug(draft.slug@));
        }
        let (id, created_at, last_health_check, kept_secrets) = if at < self.servers.len() {
            let old_row = &self.servers[at];
            (
                old_row.summary.id,
                old_row.summary.created_at.clone(),
                copy_text(&old_row.summary.last_health_check),
                copy_text(&old_row.secrets),
            )
        } else {
            if self.next_server_id >= i64::MAX {
                return Err(ConfigError::database("mcp ids are used up"));
            }
            (self.next_server_id, String::from_str(now), None, None)
        };
        let row = McpServerRecord {
            summary: McpServerSummary {
                id,
                slug: draft.slug,
                name: draft.name,
                installed_version: draft.installed_version,
                status: match draft.status {
                    Some(status) => status,
                    None => String::from_str("stopped"),
                },
                install_path: draft.install_path,
                auto_start: match draft.auto_start {
                    Some(flag) => flag,
                    None => false,
                },
                config: draft.config,
                last_health_check,
                created_at,
                updated_at: String::from_str(now),
            },
            secrets: match draft.secrets {
                Some(sealed) => Some(sealed),
                None => kept_secrets,
            },
        };
        let shown = row.summary.duplicate();
        if at < self.servers.len() {
            self.servers[at] = row;
            assert(server_views(self.servers@) =~= table.update(at as int, row@));
        } else {
            self.servers.push(row);
            self.next_server_id = self.next_server_id + 1;
            assert(server_views(self.servers@) =~= table.push(row@));
        }
        Ok(shown)
    }

    /// Deletes the server under `slug`, if there is one.
    pub fn delete_server(&mut self, slug: &str)
        requires
            old(self).wf(),
        ensures
            final(self).wf(),
            final(self)@ == old(self)@.without_server(slug@),
    {
        let ghost table = self@.servers;
        let at = find_server(&self.servers, slug);
        if at < self.servers.len() {
            self.servers.remove(at);
            assert(server_views(self.servers@) =~= table.remove(at as int));
        }
    }

    /// Notes the status of the server under `slug` as of a health check at
    /// `now`, and gives what a listing shows of it. Fails, and changes
    /// nothing, where there is no such server.
    pub fn update_server_status(&mut self, slug: &str, status: &str, now: &str) -> (r: Result<
        McpServerSummary,
        ConfigError,
    >)
        requires
            old(self).wf(),
        ensures
            final(self).wf(),
            final(self)@ == old(self)@.with_server_status(slug@, status@, now@),
            match r {
                Ok(row) => {
                    let at = old(self)@.server_position(slug@);
                    &&& 0 <= at < old(self)@.servers.len()
                    &&& row@ == final(self)@.servers[at].summary
                },
                Err(e) => {
                    &&& old(self)@.server_position(slug@) >= old(self)@.servers.len()
                    &&& e.is_database(row_not_found())
                },
            },
    {
        let ghost table = self@.servers;
        let at = find_server(&self.servers, slug);
        proof {
            lemma_position_where(table, server_with_slug(slug@));
        }
        if at >= self.servers.len() {
            return Err(ConfigError::row_not_found());
        }
        let mut row = self.servers[at].duplicate();
        row.summary.status = String::from_str(status);
        row.summary.last_health_check = Some(String::from_str(now));
        row.summary.updated_at = String::from_str(now);
        let shown = row.summary.duplicate();
        self.servers[at] = row;
        assert(server_views(self.servers@) =~= table.update(at as int, row@));
        Ok(shown)
    }
}

/// Whether `draft` is what a registry payload is written as: its fields as
/// given, its tags joined by commas. The text of the manifest is whatever
/// the JSON value serialises to.
pub open spec fn drafts_entry(draft: EntryDraft, payload: McpRegistryUpsert) -> bool {
    &&& draft.slug@ == payload.slug@
    &&& draft.name@ == payload.name@
    &&& draft.version@ == payload.version@
    &&& text_view(draft.summary) == text_view(payload.summary)
    &&& text_view(draft.author) == text_view(payload.author)
    &&& text_view(draft.homepage) == text_view(payload.homepage)
    &&& text_view(draft.tags) == match payload.tags {
        Some(tags) => Some(joined(tags@)),
        None => None,
    }
    &&& text_view(draft.checksum) == text_view(payload.checksum)
    &&& text_view(draft.source_slug) == text_view(payload.source_slug)
}

/// What a registry payload is written as. Fails with the words of the
/// serialiser where the manifest has no text.
pub fn draft_entry(payload: McpRegistryUpsert) -> (r: Result<EntryDraft, ConfigError>)
    ensures
        match r {
            Ok(draft) => drafts_entry(draft, payload),
            Err(e) => e is Database,
        },
{
    let manifest = match json_text(&payload.manifest) {
        Ok(text) => text,
        Err(error) => {
            return Err(ConfigError::Database(describe_json_error(&error)));
        },
    };
    let tags = match &payload.tags {
        Some(items) => Some(join_tags(items)),
        None => None,
    };
    Ok(
        EntryDraft {
            slug: payload.slug,
            name: payload.name,
            version: payload.version,
            summary: payload.summary,
            author: payload.author,
            homepage: payload.homepage,
            tags,
            manifest,
            checksum: payload.checksum,
            source_slug: payload.source_slug,
        },
    )
}

/// The text of an optional JSON value. Fails with the words of the
/// serialiser where a value has no text.
pub fn optional_json_text(value: &Option<serde_json::Value>) -> (r: Result<
    Option<String>,
    ConfigError,
>)
    ensures
        match r {
            Ok(text) => text is Some <==> value is Some,
            Err(e) => value is Some && e is Database,
        },
{
    match value {
        Some(json) => match json_text(json) {
            Ok(text) => Ok(Some(text)),
            Err(error) => Err(ConfigError::Database(describe_json_error(&error))),
        },
        None => Ok(None),
    }
}

/// The rows of a catalog, as they are saved and loaded.
#[derive(Debug)]
pub struct CatalogSnapshot {
    pub sources: Vec<McpSource>,
    pub next_source_id: i64,
    pub registry: Vec<McpRegistryEntry>,
    pub next_entry_id: i64,
    pub servers: Vec<McpServerRecord>,
    pub next_server_id: i64,
}

impl View for CatalogSnapshot {
    type V = CatalogView;

    open spec fn view(&self) -> CatalogView {
        CatalogView {
            sources: source_views(self.sources@),
            next_source_id: self.next_source_id as int,
            registry: entry_views(self.registry@),
            next_entry_id: self.next_entry_id as int,
            servers: server_views(self.servers@),
            next_server_id: self.next_server_id as int,
        }
    }
}

/// Whether the rows of the three tables are consistent.
fn tables_are_consistent(
    sources_rows: &Vec<McpSource>,
    registry_rows: &Vec<McpRegistryEntry>,
    servers_rows: &Vec<McpServerRecord>,
) -> (r: bool)
    ensures
        r == (CatalogView {
            sources: source_views(sources_rows@),
            next_source_id: 1,
            registry: entry_views(registry_rows@),
            next_entry_id: 1,
            servers: server_views(servers_rows@),
            next_server_id: 1,
        }).wf(),
{
    let ghost sources = source_views(sources_rows@);
    let ghost registry = entry_views(registry_rows@);
    let ghost servers = server_views(servers_rows@);
    let mut j: usize = 0;
    while j < sources_rows.len()
        invariant
            j <= sources_rows@.len(),
            sources == source_views(sources_rows@),
            forall|a: int, b: int|
                0 <= a < b < j ==> (#[trigger] sources[a]).slug != (#[trigger] sources[b]).slug,
        decreases sources_rows@.len() - j,
    {
        let mut i: usize = 0;
        while i < j
            invariant
                i <= j < sources_rows@.len(),
                sources == source_views(sources_rows@),
                forall|a: int| 0 <= a < i ==> (#[trigger] sources[a]).slug != sources[j as int].slug,
            decreases j - i,
        {
            if same_text(sources_rows[i].slug.as_str(), sources_rows[j].slug.as_str()) {
                assert(sources[i as int].slug == sources[j as int].slug);
                return false;
            }
            i += 1;
        }
        j += 1;
    }
    let mut j: usize = 0;
    while j < registry_rows.len()
        invariant
            j <= registry_rows@.len(),
            registry == entry_views(registry_rows@),
            forall|a: int, b: int|
                0 <= a < b < j ==> !((#[trigger] registry[a]).slug == (#[trigger] registry[b]).slug
                    && registry[a].version == registry[b].version),
        decreases registry_rows@.len() - j,
    {
        let mut i: usize = 0;
        while i < j
            invariant
                i <= j < registry_rows@.len(),
                registry == entry_views(registry_rows@),
                forall|a: int|
                    0 <= a < i ==> !((#[trigger] registry[a]).slug == registry[j as int].slug
                        && registry[a].version == registry[j as int].version),
            decreases j - i,
        {
            if same_text(registry_rows[i].slug.as_str(), registry_rows[j].slug.as_str())
                && same_text(
                registry_rows[i].version.as_str(),
                registry_rows[j].version.as_str(),
            ) {
                assert(registry[i as int].slug == registry[j as int].slug
                    && registry[i as int].version == registry[j as int].version);
                return false;
            }
            i += 1;
        }
        j += 1;
    }
    let mut j: usize = 0;
    while j < servers_rows.len()
        invariant
            j <= servers_rows@.len(),
            servers == server_views(servers_rows@),
            forall|a: int, b: int|
                0 <= a < b < j ==> (#[trigger] servers[a]).summary.slug != (
                #[trigger] servers[b]).summary.slug,
        decreases servers_rows@.len() - j,
    {
        let mut i: usize = 0;
        while i < j
            invariant
                i <= j < servers_rows@.len(),
                servers == server_views(servers_rows@),
                forall|a: int|
                    0 <= a < i ==> (#[trigger] servers[a]).summary.slug
                        != servers[j as int].summary.slug,
            decreases j - i,
        {
            if same_text(
                servers_rows[i].summary.slug.as_str(),
                servers_rows[j].summary.slug.as_str(),
            ) {
                assert(servers[i as int].summary.slug == servers[j as int].summary.slug);
                return false;
            }
            i += 1;
        }
        j += 1;
    }
    true
}

impl CatalogSnapshot {
    /// Whether the rows are consistent.
    pub fn is_consistent(&self) -> (r: bool)
        ensures
            r == self@.wf(),
    {
        tables_are_consistent(&self.sources, &self.registry, &self.servers)
    }
}

impl McpCatalog {
    /// Whether the state is consistent.
    pub fn is_consistent(&self) -> (r: bool)
        ensures
            r == self.wf(),
    {
        tables_are_consistent(&self.sources, &self.registry, &self.servers)
    }

    /// The catalog of the rows of `snapshot`, which are consistent.
    pub(crate) fn restore(snapshot: CatalogSnapshot) -> (r: Self)
        requires
            snapshot@.wf(),
        ensures
            r.wf(),
            r@ == snapshot@,
    {
        McpCatalog {
            sources: snapshot.sources,
            next_source_id: snapshot.next_source_id,
            registry: snapshot.registry,
            next_entry_id: snapshot.next_entry_id,
            servers: snapshot.servers,
            next_server_id: snapshot.next_server_id,
        }
    }

    /// The sources in the order in which they were added.
    pub fn sources(&self) -> (r: &Vec<McpSource>)
        ensures
            source_views(r@) == self@.sources,
    {
        &self.sources
    }

    /// The registry entries in the order in which they were added.
    pub fn registry(&self) -> (r: &Vec<McpRegistryEntry>)
        ensures
            entry_views(r@) == self@.registry,
    {
        &self.registry
    }

    /// The servers as they are kept, secrets sealed, in the order in which
    /// they were added.
    pub fn servers(&self) -> (r: &Vec<McpServerRecord>)
        ensures
            server_views(r@) == self@.servers,
    {
        &self.servers
    }

    /// The ids that the next new source, entry and server get.
    pub fn next_ids(&self) -> (r: (i64, i64, i64))
        ensures
            r.0 == self@.next_source_id,
            r.1 == self@.next_entry_id,
            r.2 == self@.next_server_id,
    {
        (self.next_source_id, self.next_entry_id, self.next_server_id)
    }
}

/// A copy of the rows.
pub fn copy_sources(rows: &Vec<McpSource>) -> (out: Vec<McpSource>)
    ensures
        out@ == rows@,
{
    let mut out: Vec<McpSource> = Vec::new();
    let mut i: usize = 0;
    while i < rows.len()
        invariant
            i <= rows@.len(),
            out@ == rows@.take(i as int),
        decreases rows@.len() - i,
    {
        out.push(rows[i].duplicate());
        i += 1;
    }
    out
}

/// A copy of the rows.
pub fn copy_entries(rows: &Vec<McpRegistryEntry>) -> (out: Vec<McpRegistryEntry>)
    ensures
        out@ == rows@,
{
    let mut out: Vec<McpRegistryEntry> = Vec::new();
    let mut i: usize = 0;
    while i < rows.len()
        invariant
            i <= rows@.len(),
            out@ == rows@.take(i as int),
        decreases rows@.len() - i,
    {
        out.push(rows[i].duplicate());
        i += 1;
    }
    out
}

/// A copy of the rows.
pub fn copy_servers(rows: &Vec<McpServerRecord>) -> (out: Vec<McpServerRecord>)
    ensures
        out@ == rows@,
{
    let mut out: Vec<McpServerRecord> = Vec::new();
    let mut i: usize = 0;
    while i < rows.len()
        invariant
            i <= rows@.len(),
            out@ == rows@.take(i as int),
        decreases rows@.len() - i,
    {
        out.push(rows[i].duplicate());
        i += 1;
    }
    out
}

impl McpCatalog {
    /// The rows of the catalog, to be saved.
    pub fn snapshot(&self) -> (r: CatalogSnapshot)
        ensures
            r@ == self@,
    {
        CatalogSnapshot {
            sources: copy_sources(&self.sources),
            next_source_id: self.next_source_id,
            registry: copy_entries(&self.registry),
            next_entry_id: self.next_entry_id,
            servers: copy_servers(&self.servers),
            next_server_id: self.next_server_id,
        }
    }
}

} // verus!
