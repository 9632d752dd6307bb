//! Failures of the configuration and storage layer.

use vstd::prelude::*;
use vstd::string::StringExecFns;

verus! {

/// A failure of the configuration and storage layer. Variants that stand
/// for a failure of a collaborator carry its description as text.
#[derive(Debug)]
pub enum ConfigError {
    /// No project directory could be resolved for this user.
    MissingProjectDir,
    /// The provider table holds no row to chat with.
    MissingDefaultProvider,
    /// Reading or writing a file failed.
    Io(String),
    /// The store refused a statement: a broken constraint or a missing row.
    Database(String),
    /// Sealing or opening a secret failed, or a key could not be made or used.
    Encryption(String),
    /// A path cannot be used as given.
    InvalidPath(String),
    /// The schema could not be brought up to date.
    Migration(String),
    /// A stored key is not base64.
    Base64(String),
    /// Opened bytes are not UTF-8 text.
    Utf8(String),
    /// A background task did not run to its end.
    Join(String),
}

/// The words of the store for a row that is not there.
pub open spec fn row_not_found() -> Seq<char> {
    "no rows returned by a query that expected to return at least one row"@
}

impl ConfigError {
    /// Whether this is an encryption failure with the description `text`.
    pub open spec fn is_encryption(self, text: Seq<char>) -> bool {
        self matches ConfigError::Encryption(m) && m@ == text
    }

    /// Whether this is a failure of reading or writing with the description
    /// `text`.
    pub open spec fn is_io(self, text: Seq<char>) -> bool {
        self matches ConfigError::Io(m) && m@ == text
    }

    /// Whether this is a refusal of the store with the description `text`.
    pub open spec fn is_database(self, text: Seq<char>) -> bool {
        self matches ConfigError::Database(m) && m@ == text
    }

    /// The fixed words that open the message of each variant.
    pub open spec fn heading(self) -> Seq<char> {
        match self {
            ConfigError::MissingProjectDir => "failed to resolve project directory"@,
            ConfigError::MissingDefaultProvider => "no default provider configured"@,
            ConfigError::Io(_) => "i/o error: "@,
            ConfigError::Database(_) => "database error: "@,
            ConfigError::Encryption(_) => "encryption error: "@,
            ConfigError::InvalidPath(_) => "invalid path: "@,
            ConfigError::Migration(_) => "migration error: "@,
            ConfigError::Base64(_) => "base64 error: "@,
            ConfigError::Utf8(_) => "utf8 error: "@,
            ConfigError::Join(_) => "task join error: "@,
        }
    }

    /// The description that the variant carries, empty where it carries none.
    pub open spec fn detail(self) -> Seq<char> {
        match self {
            ConfigError::MissingProjectDir => Seq::empty(),
            ConfigError::MissingDefaultProvider => Seq::empty(),
            ConfigError::Io(m) => m@,
            ConfigError::Database(m) => m@,
            ConfigError::Encryption(m) => m@,
            ConfigError::InvalidPath(m) => m@,
            ConfigError::Migration(m) => m@,
            ConfigError::Base64(m) => m@,
            ConfigError::Utf8(m) => m@,
            ConfigError::Join(m) => m@,
        }
    }

    /// The message shown to a person: the heading, then the description.
    pub fn message(&self) -> (r: String)
        ensures
            r@ == self.heading() + self.detail(),
    {
        match self {
            ConfigError::MissingProjectDir => {
                let r = String::from_str("failed to resolve project directory");
                r
            },
            ConfigError::MissingDefaultProvider => {
                let r = String::from_str("no default provider configured");
                r
            },
            ConfigError::Io(m) => String::from_str("i/o error: ").concat(m.as_str()),
            ConfigError::Database(m) => String::from_str("database error: ").concat(m.as_str()),
            ConfigError::Encryption(m) => String::from_str("encryption error: ").concat(
                m.as_str(),
            ),
            ConfigError::InvalidPath(m) => String::from_str("invalid path: ").concat(m.as_str()),
            ConfigError::Migration(m) => String::from_str("migration error: ").concat(m.as_str()),
            ConfigError::Base64(m) => String::from_str("base64 error: ").concat(m.as_str()),
            ConfigError::Utf8(m) => String::from_str("utf8 error: ").concat(m.as_str()),
            ConfigError::Join(m) => String::from_str("task join error: ").concat(m.as_str()),
        }
    }

    /// The failure of a row that is not there.
    pub fn row_not_found() -> (r: ConfigError)
        ensures
            r.is_database(row_not_found()),
    {
        ConfigError::Database(
            String::from_str(
                "no rows returned by a query that expected to return at least one row",
            ),
        )
    }

    /// An encryption failure with the given description.
    pub fn encryption(text: &str) -> (r: ConfigError)
        ensures
            r.is_encryption(text@),
    {
        ConfigError::Encryption(String::from_str(text))
    }

    /// A failure of reading or writing with the given description.
    pub fn io(text: &str) -> (r: ConfigError)
        ensures
            r.is_io(text@),
    {
        ConfigError::Io(String::from_str(text))
    }

    /// A refusal of the store with the given description.
    pub fn database(text: &str) -> (r: ConfigError)
        ensures
            r.is_database(text@),
    {
        ConfigError::Database(String::from_str(text))
    }
}

} // verus!
