//! The errors of the library, the text of each and the HTTP status it maps to.

use crate::text::push_str;
use crate::text::string_of;
use vstd::prelude::*;

verus! {

/// What an `Error` holds, as plain values.
pub enum ErrorView {
    ConfigRead { message: Seq<char> },
    ConfigParse { message: Seq<char> },
    ConfigLoad { message: Seq<char> },
    DataRead { message: Seq<char> },
    DataWrite { message: Seq<char> },
    DataParse { message: Seq<char> },
    DataSerialize { message: Seq<char> },
    EntryNotFound { id: Seq<char> },
    GroupNotFound { id: Seq<char> },
    DuplicateEntryName { name: Seq<char> },
    DuplicateGroupName { name: Seq<char> },
    OidcDiscovery { message: Seq<char> },
    OidcTokenExchange { message: Seq<char> },
    OidcClaims { message: Seq<char> },
    ClaimsCheck { message: Seq<char> },
    ClaimsCheckFailed { message: Seq<char> },
    PasswordHash { message: Seq<char> },
    AuthFailed,
    SessionNotFound,
    SessionExpired,
    InvalidConfig { message: Seq<char> },
}

/// Everything that an operation of the library can fail with.
#[derive(Debug, PartialEq, Eq)]
pub enum Error {
    ConfigRead { message: String },
    ConfigParse { message: String },
    ConfigLoad { message: String },
    DataRead { message: String },
    DataWrite { message: String },
    DataParse { message: String },
    DataSerialize { message: String },
    EntryNotFound { id: String },
    GroupNotFound { id: String },
    DuplicateEntryName { name: String },
    DuplicateGroupName { name: String },
    OidcDiscovery { message: String },
    OidcTokenExchange { message: String },
    OidcClaims { message: String },
    ClaimsCheck { message: String },
    ClaimsCheckFailed { message: String },
    PasswordHash { message: String },
    AuthFailed,
    SessionNotFound,
    SessionExpired,
    InvalidConfig { message: String },
}

impl View for Error {
    type V = ErrorView;

    open spec fn view(&self) -> ErrorView {
        match self {
            Error::ConfigRead { message } => ErrorView::ConfigRead { message: message@ },
            Error::ConfigParse { message } => ErrorView::ConfigParse { message: message@ },
            Error::ConfigLoad { message } => ErrorView::ConfigLoad { message: message@ },
            Error::DataRead { message } => ErrorView::DataRead { message: message@ },
            Error::DataWrite { message } => ErrorView::DataWrite { message: message@ },
            Error::DataParse { message } => ErrorView::DataParse { message: message@ },
            Error::DataSerialize { message } => ErrorView::DataSerialize { message: message@ },
            Error::EntryNotFound { id } => ErrorView::EntryNotFound { id: id@ },
            Error::GroupNotFound { id } => ErrorView::GroupNotFound { id: id@ },
            Error::DuplicateEntryName { name } => ErrorView::DuplicateEntryName { name: name@ },
            Error::DuplicateGroupName { name } => ErrorView::DuplicateGroupName { name: name@ },
            Error::OidcDiscovery { message } => ErrorView::OidcDiscovery { message: message@ },
            Error::OidcTokenExchange { message } => ErrorView::OidcTokenExchange {
                message: message@,
            },
            Error::OidcClaims { message } => ErrorView::OidcClaims { message: message@ },
            Error::ClaimsCheck { message } => ErrorView::ClaimsCheck { message: message@ },
            Error::ClaimsCheckFailed { message } => ErrorView::ClaimsCheckFailed {
                message: message@,
            },
            Error::PasswordHash { message } => ErrorView::PasswordHash { message: message@ },
            Error::AuthFailed => ErrorView::AuthFailed,
            Error::SessionNotFound => ErrorView::SessionNotFound,
            Error::SessionExpired => ErrorView::SessionExpired,
            Error::InvalidConfig { message } => ErrorView::InvalidConfig { message: message@ },
        }
    }
}

impl ErrorView {
    /// The words that introduce the error's detail, or are all of its text.
    pub open spec fn label(self) -> Seq<char> {
        match self {
            ErrorView::ConfigRead { .. } => "Failed to read config file: "@,
            ErrorView::ConfigParse { .. } => "Failed to parse config: "@,
            ErrorView::ConfigLoad { .. } => "Failed to load config: "@,
            ErrorView::DataRead { .. } => "Failed to read data file: "@,
            ErrorView::DataWrite { .. } => "Failed to write data file: "@,
            ErrorView::DataParse { .. } => "Failed to parse data: "@,
            ErrorView::DataSerialize { .. } => "Failed to serialize data: "@,
            ErrorView::EntryNotFound { .. } => "Entry not found: "@,
            ErrorView::GroupNotFound { .. } => "Group not found: "@,
            ErrorView::DuplicateEntryName { .. } => "Duplicate entry name: "@,
            ErrorView::DuplicateGroupName { .. } => "Duplicate group name: "@,
            ErrorView::OidcDiscovery { .. } => "OIDC discovery error: "@,
            ErrorView::OidcTokenExchange { .. } => "OIDC token exchange error: "@,
            ErrorView::OidcClaims { .. } => "OIDC claims error: "@,
            ErrorView::ClaimsCheck { .. } => "Claims check script error: "@,
            ErrorView::ClaimsCheckFailed { .. } => "Claims check script failed: "@,
            ErrorView::PasswordHash { .. } => "Password hashing error: "@,
            ErrorView::AuthFailed => "Authentication failed"@,
            ErrorView::SessionNotFound => "Session not found"@,
            ErrorView::SessionExpired => "Session expired"@,
            ErrorView::InvalidConfig { .. } => "Invalid configuration: "@,
        }
    }

    /// The detail that follows the label; empty where the error has none.
    pub open spec fn detail(self) -> Seq<char> {
        match self {
            ErrorView::ConfigRead { message } => message,
            ErrorView::ConfigParse { message } => message,
            ErrorView::ConfigLoad { message } => message,
            ErrorView::DataRead { message } => message,
            ErrorView::DataWrite { message } => message,
            ErrorView::DataParse { message } => message,
            ErrorView::DataSerialize { message } => message,
            ErrorView::EntryNotFound { id } => id,
            ErrorView::GroupNotFound { id } => id,
            ErrorView::DuplicateEntryName { name } => name,
            ErrorView::DuplicateGroupName { name } => name,
            ErrorView::OidcDiscovery { message } => message,
            ErrorView::OidcTokenExchange { message } => message,
            ErrorView::OidcClaims { message } => message,
            ErrorView::ClaimsCheck { message } => message,
            ErrorView::ClaimsCheckFailed { message } => message,
            ErrorView::PasswordHash { message } => message,
            ErrorView::AuthFailed => Seq::empty(),
            ErrorView::SessionNotFound => Seq::empty(),
            ErrorView::SessionExpired => Seq::empty(),
            ErrorView::InvalidConfig { message } => message,
        }
    }

    /// The full text of the error.
    pub open spec fn text(self) -> Seq<char> {
        self.label() + self.detail()
    }

    /// The HTTP status that the error is answered with.
    pub open spec fn status(self) -> u16 {
        match self {
            ErrorView::EntryNotFound { .. } | ErrorView::GroupNotFound { .. } => 404,
            ErrorView::DuplicateEntryName { .. } | ErrorView::DuplicateGroupName { .. } => 409,
            ErrorView::AuthFailed | ErrorView::SessionNotFound | ErrorView::SessionExpired => 401,
            ErrorView::ClaimsCheckFailed { .. } => 403,
            _ => 500,
        }
    }

    /// Whether the error's text is withheld from the client.
    pub open spec fn redacted(self) -> bool {
        self is InvalidConfig || self is ConfigLoad
    }

    /// The text that a client is shown.
    pub open spec fn public_text(self) -> Seq<char> {
        if self.redacted() {
            "Configuration error"@
        } else {
            self.text()
        }
    }
}

impl Error {
    /// The full text of the error.
    pub fn message(&self) -> (r: String)
        ensures
            r@ == self@.text(),
    {
        let mut out: Vec<char> = Vec::new();
        match self {
            Error::ConfigRead { message } => {
                push_str(&mut out, "Failed to read config file: ");
                push_str(&mut out, message.as_str());
            },
            Error::ConfigParse { message } => {
                push_str(&mut out, "Failed to parse config: ");
                push_str(&mut out, message.as_str());
            },
            Error::ConfigLoad { message } => {
                push_str(&mut out, "Failed to load config: ");
                push_str(&mut out, message.as_str());
            },
            Error::DataRead { message } => {
                push_str(&mut out, "Failed to read data file: ");
                push_str(&mut out, message.as_str());
            },
            Error::DataWrite { message } => {
                push_str(&mut out, "Failed to write data file: ");
                push_str(&mut out, message.as_str());
            },
            Error::DataParse { message } => {
                push_str(&mut out, "Failed to parse data: ");
                push_str(&mut out, message.as_str());
            },
            Error::DataSerialize { message } => {
                push_str(&mut out, "Failed to serialize data: ");
                push_str(&mut out, message.as_str());
            },
            Error::EntryNotFound { id } => {
                push_str(&mut out, "Entry not found: ");
                push_str(&mut out, id.as_str());
            },
            Error::GroupNotFound { id } => {
                push_str(&mut out, "Group not found: ");
                push_str(&mut out, id.as_str());
            },
            Error::DuplicateEntryName { name } => {
                push_str(&mut out, "Duplicate entry name: ");
                push_str(&mut out, name.as_str());
            },
            Error::DuplicateGroupName { name } => {
                push_str(&mut out, "Duplicate group name: ");
                push_str(&mut out, name.as_str());
            },
            Error::OidcDiscovery { message } => {
                push_str(&mut out, "OIDC discovery error: ");
                push_str(&mut out, message.as_str());
            },
            Error::OidcTokenExchange { message } => {
                push_str(&mut out, "OIDC token exchange error: ");
                push_str(&mut out, message.as_str());
            },
            Error::OidcClaims { message } => {
                push_str(&mut out, "OIDC claims error: ");
                push_str(&mut out, message.as_str());
            },
            Error::ClaimsCheck { message } => {
                push_str(&mut out, "Claims check script error: ");
                push_str(&mut out, message.as_str());
            },
            Error::ClaimsCheckFailed { message } => {
                push_str(&mut out, "Claims check script failed: ");
                push_str(&mut out, message.as_str());
            },
            Error::PasswordHash { message } => {
                push_str(&mut out, "Password hashing error: ");
                push_str(&mut out, message.as_str());
            },
            Error::AuthFailed => {
                push_str(&mut out, "Authentication failed");
            },
            Error::SessionNotFound => {
                push_str(&mut out, "Session not found");
            },
            Error::SessionExpired => {
                push_str(&mut out, "Session expired");
            },
            Error::InvalidConfig { message } => {
                push_str(&mut out, "Invalid configuration: ");
                push_str(&mut out, message.as_str());
            },
        }
        assert(out@ =~= self@.text());
        string_of(out.as_slice())
    }

    /// The HTTP status that the error is answered with: 404 for what was not
    /// found, 409 for a name that is taken, 401 for a failed or missing login,
    /// 403 for claims that the policy turned down, 500 for everything else.
    pub fn status_code(&self) -> (r: u16)
        ensures
            r == self@.status(),
    {
        match self {
            Error::EntryNotFound { .. } | Error::GroupNotFound { .. } => 404,
            Error::DuplicateEntryName { .. } | Error::DuplicateGroupName { .. } => 409,
            Error::AuthFailed | Error::SessionNotFound | Error::SessionExpired => 401,
            Error::ClaimsCheckFailed { .. } => 403,
            _ => 500,
        }
    }

    /// The text that a client is shown: that of the error, but for errors of
    /// the configuration, whose text is withheld.
    pub fn public_message(&self) -> (r: String)
        ensures
            r@ == self@.public_text(),
    {
        match self {
            Error::InvalidConfig { .. } | Error::ConfigLoad { .. } => {
                let mut out: Vec<char> = Vec::new();
                push_str(&mut out, "Configuration error");
                assert(out@ =~= "Configuration error"@);
                string_of(out.as_slice())
            },
            _ => self.message(),
        }
    }
}

} // verus!
