//! OpenSSH-compatible `ssh_config` / `sshd_config` parsing.
//!
//! The two configuration files share one grammar, so there is a single
//! low-level tokenizer in [`parser`] and two semantic layers on top:
//! [`client`] for the client side and [`server`] for the daemon side. Every
//! entry point returns a typed [`ConfigError`] on bad input.
//!
//! Everything here works on text. Reading files and choosing the search path
//! is up to the caller.

pub mod address;
pub mod algos;
pub mod client;
pub mod client_laws;
pub mod glob;
pub mod host_port;
pub mod include_laws;
pub mod includes;
pub mod match_block;
pub mod match_laws;
pub mod parser;
pub mod pattern;
pub mod refusal_laws;
pub mod server;
pub mod server_laws;
pub mod server_refusals;
pub mod value;
pub mod value_laws;
pub mod walk;

pub use algos::{default_list, known_names, resolve_algo_list, AlgoCategory};
pub use client::{
    ClientOptions, LocalForwardSpec, RemoteForwardSpec, RequestTty, SshClientConfig, StrictMode,
};
pub use glob::HostPattern;
pub use host_port::{parse_host_port, parse_host_port_pattern};
pub use match_block::{MatchCondition, MatchContext};
pub use server::{AddressFamily, GatewayPorts, PermitRootLogin, SshServerConfig};

use crate::text::{concat, decimal, decimal_string};
use vstd::prelude::*;

verus! {

/// Errors produced while parsing or evaluating an SSH config file.
#[derive(Debug, Clone, PartialEq, Eq)]
pub enum ConfigError {
    /// Lexical or structural failure (unterminated quote, bad block header).
    Syntax {
        /// 1-based source line number.
        line: usize,
        /// Human-readable description.
        msg: String,
    },
    /// Keyword present in the file but not recognised by this parser.
    UnknownKeyword {
        /// 1-based source line number.
        line: usize,
        /// The offending keyword (lowercased).
        keyword: String,
    },
    /// Value for a recognised keyword failed to parse (bad integer, bad
    /// enum, bad forward-spec).
    BadValue {
        /// 1-based source line number.
        line: usize,
        /// The keyword whose value was malformed.
        keyword: String,
        /// Human-readable description of what went wrong.
        msg: String,
    },
    /// Construct understood by OpenSSH but not implemented here.
    Unsupported {
        /// 1-based source line number.
        line: usize,
        /// Human-readable description of the unsupported construct.
        msg: String,
    },
}

/// What a [`ConfigError`] says.
#[verifier::ext_equal]
pub ghost enum ConfigErrorView {
    Syntax { line: usize, msg: Seq<char> },
    UnknownKeyword { line: usize, keyword: Seq<char> },
    BadValue { line: usize, keyword: Seq<char>, msg: Seq<char> },
    Unsupported { line: usize, msg: Seq<char> },
}

impl View for ConfigError {
    type V = ConfigErrorView;

    open spec fn view(&self) -> ConfigErrorView {
        match self {
            ConfigError::Syntax { line, msg } => ConfigErrorView::Syntax {
                line: *line,
                msg: msg@,
            },
            ConfigError::UnknownKeyword { line, keyword } => ConfigErrorView::UnknownKeyword {
                line: *line,
                keyword: keyword@,
            },
            ConfigError::BadValue { line, keyword, msg } => ConfigErrorView::BadValue {
                line: *line,
                keyword: keyword@,
                msg: msg@,
            },
            ConfigError::Unsupported { line, msg } => ConfigErrorView::Unsupported {
                line: *line,
                msg: msg@,
            },
        }
    }
}

impl ConfigErrorView {
    /// The error as one line of text.
    pub open spec fn message(self) -> Seq<char> {
        match self {
            ConfigErrorView::Syntax { line, msg } => "config: line "@ + decimal(line as nat)
                + ": syntax: "@ + msg,
            ConfigErrorView::UnknownKeyword { line, keyword } => "config: line "@ + decimal(
                line as nat,
            ) + ": unknown keyword: "@ + keyword,
            ConfigErrorView::BadValue { line, keyword, msg } => "config: line "@ + decimal(
                line as nat,
            ) + ": bad value for "@ + keyword + ": "@ + msg,
            ConfigErrorView::Unsupported { line, msg } => "config: line "@ + decimal(line as nat)
                + ": unsupported: "@ + msg,
        }
    }
}

/// Whether a result is what the model says: the same error, or a success
/// whose view is the model's value.
pub open spec fn agrees<T: View>(
    r: Result<T, ConfigError>,
    model: Result<T::V, ConfigErrorView>,
) -> bool {
    match model {
        Ok(v) => r matches Ok(x) && x@ == v,
        Err(e) => r matches Err(x) && x@ == e,
    }
}

impl ConfigError {
    /// The error as one line of text.
    pub fn message(&self) -> (r: String)
        ensures
            r@ == self@.message(),
    {
        let mut out = "config: line ".to_owned();
        match self {
            ConfigError::Syntax { line, msg } => {
                out.append(decimal_string(*line).as_str());
                out.append(": syntax: ");
                out.append(msg.as_str());
            },
            ConfigError::UnknownKeyword { line, keyword } => {
                out.append(decimal_string(*line).as_str());
                out.append(": unknown keyword: ");
                out.append(keyword.as_str());
            },
            ConfigError::BadValue { line, keyword, msg } => {
                out.append(decimal_string(*line).as_str());
                out.append(": bad value for ");
                out.append(keyword.as_str());
                out.append(": ");
                out.append(msg.as_str());
            },
            ConfigError::Unsupported { line, msg } => {
                out.append(decimal_string(*line).as_str());
                out.append(": unsupported: ");
                out.append(msg.as_str());
            },
        }
        out
    }
}

/// A [`ConfigError::BadValue`].
pub(crate) fn bad_value(line: usize, keyword: &str, msg: String) -> (e: ConfigError)
    ensures
        e@ == (ConfigErrorView::BadValue { line, keyword: keyword@, msg: msg@ }),
{
    ConfigError::BadValue { line, keyword: keyword.to_owned(), msg }
}

/// A [`ConfigError::Unsupported`].
pub(crate) fn unsupported(line: usize, msg: &str) -> (e: ConfigError)
    ensures
        e@ == (ConfigErrorView::Unsupported { line, msg: msg@ }),
{
    ConfigError::Unsupported { line, msg: msg.to_owned() }
}

/// `before`, then `s` in its `Debug` form.
pub(crate) fn with_quoted(before: &str, s: &str) -> (r: String)
    ensures
        r@ == before@ + crate::text::debug_quoted(s@),
{
    concat(before, crate::text::quoted(s).as_str())
}

} // verus!
