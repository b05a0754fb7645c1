//! The failures a postprocessor or a chain of them reports.

use crate::wire::{decimal_chars, decimal_string};
use vstd::prelude::*;
use vstd::string::*;

verus! {

/// Why a lookup, a postprocessor or a chain failed.
#[derive(Debug, PartialEq, Eq)]
pub enum Error {
    /// No postprocessor is registered under `name`.
    UnknownPostprocessor { name: String },
    /// A message would need `chunks` chunks where at most `max_chunks` may be
    /// emitted.
    OversizedMessage { chunks: usize, max_chunks: usize },
    /// An encoder of an outside library reported `message`.
    Encoder { message: String },
    /// The postprocessor `name` failed with `cause` in the chain of the
    /// stream `alias`.
    Stage { alias: String, name: String, cause: Box<Error> },
}

/// The text of the error for a lookup of the unknown name `name`.
pub open spec fn not_found(name: Seq<char>) -> Seq<char> {
    "Postprocessor '"@ + name + "' not found."@
}

/// The text of the error for a message of `chunks` chunks where at most
/// `max_chunks` are allowed.
pub open spec fn oversized(chunks: nat, max_chunks: nat) -> Seq<char> {
    "Message of "@ + decimal_chars(chunks) + " chunks exceeds the limit of "@ + decimal_chars(
        max_chunks,
    ) + " chunks."@
}

/// The text of the error of the postprocessor `name` in the chain of the
/// stream `alias`, whose own error reads `cause`.
pub open spec fn in_stage(alias: Seq<char>, name: Seq<char>, cause: Seq<char>) -> Seq<char> {
    "[Connector::"@ + alias + "] Postprocessor '"@ + name + "' error: "@ + cause
}

impl Error {
    /// What the error says, in words.
    pub open spec fn text(&self) -> Seq<char>
        decreases self,
    {
        match self {
            Error::UnknownPostprocessor { name } => not_found(name@),
            Error::OversizedMessage { chunks, max_chunks } => oversized(
                *chunks as nat,
                *max_chunks as nat,
            ),
            Error::Encoder { message } => message@,
            Error::Stage { alias, name, cause } => in_stage(alias@, name@, cause.text()),
        }
    }

    /// What the error says, in words.
    pub fn message(&self) -> (r: String)
        ensures
            r@ == self.text(),
        decreases self,
    {
        match self {
            Error::UnknownPostprocessor { name } => {
                let mut r = String::from_str("Postprocessor '");
                r.append(name.as_str());
                r.append("' not found.");
                r
            },
            Error::OversizedMessage { chunks, max_chunks } => {
                let mut r = String::from_str("Message of ");
                r.append(decimal_string(*chunks).as_str());
                r.append(" chunks exceeds the limit of ");
                r.append(decimal_string(*max_chunks).as_str());
                r.append(" chunks.");
                r
            },
            Error::Encoder { message } => message.clone(),
            Error::Stage { alias, name, cause } => {
                let mut r = String::from_str("[Connector::");
                r.append(alias.as_str());
                r.append("] Postprocessor '");
                r.append(name.as_str());
                r.append("' error: ");
                r.append(cause.message().as_str());
                r
            },
        }
    }
}

} // verus!
