//! Structured error types. The library uses `Result<T>` everywhere and has no
//! panics on any recoverable path (network, provider, IO, playback).

use crate::text::cat;
use vstd::prelude::*;

verus! {

pub type Result<T> = std::result::Result<T, Error>;

#[derive(Debug, PartialEq, Eq)]
pub enum Error {
    Network(String),
    Timeout,
    Provider(String),
    /// The provider's HTML/JSON no longer matches our parsers. This is the
    /// actionable signal a maintainer needs when the provider changes its markup.
    ProviderChanged { context: String, detail: String },
    Resolve(String),
    InvalidUrl(String),
    Player(String),
    Database(String),
    Config(String),
    /// What the operating system said of a failed read or write.
    Io(String),
    NotImplemented(&'static str),
}

/// What an [`Error`] says, as text.
pub ghost enum Fault {
    Network(Seq<char>),
    Timeout,
    Provider(Seq<char>),
    ProviderChanged { context: Seq<char>, detail: Seq<char> },
    Resolve(Seq<char>),
    InvalidUrl(Seq<char>),
    Player(Seq<char>),
    Database(Seq<char>),
    Config(Seq<char>),
    Io(Seq<char>),
    NotImplemented(Seq<char>),
}

impl View for Error {
    type V = Fault;

    open spec fn view(&self) -> Fault {
        match self {
            Error::Network(m) => Fault::Network(m@),
            Error::Timeout => Fault::Timeout,
            Error::Provider(m) => Fault::Provider(m@),
            Error::ProviderChanged { context, detail } => Fault::ProviderChanged {
                context: context@,
                detail: detail@,
            },
            Error::Resolve(m) => Fault::Resolve(m@),
            Error::InvalidUrl(m) => Fault::InvalidUrl(m@),
            Error::Player(m) => Fault::Player(m@),
            Error::Database(m) => Fault::Database(m@),
            Error::Config(m) => Fault::Config(m@),
            Error::Io(m) => Fault::Io(m@),
            Error::NotImplemented(m) => Fault::NotImplemented(m@),
        }
    }
}

/// The sentence that an error is reported with.
pub open spec fn sentence(f: Fault) -> Seq<char> {
    match f {
        Fault::Network(m) => "network error: "@ + m,
        Fault::Timeout => "request timed out"@,
        Fault::Provider(m) => "provider error: "@ + m,
        Fault::ProviderChanged { context, detail } => "provider layout changed while parsing "@
            + context + ": "@ + detail,
        Fault::Resolve(m) => "could not resolve a playable source: "@ + m,
        Fault::InvalidUrl(m) => "invalid or unsupported url: "@ + m,
        Fault::Player(m) => "player error: "@ + m,
        Fault::Database(m) => "database error: "@ + m,
        Fault::Config(m) => "config error: "@ + m,
        Fault::Io(m) => "io error: "@ + m,
        Fault::NotImplemented(m) => "feature not implemented yet: "@ + m,
    }
}

/// An error is reported with what kind it is and then what was said of it.
pub proof fn law_sentences(m: Seq<char>, context: Seq<char>)
    ensures
        sentence(Fault::Network(m)) == "network error: "@ + m,
        sentence(Fault::Timeout) == "request timed out"@,
        sentence(Fault::Provider(m)) == "provider error: "@ + m,
        sentence(Fault::ProviderChanged { context, detail: m })
            == "provider layout changed while parsing "@ + context + ": "@ + m,
        sentence(Fault::Resolve(m)) == "could not resolve a playable source: "@ + m,
        sentence(Fault::InvalidUrl(m)) == "invalid or unsupported url: "@ + m,
        sentence(Fault::Player(m)) == "player error: "@ + m,
        sentence(Fault::Database(m)) == "database error: "@ + m,
        sentence(Fault::Config(m)) == "config error: "@ + m,
        sentence(Fault::Io(m)) == "io error: "@ + m,
        sentence(Fault::NotImplemented(m)) == "feature not implemented yet: "@ + m,
{
}

impl Error {
    /// True for errors where a bounded retry is sensible (transient network).
    pub fn is_retryable(&self) -> (r: bool)
        ensures
            r == (self@ is Network || self@ is Timeout),
    {
        match self {
            Error::Network(_) => true,
            Error::Timeout => true,
            _ => false,
        }
    }

    /// The sentence that the error is reported with.
    pub fn message(&self) -> (r: String)
        ensures
            r@ == sentence(self@),
    {
        match self {
            Error::Network(m) => cat("network error: ", m.as_str()),
            Error::Timeout => "request timed out".to_string(),
            Error::Provider(m) => cat("provider error: ", m.as_str()),
            Error::ProviderChanged { context, detail } => {
                let mut s = cat("provider layout changed while parsing ", context.as_str());
                s.append(": ");
                s.append(detail.as_str());
                s
            },
            Error::Resolve(m) => cat("could not resolve a playable source: ", m.as_str()),
            Error::InvalidUrl(m) => cat("invalid or unsupported url: ", m.as_str()),
            Error::Player(m) => cat("player error: ", m.as_str()),
            Error::Database(m) => cat("database error: ", m.as_str()),
            Error::Config(m) => cat("config error: ", m.as_str()),
            Error::Io(m) => cat("io error: ", m.as_str()),
            Error::NotImplemented(m) => cat("feature not implemented yet: ", m),
        }
    }
}

/// Only what the network did is worth another try.
pub proof fn law_retryable(e: &Error, r: bool)
    requires
        call_ensures(Error::is_retryable, (e,), r),
    ensures
        r <==> e@ is Network || e@ is Timeout,
{
}

/// Small helper so provider parsers can flag layout drift ergonomically.
pub fn provider_changed(context: &str, detail: &str) -> (r: Error)
    ensures
        r@ == (Fault::ProviderChanged { context: context@, detail: detail@ }),
{
    Error::ProviderChanged { context: context.to_string(), detail: detail.to_string() }
}

} // verus!
