//! Addresses to fetch, with the limits that a download must keep.

use vstd::prelude::*;

use std::time::Duration;

verus! {

/// An address together with the limits of its download.
#[derive(Clone, Debug)]
pub struct Url {
    url: String,
    max_kib: Option<usize>,
    timeout: Option<Duration>,
}

impl From<String> for Url {
    fn from(url: String) -> (r: Url) {
        Url { url, max_kib: None, timeout: None }
    }
}

impl vstd::std_specs::convert::FromSpecImpl<String> for Url {
    open spec fn obeys_from_spec() -> bool {
        true
    }

    closed spec fn from_spec(v: String) -> Url {
        Url { url: v, max_kib: None, timeout: None }
    }
}

impl Url {
    /// The address.
    pub closed spec fn address(&self) -> Seq<char> {
        self.url@
    }

    /// The size limit in KiB, if any.
    pub closed spec fn kib_limit(&self) -> Option<usize> {
        self.max_kib
    }

    /// The time limit, if any.
    pub closed spec fn time_limit(&self) -> Option<Duration> {
        self.timeout
    }

    /// An address without limits.
    pub fn new(url: &str) -> (r: Url)
        ensures
            r.address() == url@,
            r.kib_limit() is None,
            r.time_limit() is None,
    {
        Url { url: url.to_owned(), max_kib: None, timeout: None }
    }

    /// Limits the download to `limit` KiB.
    pub fn max_kib(self, limit: usize) -> (r: Url)
        ensures
            r.address() == self.address(),
            r.kib_limit() == Some(limit),
            r.time_limit() == self.time_limit(),
    {
        Url { max_kib: Some(limit), ..self }
    }

    /// Limits the download to `timeout`.
    pub fn timeout(self, timeout: Duration) -> (r: Url)
        ensures
            r.address() == self.address(),
            r.kib_limit() == self.kib_limit(),
            r.time_limit() == Some(timeout),
    {
        Url { timeout: Some(timeout), ..self }
    }

    /// The address as text.
    pub fn as_str(&self) -> (r: &str)
        ensures
            r@ == self.address(),
    {
        self.url.as_str()
    }

    /// The size limit in KiB, if any.
    pub fn size_limit(&self) -> (r: Option<usize>)
        ensures
            r == self.kib_limit(),
    {
        self.max_kib
    }

    /// The time limit, if any.
    pub fn duration_limit(&self) -> (r: Option<Duration>)
        ensures
            r == self.time_limit(),
    {
        self.timeout
    }

    /// Whether `written` bytes are more than the size limit allows.
    pub fn exceeds_limit(&self, written: usize) -> (r: bool)
        ensures
            r == (self.kib_limit() matches Some(k) && written > k * 1024),
    {
        match self.max_kib {
            Some(k) => (written as u128) > (k as u128) * 1024,
            None => false,
        }
    }
}

/// Why a download failed.
#[derive(Clone, Copy, Debug, PartialEq, Eq, Structural)]
pub enum ErrorKind {
    /// Connection Error
    Connection,
    /// Read Error
    Read,
    /// Reached download limit error
    DownloadLimit,
}

pub open spec fn kind_text(k: ErrorKind) -> Seq<char> {
    match k {
        ErrorKind::Connection => "A connection error has occured"@,
        ErrorKind::Read => "A read error has occured"@,
        ErrorKind::DownloadLimit => "Reached download limit"@,
    }
}

impl ErrorKind {
    /// The display text of this kind.
    pub fn text(&self) -> (r: &'static str)
        ensures
            r@ == kind_text(*self),
    {
        match self {
            ErrorKind::Connection => "A connection error has occured",
            ErrorKind::Read => "A read error has occured",
            ErrorKind::DownloadLimit => "Reached download limit",
        }
    }
}

/// A failed download: its kind, and the message of the error beneath it.
#[derive(Clone, Debug)]
pub struct DownloadError {
    pub kind: ErrorKind,
    pub cause: Option<String>,
}

} // verus!
