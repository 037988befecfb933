//! The configuration of a run.

use vstd::prelude::*;

use crate::auth::{AuthMethods, AuthView};
use crate::header::{CustomHeaders, HeaderView};

verus! {

/// The HTTP method of the requests.
#[derive(Clone, Copy, Debug, PartialEq, Eq, Structural)]
pub enum HttpMethods {
    Get,
    Post,
    Put,
    Delete,
}

/// What to send, how often and how many at once. It is fixed for the
/// whole run and only ever read.
#[derive(Clone, Debug)]
pub struct Config {
    pub url: String,
    /// The size of the measured batch.
    pub requests: usize,
    /// The most requests in flight at once.
    pub concurrency: usize,
    pub token: Option<AuthMethods>,
    pub method: HttpMethods,
    pub body: Option<String>,
    /// The timeout of a single request, in seconds.
    pub timeout: u64,
    pub header: Option<CustomHeaders>,
    pub user_agent: Option<String>,
    pub content_type: String,
    /// Whether invalid certificates are accepted.
    pub insecure: bool,
    /// The size of the warm-up batch; a twentieth of `requests` where
    /// unset.
    pub warmup: Option<usize>,
    /// Whether the report is also written to files.
    pub output: bool,
}

/// A configuration, as mathematical values.
pub struct ConfigView {
    pub url: Seq<char>,
    pub requests: nat,
    pub concurrency: nat,
    pub token: Option<AuthView>,
    pub method: HttpMethods,
    pub body: Option<Seq<char>>,
    pub timeout: nat,
    pub header: Option<HeaderView>,
    pub user_agent: Option<Seq<char>>,
    pub content_type: Seq<char>,
    pub insecure: bool,
    pub warmup: Option<nat>,
    pub output: bool,
}

/// The view of a text that may be absent.
pub open spec fn text_view(text: Option<String>) -> Option<Seq<char>> {
    match text {
        Some(t) => Some(t@),
        None => None,
    }
}

impl View for Config {
    type V = ConfigView;

    open spec fn view(&self) -> ConfigView {
        ConfigView {
            url: self.url@,
            requests: self.requests as nat,
            concurrency: self.concurrency as nat,
            token: match self.token {
                Some(token) => Some(token@),
                None => None,
            },
            method: self.method,
            body: text_view(self.body),
            timeout: self.timeout as nat,
            header: match self.header {
                Some(header) => Some(header@),
                None => None,
            },
            user_agent: text_view(self.user_agent),
            content_type: self.content_type@,
            insecure: self.insecure,
            warmup: match self.warmup {
                Some(n) => Some(n as nat),
                None => None,
            },
            output: self.output,
        }
    }
}

impl ConfigView {
    /// The size of the warm-up batch: the configured one, or five percent
    /// of the measured batch, rounded down.
    pub open spec fn warmup_requests(self) -> nat {
        match self.warmup {
            Some(n) => n,
            None => self.requests / 20,
        }
    }
}

impl Config {
    /// The size of the warm-up batch: the configured one, or five percent
    /// of the measured batch, rounded down. It is computed here and
    /// nowhere else, so that the dispatcher and the report agree on it.
    pub fn warmup_requests(&self) -> (n: usize)
        ensures
            n == self@.warmup_requests(),
    {
        match self.warmup {
            Some(n) => n,
            None => self.requests / 20,
        }
    }
}

} // verus!
