//! The saturator: a checked configuration together with the HTTP client
//! that its requests are sent with.

use vstd::prelude::*;

use crate::config::Config;
use crate::error::SetupError;
use crate::phase::{ControllerView, PhaseController};
use crate::requestbuilder::{create_builder, descriptor_of, RequestDescriptor};

verus! {

/// The asynchronous HTTP client of reqwest. Nothing is known of what it
/// holds.
#[verifier::external_type_specification]
#[verifier::external_body]
pub struct ExClient(reqwest::Client);

/// The error type of reqwest. Nothing is known of what it holds.
#[verifier::external_type_specification]
#[verifier::external_body]
pub struct ExError(reqwest::Error);

/// A client of reqwest, and beside it the certificate policy that it was
/// built with.
pub struct BuiltClient {
    client: reqwest::Client,
    accepts_invalid_certs: bool,
}

impl BuiltClient {
    /// The client.
    pub closed spec fn spec_client(&self) -> reqwest::Client {
        self.client
    }

    /// Whether the client was built to accept invalid certificates.
    pub closed spec fn spec_accepts_invalid_certs(&self) -> bool {
        self.accepts_invalid_certs
    }

    /// The client.
    pub fn client(&self) -> (client: &reqwest::Client)
        ensures
            *client == self.spec_client(),
    {
        &self.client
    }

    /// Whether the client was built to accept invalid certificates.
    #[verifier::when_used_as_spec(spec_accepts_invalid_certs)]
    pub fn accepts_invalid_certs(&self) -> (accepts: bool)
        ensures
            accepts == self.spec_accepts_invalid_certs(),
    {
        self.accepts_invalid_certs
    }
}

/// Builds a client with `Client::builder`, `danger_accept_invalid_certs`
/// and `build` of reqwest. The builder keeps the flag it is handed and
/// passes it on to the TLS backend, so a client that comes back was built
/// with the policy asked for, which is recorded beside it. Whether a
/// client comes back depends on the TLS backend of the machine: of that
/// nothing is promised.
#[verifier::external_body]
fn build_client(accept_invalid_certs: bool) -> (built: Result<BuiltClient, reqwest::Error>)
    ensures
        built matches Ok(b) ==> b.spec_accepts_invalid_certs() == accept_invalid_certs,
{
    match reqwest::Client::builder().danger_accept_invalid_certs(accept_invalid_certs).build() {
        Ok(client) => Ok(BuiltClient { client, accepts_invalid_certs: accept_invalid_certs }),
        Err(error) => Err(error),
    }
}

/// The text that reqwest's `Error` displays. Nothing is promised of it.
#[verifier::external_body]
fn error_text(error: &reqwest::Error) -> (text: String) {
    format!("{}", error)
}

/// A configuration that a run can start from, and the client to send
/// with.
pub struct ConnSaturator {
    config: Config,
    built: BuiltClient,
}

impl ConnSaturator {
    /// The configuration of the saturator.
    pub closed spec fn spec_config(&self) -> Config {
        self.config
    }

    /// The client of the saturator, with the policy it was built with.
    pub closed spec fn spec_built(&self) -> BuiltClient {
        self.built
    }

    #[verifier::type_invariant]
    spec fn admits_requests(&self) -> bool {
        self.config.concurrency >= 1
    }

    /// Puts a configuration and the result of building a client together:
    /// the client as it was built, or the text of the error that building
    /// it gave. A concurrency of zero is refused before the client is
    /// looked at; a client that could not be built is reported with that
    /// text.
    pub fn with_client(config: Config, built: Result<BuiltClient, String>) -> (made: Result<
        ConnSaturator,
        SetupError,
    >)
        ensures
            config.concurrency == 0 ==> made matches Err(SetupError::ZeroConcurrency),
            config.concurrency > 0 ==> match built {
                Ok(client) => made matches Ok(s) && s.spec_config() == config && s.spec_built()
                    == client,
                Err(reason) => made matches Err(SetupError::Client(text)) && text == reason,
            },
    {
        if config.concurrency == 0 {
            return Err(SetupError::ZeroConcurrency);
        }
        match built {
            Ok(client) => Ok(ConnSaturator { config, built: client }),
            Err(reason) => Err(SetupError::Client(reason)),
        }
    }

    /// Checks the configuration and builds the client. A concurrency of
    /// zero is a configuration error, found before any client is built;
    /// beyond that the outcome is that of building a client that accepts
    /// invalid certificates exactly where the configuration is insecure.
    pub fn new(config: Config) -> (made: Result<ConnSaturator, SetupError>)
        ensures
            config.concurrency == 0 <==> made matches Err(SetupError::ZeroConcurrency),
            made matches Ok(s) ==> s.spec_config() == config
                && s.spec_built().spec_accepts_invalid_certs() == config.insecure,
    {
        if config.concurrency == 0 {
            return Err(SetupError::ZeroConcurrency);
        }
        let built = match build_client(config.insecure) {
            Ok(client) => Ok(client),
            Err(error) => Err(error_text(&error)),
        };
        ConnSaturator::with_client(config, built)
    }

    /// The configuration.
    pub fn config(&self) -> (config: &Config)
        ensures
            *config == self.spec_config(),
            config.concurrency >= 1,
    {
        proof {
            use_type_invariant(self);
        }
        &self.config
    }

    /// The client to send the requests with.
    pub fn client(&self) -> (client: &reqwest::Client)
        ensures
            *client == self.spec_built().spec_client(),
    {
        self.built.client()
    }

    /// Whether the client accepts invalid certificates.
    pub fn accepts_invalid_certs(&self) -> (accepts: bool)
        ensures
            accepts == self.spec_built().spec_accepts_invalid_certs(),
    {
        self.built.accepts_invalid_certs()
    }

    /// The request that every unit of the run sends.
    pub fn request(&self) -> (descriptor: RequestDescriptor)
        ensures
            descriptor@ == descriptor_of(self.spec_config()@),
    {
        create_builder(&self.config)
    }

    /// A controller for one run of this configuration, before anything
    /// was started: the warm-up batch first, then the measured batch, both
    /// under the configured concurrency.
    pub fn controller(&self) -> (controller: PhaseController)
        ensures
            controller.wf(),
            controller@ == ControllerView::initial(
                self.spec_config()@.warmup_requests(),
                self.spec_config()@.requests,
                self.spec_config()@.concurrency,
            ),
    {
        proof {
            use_type_invariant(self);
        }
        PhaseController::new(
            self.config.warmup_requests(),
            self.config.requests,
            self.config.concurrency,
        ).unwrap()
    }
}

} // verus!
