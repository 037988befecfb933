//! What one request of a run looks like, derived from the configuration.

use vstd::prelude::*;

use crate::auth::{AuthMethods, AuthView};
use crate::config::{text_view, Config, ConfigView, HttpMethods};
use crate::header::{header_value_accepted, is_header_value, HeaderView};

verus! {

/// A header of a request.
#[derive(Clone, Debug)]
pub struct RequestHeader {
    pub name: String,
    pub value: String,
}

impl View for RequestHeader {
    type V = HeaderView;

    open spec fn view(&self) -> HeaderView {
        HeaderView { name: self.name@, value: self.value@ }
    }
}

/// The credentials that go into the `Authorization` header.
#[derive(Clone, Debug)]
pub enum Authorization {
    Bearer(String),
    Basic { username: String, password: String },
}

/// Credentials, as mathematical values.
pub enum AuthorizationView {
    Bearer(Seq<char>),
    Basic { username: Seq<char>, password: Seq<char> },
}

impl View for Authorization {
    type V = AuthorizationView;

    open spec fn view(&self) -> AuthorizationView {
        match self {
            Authorization::Bearer(token) => AuthorizationView::Bearer(token@),
            Authorization::Basic { username, password } => AuthorizationView::Basic {
                username: username@,
                password: password@,
            },
        }
    }
}

/// Everything the transport needs to send one request: the credentials
/// are applied first, then the headers in their order.
#[derive(Clone, Debug)]
pub struct RequestDescriptor {
    pub method: HttpMethods,
    pub url: String,
    pub authorization: Option<Authorization>,
    pub body: Option<String>,
    /// The timeout of the request, in seconds.
    pub timeout: u64,
    pub headers: Vec<RequestHeader>,
}

/// A request descriptor, as mathematical values.
#[verifier::ext_equal]
pub struct DescriptorView {
    pub method: HttpMethods,
    pub url: Seq<char>,
    pub authorization: Option<AuthorizationView>,
    pub body: Option<Seq<char>>,
    pub timeout: nat,
    pub headers: Seq<HeaderView>,
}

/// The views of a list of headers.
pub open spec fn headers_view(headers: Seq<RequestHeader>) -> Seq<HeaderView> {
    Seq::new(headers.len(), |i: int| headers[i]@)
}

impl View for RequestDescriptor {
    type V = DescriptorView;

    open spec fn view(&self) -> DescriptorView {
        DescriptorView {
            method: self.method,
            url: self.url@,
            authorization: match self.authorization {
                Some(a) => Some(a@),
                None => None,
            },
            body: text_view(self.body),
            timeout: self.timeout as nat,
            headers: headers_view(self.headers@),
        }
    }
}

/// The credentials that an authentication method puts into the
/// `Authorization` header: a bearer token for `Bearer` and for `OAuth2`,
/// whose access token it is; name and password for `Basic`; none for an
/// API key, which travels in a header of its own.
pub open spec fn authorization_of(token: Option<AuthView>) -> Option<AuthorizationView> {
    match token {
        Some(AuthView::Bearer(t)) => Some(AuthorizationView::Bearer(t)),
        Some(AuthView::OAuth2 { config }) => Some(AuthorizationView::Bearer(config.access_token)),
        Some(AuthView::Basic { username, password }) => Some(
            AuthorizationView::Basic { username, password },
        ),
        Some(AuthView::APIKey { .. }) => None,
        None => None,
    }
}

/// The header that carries an API key, if the method is one.
pub open spec fn api_key_headers(token: Option<AuthView>) -> Seq<HeaderView> {
    match token {
        Some(AuthView::APIKey { key }) => seq![HeaderView { name: "x-api-key"@, value: key }],
        _ => Seq::empty(),
    }
}

/// The configured custom header, if there is one.
pub open spec fn custom_headers(header: Option<HeaderView>) -> Seq<HeaderView> {
    match header {
        Some(h) => seq![h],
        None => Seq::empty(),
    }
}

/// The header that names the user agent, if one is configured.
pub open spec fn user_agent_headers(user_agent: Option<Seq<char>>) -> Seq<HeaderView> {
    match user_agent {
        Some(agent) => seq![HeaderView { name: "user-agent"@, value: agent }],
        None => Seq::empty(),
    }
}

/// The content type that is sent: the configured one where it is a
/// header value, else `application/json`.
pub open spec fn content_type_sent(content_type: Seq<char>) -> Seq<char> {
    if is_header_value(content_type) {
        content_type
    } else {
        "application/json"@
    }
}

/// The header that states the content type: every method but `Get` has
/// one.
pub open spec fn content_type_headers(method: HttpMethods, content_type: Seq<char>) -> Seq<
    HeaderView,
> {
    if method == HttpMethods::Get {
        Seq::empty()
    } else {
        seq![HeaderView { name: "content-type"@, value: content_type_sent(content_type) }]
    }
}

/// The request that a configuration asks for.
pub open spec fn descriptor_of(config: ConfigView) -> DescriptorView {
    DescriptorView {
        method: config.method,
        url: config.url,
        authorization: authorization_of(config.token),
        body: config.body,
        timeout: config.timeout,
        headers: api_key_headers(config.token) + custom_headers(config.header)
            + user_agent_headers(config.user_agent) + content_type_headers(
            config.method,
            config.content_type,
        ),
    }
}

/// A copy of a text that may be absent.
fn copy_text(text: &Option<String>) -> (copy: Option<String>)
    ensures
        text_view(copy) == text_view(*text),
{
    match text {
        Some(t) => Some(t.clone()),
        None => None,
    }
}

/// Describes the request of a run: method and URL; the credentials or the
/// API key header; the body; the timeout; the custom header; the user
/// agent; and, for every method but `Get`, the content type.
pub fn create_builder(config: &Config) -> (descriptor: RequestDescriptor)
    ensures
        descriptor@ == descriptor_of(config@),
{
    let mut headers: Vec<RequestHeader> = Vec::new();
    let authorization = match &config.token {
        Some(AuthMethods::Bearer(token)) => Some(Authorization::Bearer(token.clone())),
        Some(AuthMethods::OAuth2 { config: oauth }) => Some(
            Authorization::Bearer(oauth.access_token.clone()),
        ),
        Some(AuthMethods::Basic { username, password }) => Some(
            Authorization::Basic { username: username.clone(), password: password.clone() },
        ),
        Some(AuthMethods::APIKey { key }) => {
            headers.push(RequestHeader { name: String::from_str("x-api-key"), value: key.clone() });
            None
        },
        None => None,
    };
    assert(headers_view(headers@) =~= api_key_headers(config@.token));
    match &config.header {
        Some(header) => {
            headers.push(RequestHeader { name: header.name.clone(), value: header.value.clone() });
        },
        None => {},
    }
    assert(headers_view(headers@) =~= api_key_headers(config@.token) + custom_headers(
        config@.header,
    ));
    match &config.user_agent {
        Some(agent) => {
            headers.push(
                RequestHeader { name: String::from_str("user-agent"), value: agent.clone() },
            );
        },
        None => {},
    }
    assert(headers_view(headers@) =~= api_key_headers(config@.token) + custom_headers(
        config@.header,
    ) + user_agent_headers(config@.user_agent));
    if config.method != HttpMethods::Get {
        let value = if header_value_accepted(config.content_type.as_str()) {
            config.content_type.clone()
        } else {
            String::from_str("application/json")
        };
        headers.push(RequestHeader { name: String::from_str("content-type"), value });
    }
    assert(headers_view(headers@) =~= descriptor_of(config@).headers);
    RequestDescriptor {
        method: config.method,
        url: config.url.clone(),
        authorization,
        body: copy_text(&config.body),
        timeout: config.timeout,
        headers,
    }
}

} // verus!
