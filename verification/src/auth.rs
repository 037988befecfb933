//! How a request authenticates, given on the command line as
//! `<scheme> <token>`.

use vstd::prelude::*;

use crate::text::{lowercase, same_text, split_at_first, split_once, unicode_lowercase};

verus! {

/// The five values of an OAuth2 configuration.
#[derive(Clone, Debug)]
pub struct OAuth2Config {
    pub client_id: String,
    pub access_token: String,
    pub refresh_token: String,
    pub scope: String,
    pub token_type: String,
}

/// The way a request authenticates.
#[derive(Clone, Debug)]
pub enum AuthMethods {
    Bearer(String),
    OAuth2 { config: OAuth2Config },
    APIKey { key: String },
    Basic { username: String, password: String },
}

/// An OAuth2 configuration, as mathematical values.
pub struct OAuth2View {
    pub client_id: Seq<char>,
    pub access_token: Seq<char>,
    pub refresh_token: Seq<char>,
    pub scope: Seq<char>,
    pub token_type: Seq<char>,
}

/// An authentication method, as mathematical values.
pub enum AuthView {
    Bearer(Seq<char>),
    OAuth2 { config: OAuth2View },
    APIKey { key: Seq<char> },
    Basic { username: Seq<char>, password: Seq<char> },
}

impl View for OAuth2Config {
    type V = OAuth2View;

    open spec fn view(&self) -> OAuth2View {
        OAuth2View {
            client_id: self.client_id@,
            access_token: self.access_token@,
            refresh_token: self.refresh_token@,
            scope: self.scope@,
            token_type: self.token_type@,
        }
    }
}

impl View for AuthMethods {
    type V = AuthView;

    open spec fn view(&self) -> AuthView {
        match self {
            AuthMethods::Bearer(token) => AuthView::Bearer(token@),
            AuthMethods::OAuth2 { config } => AuthView::OAuth2 { config: config@ },
            AuthMethods::APIKey { key } => AuthView::APIKey { key: key@ },
            AuthMethods::Basic { username, password } => AuthView::Basic {
                username: username@,
                password: password@,
            },
        }
    }
}

/// What a parser of authentication methods returns, as mathematical
/// values.
pub open spec fn parsed_view(parsed: Result<AuthMethods, String>) -> Result<AuthView, Seq<char>> {
    match parsed {
        Ok(method) => Ok(method@),
        Err(message) => Err(message@),
    }
}

impl AuthMethods {
    /// The method that a scheme, written in lower case, and a token stand
    /// for. `bearer`, `oauth2` and `apikey` take the token as it is, an
    /// OAuth2 configuration holding it in each of its values; `basic`
    /// takes it as `username:password`, split at the first colon.
    pub open spec fn spec_from_scheme(scheme: Seq<char>, token: Seq<char>) -> Result<
        AuthView,
        Seq<char>,
    > {
        if scheme == "bearer"@ {
            Ok(AuthView::Bearer(token))
        } else if scheme == "oauth2"@ {
            Ok(
                AuthView::OAuth2 {
                    config: OAuth2View {
                        client_id: token,
                        access_token: token,
                        refresh_token: token,
                        scope: token,
                        token_type: token,
                    },
                },
            )
        } else if scheme == "apikey"@ {
            Ok(AuthView::APIKey { key: token })
        } else if scheme == "basic"@ {
            match split_at_first(token, ':') {
                Some((username, password)) => Ok(AuthView::Basic { username, password }),
                None => Err("Invalid basic token entry format"@),
            }
        } else {
            Err("Invalid token entry format"@)
        }
    }

    /// What `parse_auth` makes of an entry: the entry is split at its
    /// first space, and the part before it names the scheme, in any case.
    pub open spec fn spec_parse_auth(entry: Seq<char>) -> Result<AuthView, Seq<char>> {
        match split_at_first(entry, ' ') {
            Some((scheme, token)) => AuthMethods::spec_from_scheme(unicode_lowercase(scheme), token),
            None => Err("Invalid token entry format"@),
        }
    }

    /// Builds the method that a scheme and a token stand for. The scheme
    /// is matched as it is written: `parse_auth` lowers its case first.
    pub fn from_scheme(scheme: &str, token: &str) -> (parsed: Result<AuthMethods, String>)
        ensures
            parsed_view(parsed) == AuthMethods::spec_from_scheme(scheme@, token@),
    {
        if same_text(scheme, "bearer") {
            Ok(AuthMethods::Bearer(String::from_str(token)))
        } else if same_text(scheme, "oauth2") {
            Ok(
                AuthMethods::OAuth2 {
                    config: OAuth2Config {
                        client_id: String::from_str(token),
                        access_token: String::from_str(token),
                        refresh_token: String::from_str(token),
                        scope: String::from_str(token),
                        token_type: String::from_str(token),
                    },
                },
            )
        } else if same_text(scheme, "apikey") {
            Ok(AuthMethods::APIKey { key: String::from_str(token) })
        } else if same_text(scheme, "basic") {
            match split_once(token, ':') {
                Some((username, password)) => Ok(AuthMethods::Basic { username, password }),
                None => Err(String::from_str("Invalid basic token entry format")),
            }
        } else {
            Err(String::from_str("Invalid token entry format"))
        }
    }

    /// Parses `<scheme> <token>`, where the scheme is one of `bearer`,
    /// `oauth2`, `apikey` and `basic`, in any case.
    pub fn parse_auth(token_entry: &str) -> (parsed: Result<AuthMethods, String>)
        ensures
            parsed_view(parsed) == AuthMethods::spec_parse_auth(token_entry@),
    {
        match split_once(token_entry, ' ') {
            None => Err(String::from_str("Invalid token entry format")),
            Some((scheme, token)) => {
                let lowered = lowercase(scheme.as_str());
                AuthMethods::from_scheme(lowered.as_str(), token.as_str())
            },
        }
    }
}

} // verus!
