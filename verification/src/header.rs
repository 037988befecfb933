//! A custom request header, given as `name:value`.

use vstd::prelude::*;

use crate::text::{split_at_first, split_once};

verus! {

/// The longest header name, in characters.
pub const MAX_HEADER_NAME_LEN: usize = 65535;

/// Whether `c` may stand in a header name: a letter, a digit, or one of
/// the marks that HTTP allows in a token.
pub open spec fn is_token_char(c: char) -> bool {
    ||| 'a' <= c <= 'z'
    ||| 'A' <= c <= 'Z'
    ||| '0' <= c <= '9'
    ||| c == '!'
    ||| c == '#'
    ||| c == '$'
    ||| c == '%'
    ||| c == '&'
    ||| c == '\''
    ||| c == '*'
    ||| c == '+'
    ||| c == '-'
    ||| c == '.'
    ||| c == '^'
    ||| c == '_'
    ||| c == '`'
    ||| c == '|'
    ||| c == '~'
}

/// Whether the text is a header name: a token that is not empty and not
/// longer than `MAX_HEADER_NAME_LEN`.
pub open spec fn is_header_name(name: Seq<char>) -> bool {
    &&& 1 <= name.len() <= MAX_HEADER_NAME_LEN
    &&& forall|i: int| 0 <= i < name.len() ==> is_token_char(#[trigger] name[i])
}

/// The lower-case form of an ASCII capital; any other character itself.
pub open spec fn ascii_lower(c: char) -> char {
    if 'A' <= c <= 'Z' {
        ((c as u8) + 32) as char
    } else {
        c
    }
}

/// The text with every ASCII capital in lower case.
pub open spec fn lower_cased(text: Seq<char>) -> Seq<char> {
    Seq::new(text.len(), |i: int| ascii_lower(text[i]))
}

/// Whether `c` may stand in a header value: anything but a control
/// character, with the tab allowed.
pub open spec fn is_value_char(c: char) -> bool {
    (c as u32 >= 32 && c as u32 != 127) || c == '\t'
}

/// Whether the text is a header value.
pub open spec fn is_header_value(value: Seq<char>) -> bool {
    forall|i: int| 0 <= i < value.len() ==> is_value_char(#[trigger] value[i])
}

/// Parses a header name with `HeaderName::from_str` of the HTTP types that
/// reqwest re-exports, and hands back its text. The parser accepts
/// exactly the tokens of 1 to `MAX_HEADER_NAME_LEN` characters and
/// normalises them to lower case.
#[verifier::external_body]
fn header_name_text(name: &str) -> (text: Option<String>)
    ensures
        text is Some <==> is_header_name(name@),
        text matches Some(t) ==> t@ == lower_cased(name@),
{
    match <reqwest::header::HeaderName as std::str::FromStr>::from_str(name) {
        Ok(parsed) => Some(parsed.as_str().to_string()),
        Err(_) => None,
    }
}

/// Asks `HeaderValue::from_str` of the HTTP types that reqwest re-exports
/// whether it accepts a text as a header value. It accepts a text whose
/// bytes are all 32 or more and not 127, or the tab; the bytes of a
/// character beyond ASCII are all 128 or more.
#[verifier::external_body]
pub(crate) fn header_value_accepted(value: &str) -> (accepted: bool)
    ensures
        accepted == is_header_value(value@),
{
    reqwest::header::HeaderValue::from_str(value).is_ok()
}

/// A header to add to every request: a valid name in lower case, and a
/// valid value.
#[derive(Clone, Debug)]
pub struct CustomHeaders {
    pub name: String,
    pub value: String,
}

/// A custom header, as mathematical values.
pub struct HeaderView {
    pub name: Seq<char>,
    pub value: Seq<char>,
}

impl View for CustomHeaders {
    type V = HeaderView;

    open spec fn view(&self) -> HeaderView {
        HeaderView { name: self.name@, value: self.value@ }
    }
}

impl HeaderView {
    /// The name is a header name in lower case, the value a header value.
    pub open spec fn valid(self) -> bool {
        &&& is_header_name(self.name)
        &&& self.name == lower_cased(self.name)
        &&& is_header_value(self.value)
    }
}

/// Lower-casing keeps a header name one, and changes nothing when done
/// again.
pub proof fn lemma_lower_cased_name(name: Seq<char>)
    requires
        is_header_name(name),
    ensures
        is_header_name(lower_cased(name)),
        lower_cased(lower_cased(name)) == lower_cased(name),
{
    let lowered = lower_cased(name);
    assert forall|i: int| 0 <= i < lowered.len() implies is_token_char(#[trigger] lowered[i]) by {
        assert(is_token_char(name[i]));
    }
    assert(lower_cased(lowered) =~= lowered);
}

impl CustomHeaders {
    /// What `parse_header` makes of an entry.
    pub open spec fn spec_parse_header(entry: Seq<char>) -> Result<HeaderView, Seq<char>> {
        match split_at_first(entry, ':') {
            None => Err("Invalid header entry format"@),
            Some((name, value)) => if !is_header_name(name) {
                Err("Invalid header name"@)
            } else if !is_header_value(value) {
                Err("Invalid header value"@)
            } else {
                Ok(HeaderView { name: lower_cased(name), value })
            },
        }
    }

    /// Parses `name:value`. The entry is split at its first colon; the
    /// name has to be a header name and is kept in lower case, the value
    /// has to be a header value and is kept as it is written, spaces
    /// included.
    pub fn parse_header(header_entry: &str) -> (parsed: Result<CustomHeaders, String>)
        ensures
            match parsed {
                Ok(header) => CustomHeaders::spec_parse_header(header_entry@) == Ok::<
                    HeaderView,
                    Seq<char>,
                >(header@) && header@.valid(),
                Err(message) => CustomHeaders::spec_parse_header(header_entry@) == Err::<
                    HeaderView,
                    Seq<char>,
                >(message@),
            },
    {
        let (name, value) = match split_once(header_entry, ':') {
            None => {
                return Err(String::from_str("Invalid header entry format"));
            },
            Some(parts) => parts,
        };
        let name = match header_name_text(name.as_str()) {
            None => {
                return Err(String::from_str("Invalid header name"));
            },
            Some(text) => text,
        };
        if !header_value_accepted(value.as_str()) {
            return Err(String::from_str("Invalid header value"));
        }
        proof {
            let parts = split_at_first(header_entry@, ':').unwrap();
            let (written, _) = parts;
            lemma_lower_cased_name(written);
        }
        Ok(CustomHeaders { name, value })
    }
}

} // verus!
