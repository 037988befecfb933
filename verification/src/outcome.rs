//! The classified result of one request attempt.

use vstd::prelude::*;

verus! {

/// Whether an HTTP status code belongs to the 2xx class.
pub open spec fn is_success_status(status: u16) -> bool {
    200 <= status < 300
}

/// Tells whether a response with this status code counts as a success.
#[verifier::when_used_as_spec(is_success_status)]
pub fn status_is_success(status: u16) -> (ok: bool)
    ensures
        ok == is_success_status(status),
{
    200 <= status && status < 300
}

/// The character that writes the decimal digit `d`.
pub open spec fn digit_char(d: nat) -> char {
    if d == 0 {
        '0'
    } else if d == 1 {
        '1'
    } else if d == 2 {
        '2'
    } else if d == 3 {
        '3'
    } else if d == 4 {
        '4'
    } else if d == 5 {
        '5'
    } else if d == 6 {
        '6'
    } else if d == 7 {
        '7'
    } else if d == 8 {
        '8'
    } else {
        '9'
    }
}

/// The decimal numeral of `n`, without leading zeros.
pub open spec fn decimal_text(n: nat) -> Seq<char>
    decreases n,
{
    if n < 10 {
        seq![digit_char(n)]
    } else {
        decimal_text(n / 10).push(digit_char(n % 10))
    }
}

/// The numeral of a single decimal digit.
fn digit_str(d: u16) -> (s: &'static str)
    requires
        d < 10,
    ensures
        s@ == seq![digit_char(d as nat)],
{
    proof {
        reveal_strlit("0");
        reveal_strlit("1");
        reveal_strlit("2");
        reveal_strlit("3");
        reveal_strlit("4");
        reveal_strlit("5");
        reveal_strlit("6");
        reveal_strlit("7");
        reveal_strlit("8");
        reveal_strlit("9");
    }
    let s = if d == 0 {
        "0"
    } else if d == 1 {
        "1"
    } else if d == 2 {
        "2"
    } else if d == 3 {
        "3"
    } else if d == 4 {
        "4"
    } else if d == 5 {
        "5"
    } else if d == 6 {
        "6"
    } else if d == 7 {
        "7"
    } else if d == 8 {
        "8"
    } else {
        "9"
    };
    assert(s@ =~= seq![digit_char(d as nat)]);
    s
}

/// Writes a status code as a decimal numeral.
pub fn status_code_text(code: u16) -> (s: String)
    ensures
        s@ == decimal_text(code as nat),
    decreases code,
{
    if code < 10 {
        String::from_str(digit_str(code))
    } else {
        let mut s = status_code_text(code / 10);
        s.append(digit_str(code % 10));
        s
    }
}

/// The key under which an outcome is counted in the status distribution.
#[derive(Clone, Copy, Debug, PartialEq, Eq, Structural)]
pub enum StatusLabel {
    /// A response arrived and carried this status code.
    Code(u16),
    /// No response arrived: the connection, the timeout or TLS failed.
    NetworkError,
    /// The unit of work that ran the request aborted.
    TaskError,
}

impl StatusLabel {
    /// The text under which the label is reported.
    pub open spec fn spec_text(self) -> Seq<char> {
        match self {
            StatusLabel::Code(code) => decimal_text(code as nat),
            StatusLabel::NetworkError => "Network Error"@,
            StatusLabel::TaskError => "Task Error"@,
        }
    }

    /// Renders the label: the decimal status code, or the name of the
    /// synthetic label.
    pub fn text(self) -> (s: String)
        ensures
            s@ == self.spec_text(),
    {
        match self {
            StatusLabel::Code(code) => status_code_text(code),
            StatusLabel::NetworkError => String::from_str("Network Error"),
            StatusLabel::TaskError => String::from_str("Task Error"),
        }
    }
}

/// What the transport reports of a response that arrived.
#[derive(Clone, Copy, Debug, PartialEq, Eq, Structural)]
pub struct ResponseMeta {
    pub status_code: u16,
    /// The payload length, where the response reported one.
    pub content_length: Option<u64>,
}

/// The transport gave up before a response arrived.
#[derive(Clone, Copy, Debug, PartialEq, Eq, Structural)]
pub struct TransportError;

/// The classified result of one request. Latencies are in milliseconds,
/// sizes in bytes.
#[derive(Clone, Copy, Debug, PartialEq, Eq, Structural)]
pub enum Outcome {
    Success { status_code: u16, latency: u64, byte_size: u64 },
    HttpFailure { status_code: u16, latency: u64, byte_size: u64 },
    NetworkFailure,
    TaskFailure,
}

impl Outcome {
    /// The outcome that stands for a received response: a success when the
    /// status is 2xx, an HTTP failure otherwise; an unreported payload
    /// length counts as zero bytes.
    pub open spec fn spec_from_response(meta: ResponseMeta, latency: u64) -> Outcome {
        let byte_size = match meta.content_length {
            Some(n) => n,
            None => 0u64,
        };
        if is_success_status(meta.status_code) {
            Outcome::Success { status_code: meta.status_code, latency, byte_size }
        } else {
            Outcome::HttpFailure { status_code: meta.status_code, latency, byte_size }
        }
    }

    /// The outcome of one request cycle, given what the transport returned
    /// and the time it took.
    pub open spec fn spec_from_result(
        result: Result<ResponseMeta, TransportError>,
        latency: u64,
    ) -> Outcome {
        match result {
            Ok(meta) => Outcome::spec_from_response(meta, latency),
            Err(_) => Outcome::NetworkFailure,
        }
    }

    /// Whether the outcome counts towards the success counter.
    pub open spec fn spec_is_success(&self) -> bool {
        self is Success
    }

    /// The latency sample that the outcome carries, if any.
    pub open spec fn spec_latency(&self) -> Option<u64> {
        match *self {
            Outcome::Success { latency, .. } => Some(latency),
            Outcome::HttpFailure { latency, .. } => Some(latency),
            Outcome::NetworkFailure => None,
            Outcome::TaskFailure => None,
        }
    }

    /// The number of payload bytes that the outcome carries.
    pub open spec fn spec_byte_size(&self) -> u64 {
        match *self {
            Outcome::Success { byte_size, .. } => byte_size,
            Outcome::HttpFailure { byte_size, .. } => byte_size,
            Outcome::NetworkFailure => 0,
            Outcome::TaskFailure => 0,
        }
    }

    /// The label under which the outcome is counted.
    pub open spec fn spec_label(&self) -> StatusLabel {
        match *self {
            Outcome::Success { status_code, .. } => StatusLabel::Code(status_code),
            Outcome::HttpFailure { status_code, .. } => StatusLabel::Code(status_code),
            Outcome::NetworkFailure => StatusLabel::NetworkError,
            Outcome::TaskFailure => StatusLabel::TaskError,
        }
    }

    /// Whether the variant agrees with the class of its status code.
    pub open spec fn well_classified(self) -> bool {
        match self {
            Outcome::Success { status_code, .. } => is_success_status(status_code),
            Outcome::HttpFailure { status_code, .. } => !is_success_status(status_code),
            Outcome::NetworkFailure => true,
            Outcome::TaskFailure => true,
        }
    }

    /// Classifies a received response.
    #[verifier::when_used_as_spec(spec_from_response)]
    pub fn from_response(meta: ResponseMeta, latency: u64) -> (outcome: Outcome)
        ensures
            outcome == Outcome::spec_from_response(meta, latency),
            outcome.well_classified(),
    {
        let byte_size = match meta.content_length {
            Some(n) => n,
            None => 0,
        };
        if status_is_success(meta.status_code) {
            Outcome::Success { status_code: meta.status_code, latency, byte_size }
        } else {
            Outcome::HttpFailure { status_code: meta.status_code, latency, byte_size }
        }
    }

    /// Classifies what the transport returned for one request: a response
    /// by its status class, a transport error as a network failure.
    #[verifier::when_used_as_spec(spec_from_result)]
    pub fn from_result(result: Result<ResponseMeta, TransportError>, latency: u64) -> (outcome:
        Outcome)
        ensures
            outcome == Outcome::spec_from_result(result, latency),
            outcome.well_classified(),
            !(outcome is TaskFailure),
    {
        match result {
            Ok(meta) => Outcome::from_response(meta, latency),
            Err(_) => Outcome::NetworkFailure,
        }
    }

    /// Tells whether the variant agrees with the class of its status code.
    pub fn is_well_classified(&self) -> (ok: bool)
        ensures
            ok == self.well_classified(),
    {
        match self {
            Outcome::Success { status_code, .. } => status_is_success(*status_code),
            Outcome::HttpFailure { status_code, .. } => !status_is_success(*status_code),
            _ => true,
        }
    }

    #[verifier::when_used_as_spec(spec_is_success)]
    pub fn is_success(&self) -> (b: bool)
        ensures
            b == self.spec_is_success(),
    {
        match self {
            Outcome::Success { .. } => true,
            _ => false,
        }
    }

    #[verifier::when_used_as_spec(spec_latency)]
    pub fn latency(&self) -> (l: Option<u64>)
        ensures
            l == self.spec_latency(),
    {
        match self {
            Outcome::Success { latency, .. } => Some(*latency),
            Outcome::HttpFailure { latency, .. } => Some(*latency),
            _ => None,
        }
    }

    #[verifier::when_used_as_spec(spec_byte_size)]
    pub fn byte_size(&self) -> (n: u64)
        ensures
            n == self.spec_byte_size(),
    {
        match self {
            Outcome::Success { byte_size, .. } => *byte_size,
            Outcome::HttpFailure { byte_size, .. } => *byte_size,
            _ => 0,
        }
    }

    #[verifier::when_used_as_spec(spec_label)]
    pub fn label(&self) -> (l: StatusLabel)
        ensures
            l == self.spec_label(),
    {
        match self {
            Outcome::Success { status_code, .. } => StatusLabel::Code(*status_code),
            Outcome::HttpFailure { status_code, .. } => StatusLabel::Code(*status_code),
            Outcome::NetworkFailure => StatusLabel::NetworkError,
            Outcome::TaskFailure => StatusLabel::TaskError,
        }
    }
}

} // verus!
