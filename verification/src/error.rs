//! The ways in which asking for a status report can fail.
use vstd::prelude::*;
use vstd::std_specs::convert::FromSpecImpl;
use vstd::string::StringExecFns;

verus! {

/// Why a field is not a base-10 integer that fits in 64 bits.
#[derive(Clone, Copy, Debug, PartialEq, Eq, Structural)]
pub enum IntError {
    /// The field is empty.
    Empty,
    /// The field holds a character that is no digit, or a sign with no digit after it.
    InvalidDigit,
    /// The number is above the largest `i64`.
    PosOverflow,
    /// The number is below the smallest `i64`.
    NegOverflow,
}

/// Why a field is not a floating-point literal.
#[derive(Clone, Copy, Debug, PartialEq, Eq, Structural)]
pub enum FloatError {
    /// The field is empty.
    Empty,
    /// The field does not follow the grammar of a floating-point literal.
    Invalid,
}

/// `std::io::Error`, kept as the cause of a transport failure. Nothing is said
/// of what a value holds.
#[verifier::external_type_specification]
#[verifier::external_body]
pub struct ExIoError(std::io::Error);

/// A failed request for the server's status.
#[derive(Debug)]
pub enum OpenvpnError {
    /// The connection could not be made, written to or read from.
    Io(std::io::Error),
    /// A field that has to be an integer is none.
    ParseInt(IntError),
    /// A field that has to be a floating-point number is none.
    ParseFloat(FloatError),
    /// A line has too few fields (the line is kept), or the response lacks a
    /// section (the whole response is kept).
    MalformedResponse(String),
    /// The management address names no endpoint.
    MissingURLInput(String),
}

pub type OpenvpnResult<T> = Result<T, OpenvpnError>;

/// An `OpenvpnError` with its texts as sequences of characters.
pub enum Failure {
    Io(std::io::Error),
    ParseInt(IntError),
    ParseFloat(FloatError),
    MalformedResponse(Seq<char>),
    MissingURLInput(Seq<char>),
}

impl View for OpenvpnError {
    type V = Failure;

    open spec fn view(&self) -> Failure {
        match self {
            OpenvpnError::Io(e) => Failure::Io(*e),
            OpenvpnError::ParseInt(k) => Failure::ParseInt(*k),
            OpenvpnError::ParseFloat(k) => Failure::ParseFloat(*k),
            OpenvpnError::MalformedResponse(t) => Failure::MalformedResponse(t@),
            OpenvpnError::MissingURLInput(t) => Failure::MissingURLInput(t@),
        }
    }
}

impl IntError {
    /// The sentence that says what is wrong with the field.
    pub open spec fn text(self) -> Seq<char> {
        match self {
            IntError::Empty => "cannot parse integer from empty string"@,
            IntError::InvalidDigit => "invalid digit found in string"@,
            IntError::PosOverflow => "number too large to fit in target type"@,
            IntError::NegOverflow => "number too small to fit in target type"@,
        }
    }

    /// The sentence that says what is wrong with the field.
    pub fn description(&self) -> (s: &'static str)
        ensures
            s@ == self.text(),
    {
        match self {
            IntError::Empty => "cannot parse integer from empty string",
            IntError::InvalidDigit => "invalid digit found in string",
            IntError::PosOverflow => "number too large to fit in target type",
            IntError::NegOverflow => "number too small to fit in target type",
        }
    }
}

impl FloatError {
    /// The sentence that says what is wrong with the field.
    pub open spec fn text(self) -> Seq<char> {
        match self {
            FloatError::Empty => "cannot parse float from empty string"@,
            FloatError::Invalid => "invalid float literal"@,
        }
    }

    /// The sentence that says what is wrong with the field.
    pub fn description(&self) -> (s: &'static str)
        ensures
            s@ == self.text(),
    {
        match self {
            FloatError::Empty => "cannot parse float from empty string",
            FloatError::Invalid => "invalid float literal",
        }
    }
}

/// What `std::io::Error` prints of itself through `Display`. The text depends on
/// the operating system, so nothing is claimed of it.
#[verifier::external_body]
fn io_error_message(e: &std::io::Error) -> (s: String) {
    e.to_string()
}

/// What `std::error::Error::description` gives for a `std::io::Error`. Nothing
/// is claimed of the text.
#[verifier::external_body]
#[allow(deprecated)]
fn io_error_description(e: &std::io::Error) -> (s: String) {
    std::error::Error::description(e).to_owned()
}

impl OpenvpnError {
    /// The message of an error that this crate itself raises; `None` for a
    /// transport failure, whose text comes from the operating system.
    pub open spec fn message_text(self) -> Option<Seq<char>> {
        match self {
            OpenvpnError::Io(_) => None,
            OpenvpnError::ParseInt(k) => Some(k.text()),
            OpenvpnError::ParseFloat(k) => Some(k.text()),
            OpenvpnError::MalformedResponse(t) => Some(
                "could not parse '"@ + t@ + "' response from openvpn server"@,
            ),
            OpenvpnError::MissingURLInput(t) => Some("could not parse '"@ + t@ + "' as a URL"@),
        }
    }

    /// The short name of the failure; `None` for a transport failure.
    pub open spec fn description_text(self) -> Option<Seq<char>> {
        match self {
            OpenvpnError::Io(_) => None,
            OpenvpnError::ParseInt(k) => Some(k.text()),
            OpenvpnError::ParseFloat(k) => Some(k.text()),
            OpenvpnError::MalformedResponse(_) => Some("malformed response"@),
            OpenvpnError::MissingURLInput(_) => Some("missing url"@),
        }
    }

    /// The error as a sentence for a person to read.
    pub fn message(&self) -> (s: String)
        ensures
            self.message_text() matches Some(t) ==> s@ == t,
    {
        match self {
            OpenvpnError::Io(e) => io_error_message(e),
            OpenvpnError::ParseInt(k) => String::from_str(k.description()),
            OpenvpnError::ParseFloat(k) => String::from_str(k.description()),
            OpenvpnError::MalformedResponse(response) => {
                let mut s = String::from_str("could not parse '");
                s.append(response.as_str());
                s.append("' response from openvpn server");
                s
            },
            OpenvpnError::MissingURLInput(url) => {
                let mut s = String::from_str("could not parse '");
                s.append(url.as_str());
                s.append("' as a URL");
                s
            },
        }
    }

    /// The short name of the failure.
    pub fn description(&self) -> (s: String)
        ensures
            self.description_text() matches Some(t) ==> s@ == t,
    {
        match self {
            OpenvpnError::Io(e) => io_error_description(e),
            OpenvpnError::ParseInt(k) => String::from_str(k.description()),
            OpenvpnError::ParseFloat(k) => String::from_str(k.description()),
            OpenvpnError::MalformedResponse(_) => String::from_str("malformed response"),
            OpenvpnError::MissingURLInput(_) => String::from_str("missing url"),
        }
    }
}

impl From<std::io::Error> for OpenvpnError {
    fn from(err: std::io::Error) -> (e: OpenvpnError) {
        OpenvpnError::Io(err)
    }
}

impl FromSpecImpl<std::io::Error> for OpenvpnError {
    open spec fn obeys_from_spec() -> bool {
        true
    }

    open spec fn from_spec(err: std::io::Error) -> OpenvpnError {
        OpenvpnError::Io(err)
    }
}

impl From<IntError> for OpenvpnError {
    fn from(err: IntError) -> (e: OpenvpnError) {
        OpenvpnError::ParseInt(err)
    }
}

impl FromSpecImpl<IntError> for OpenvpnError {
    open spec fn obeys_from_spec() -> bool {
        true
    }

    open spec fn from_spec(err: IntError) -> OpenvpnError {
        OpenvpnError::ParseInt(err)
    }
}

impl From<FloatError> for OpenvpnError {
    fn from(err: FloatError) -> (e: OpenvpnError) {
        OpenvpnError::ParseFloat(err)
    }
}

impl FromSpecImpl<FloatError> for OpenvpnError {
    open spec fn obeys_from_spec() -> bool {
        true
    }

    open spec fn from_spec(err: FloatError) -> OpenvpnError {
        OpenvpnError::ParseFloat(err)
    }
}

} // verus!
