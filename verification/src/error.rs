//! Error taxonomy of the parser: a closed tagged union so that callers can
//! branch on the kind of failure programmatically.

use vstd::prelude::*;

verus! {

/// The first problem a parse run encountered, in document order.
#[derive(Debug)]
pub enum ParserError {
    /// The input ended while more content was structurally required
    /// (an unterminated component).
    EndOfStream,
    /// A content line violates the lexical rules; the payload names the rule.
    InvalidContentLine(&'static str),
    /// An `END` marker does not match the innermost open component: the first
    /// string is the type of the component that was open (empty when none
    /// was), the second is the value of the `END` line.
    MismatchedComponent(String, String),
    /// Reserved for conditions not covered by the kinds above.
    Generic(&'static str),
}

/// The mathematical shape of a `ParserError`: each payload as its
/// sequence of characters.
pub enum ErrV {
    EndOfStream,
    InvalidContentLine(Seq<char>),
    MismatchedComponent(Seq<char>, Seq<char>),
    Generic(Seq<char>),
}

impl View for ParserError {
    type V = ErrV;

    open spec fn view(&self) -> ErrV {
        match self {
            ParserError::EndOfStream => ErrV::EndOfStream,
            ParserError::InvalidContentLine(m) => ErrV::InvalidContentLine(m@),
            ParserError::MismatchedComponent(e, f) => ErrV::MismatchedComponent(e@, f@),
            ParserError::Generic(m) => ErrV::Generic(m@),
        }
    }
}

pub open spec fn msg_no_separator() -> Seq<char> {
    "no value separator found"@
}

pub open spec fn msg_invalid_name() -> Seq<char> {
    "invalid property name"@
}

pub open spec fn msg_malformed_parameter() -> Seq<char> {
    "malformed parameter"@
}

pub open spec fn msg_unterminated_quote() -> Seq<char> {
    "unterminated quoted value"@
}

pub open spec fn msg_invalid_escape() -> Seq<char> {
    "invalid escape sequence"@
}

pub open spec fn msg_property_outside() -> Seq<char> {
    "property outside any component"@
}

pub open spec fn msg_empty_document() -> Seq<char> {
    "empty document"@
}

pub open spec fn msg_bad_root() -> Seq<char> {
    "root component is not VCALENDAR"@
}

pub open spec fn err_no_separator() -> ErrV {
    ErrV::InvalidContentLine(msg_no_separator())
}

pub open spec fn err_invalid_name() -> ErrV {
    ErrV::InvalidContentLine(msg_invalid_name())
}

pub open spec fn err_malformed_parameter() -> ErrV {
    ErrV::InvalidContentLine(msg_malformed_parameter())
}

pub open spec fn err_unterminated_quote() -> ErrV {
    ErrV::InvalidContentLine(msg_unterminated_quote())
}

pub open spec fn err_invalid_escape() -> ErrV {
    ErrV::InvalidContentLine(msg_invalid_escape())
}

pub open spec fn err_property_outside() -> ErrV {
    ErrV::InvalidContentLine(msg_property_outside())
}

pub open spec fn err_empty_document() -> ErrV {
    ErrV::InvalidContentLine(msg_empty_document())
}

pub open spec fn err_bad_root() -> ErrV {
    ErrV::InvalidContentLine(msg_bad_root())
}

impl ParserError {
    pub fn invalid_no_separator() -> (e: ParserError)
        ensures
            e@ == err_no_separator(),
    {
        ParserError::InvalidContentLine("no value separator found")
    }

    pub fn invalid_name() -> (e: ParserError)
        ensures
            e@ == err_invalid_name(),
    {
        ParserError::InvalidContentLine("invalid property name")
    }

    pub fn malformed_parameter() -> (e: ParserError)
        ensures
            e@ == err_malformed_parameter(),
    {
        ParserError::InvalidContentLine("malformed parameter")
    }

    pub fn unterminated_quote() -> (e: ParserError)
        ensures
            e@ == err_unterminated_quote(),
    {
        ParserError::InvalidContentLine("unterminated quoted value")
    }

    pub fn invalid_escape() -> (e: ParserError)
        ensures
            e@ == err_invalid_escape(),
    {
        ParserError::InvalidContentLine("invalid escape sequence")
    }

    pub fn property_outside() -> (e: ParserError)
        ensures
            e@ == err_property_outside(),
    {
        ParserError::InvalidContentLine("property outside any component")
    }

    pub fn empty_document() -> (e: ParserError)
        ensures
            e@ == err_empty_document(),
    {
        ParserError::InvalidContentLine("empty document")
    }

    pub fn bad_root() -> (e: ParserError)
        ensures
            e@ == err_bad_root(),
    {
        ParserError::InvalidContentLine("root component is not VCALENDAR")
    }
}

/// What `ParserError::description` returns for each error value.
pub open spec fn spec_description(e: ErrV) -> Seq<char> {
    match e {
        ErrV::EndOfStream => "unexpected end of stream"@,
        ErrV::InvalidContentLine(m) => m,
        ErrV::MismatchedComponent(exp, found) => "mismatched component: expected "@ + exp
            + ", found "@ + found,
        ErrV::Generic(m) => m,
    }
}

impl ParserError {
    /// A human-readable description of the error.
    pub fn description(&self) -> (r: String)
        ensures
            r@ == spec_description(self@),
    {
        match self {
            ParserError::EndOfStream => String::from_str("unexpected end of stream"),
            ParserError::InvalidContentLine(m) => String::from_str(m),
            ParserError::MismatchedComponent(exp, found) => {
                let r = String::from_str("mismatched component: expected ").concat(
                    exp.as_str(),
                ).concat(", found ").concat(found.as_str());
                proof {
                    assert(r@ == spec_description(self@));
                }
                r
            },
            ParserError::Generic(m) => String::from_str(m),
        }
    }
}

/// `std::io::Error`, declared so that a value of it can stand in a field;
/// the library never looks inside one.
#[verifier::external_type_specification]
#[verifier::external_body]
pub struct ExIoError(std::io::Error);

/// An error of the calendar-loading surface: the file could not be read,
/// or its text could not be parsed.
#[derive(Debug)]
pub enum CalendarError {
    Io(std::io::Error),
    Parser(ParserError),
}

impl From<std::io::Error> for CalendarError {
    fn from(err: std::io::Error) -> (r: CalendarError) {
        CalendarError::Io(err)
    }
}

impl vstd::std_specs::convert::FromSpecImpl<std::io::Error> for CalendarError {
    open spec fn obeys_from_spec() -> bool {
        true
    }

    open spec fn from_spec(t: std::io::Error) -> CalendarError {
        CalendarError::Io(t)
    }
}

impl From<ParserError> for CalendarError {
    fn from(err: ParserError) -> (r: CalendarError) {
        CalendarError::Parser(err)
    }
}

impl vstd::std_specs::convert::FromSpecImpl<ParserError> for CalendarError {
    open spec fn obeys_from_spec() -> bool {
        true
    }

    open spec fn from_spec(t: ParserError) -> CalendarError {
        CalendarError::Parser(t)
    }
}

} // verus!
