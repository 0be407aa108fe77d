//! Strings that are known to be e-mail addresses.

use vstd::prelude::*;
use vstd::std_specs::convert::{FromSpecImpl, TryFromSpecImpl};

verus! {

/// The pattern an e-mail address has to match from its first character on:
/// a local part, an `@`, and a domain that ends in a dot and two to six
/// letters.
pub const EMAIL_RAW_REGEXP: &'static str =
    r"^([a-z0-9_+]([a-z0-9_+.]*[a-z0-9_+])?)@([a-z0-9]+([\-\.]{1}[a-z0-9]+)*\.[a-z]{2,6})";

/// What the regular-expression engine says of a pattern and a text: `None`
/// if the pattern is no regular expression (or too large a one), otherwise
/// whether the pattern matches somewhere in the text.
pub uninterp spec fn pattern_match(pattern: Seq<char>, text: Seq<char>) -> Option<bool>;

/// Compiles `pattern` with `regex::Regex::new` and searches `text` with
/// `Regex::is_match`.
///
/// Not proved: that the answer depends on the pattern and the text alone, so
/// that it can go by the name `pattern_match`. Neither call panics.
#[verifier::external_body]
fn match_pattern(pattern: &str, text: &str) -> (verdict: Option<bool>)
    ensures
        verdict == pattern_match(pattern@, text@),
{
    match regex::Regex::new(pattern) {
        Ok(regex) => Some(regex.is_match(text)),
        Err(_) => None,
    }
}

/// Whether `text` is accepted as an e-mail address.
pub open spec fn is_email(text: Seq<char>) -> bool {
    pattern_match(EMAIL_RAW_REGEXP@, text) == Some(true)
}

/// A string that was accepted as an e-mail address.
#[derive(Debug, Clone, PartialEq, Eq, Hash)]
pub struct EmailString(String);

/// The error for a string that is no e-mail address.
#[derive(Debug, Clone)]
pub struct InvalidEmailFormat;

impl View for EmailString {
    type V = Seq<char>;

    closed spec fn view(&self) -> Seq<char> {
        self.0@
    }
}

impl EmailString {
    /// The address that consists of the text `value`.
    pub closed spec fn wrap(value: String) -> EmailString {
        EmailString(value)
    }

    /// An address reads as the text it was made of.
    pub proof fn lemma_wrap_view(value: String)
        ensures
            EmailString::wrap(value)@ == value@,
    {
    }

    /// Wraps `value` if the engine's `verdict` on it is a match, and refuses
    /// it on any other verdict.
    pub fn accept(value: String, verdict: Option<bool>) -> (email: Result<
        Self,
        InvalidEmailFormat,
    >)
        ensures
            email == if verdict == Some(true) {
                Ok::<Self, InvalidEmailFormat>(EmailString::wrap(value))
            } else {
                Err::<Self, InvalidEmailFormat>(InvalidEmailFormat)
            },
    {
        match verdict {
            Some(true) => Ok(EmailString(value)),
            _ => Err(InvalidEmailFormat),
        }
    }

    /// The address as text.
    pub fn as_str(&self) -> (text: &str)
        ensures
            text@ == self@,
    {
        self.0.as_str()
    }
}

impl InvalidEmailFormat {
    /// The words that describe the error.
    pub fn message(&self) -> (text: &'static str)
        ensures
            text@ == "invalid email format"@,
    {
        "invalid email format"
    }
}

impl From<EmailString> for String {
    fn from(value: EmailString) -> (text: String) {
        value.0
    }
}

impl FromSpecImpl<EmailString> for String {
    open spec fn obeys_from_spec() -> bool {
        true
    }

    closed spec fn from_spec(value: EmailString) -> String {
        value.0
    }
}

impl TryFrom<String> for EmailString {
    type Error = InvalidEmailFormat;

    fn try_from(value: String) -> (email: Result<Self, InvalidEmailFormat>) {
        let verdict = match_pattern(EMAIL_RAW_REGEXP, value.as_str());
        EmailString::accept(value, verdict)
    }
}

impl TryFromSpecImpl<String> for EmailString {
    open spec fn obeys_try_from_spec() -> bool {
        true
    }

    open spec fn try_from_spec(value: String) -> Result<Self, InvalidEmailFormat> {
        if is_email(value@) {
            Ok(EmailString::wrap(value))
        } else {
            Err(InvalidEmailFormat)
        }
    }
}

impl<'a> TryFrom<&'a str> for EmailString {
    type Error = InvalidEmailFormat;

    fn try_from(value: &'a str) -> (email: Result<Self, InvalidEmailFormat>)
        ensures
            email is Ok <==> is_email(value@),
            email matches Ok(e) ==> e@ == value@,
    {
        let verdict = match_pattern(EMAIL_RAW_REGEXP, value);
        EmailString::accept(value.to_owned(), verdict)
    }
}

/// Nothing names the owned copy that is made of a borrowed text, so the
/// contract that the conversion traits share is switched off here; what
/// `try_from` ensures above stands in its place.
impl<'a> TryFromSpecImpl<&'a str> for EmailString {
    open spec fn obeys_try_from_spec() -> bool {
        false
    }

    open spec fn try_from_spec(value: &'a str) -> Result<Self, InvalidEmailFormat> {
        Err(InvalidEmailFormat)
    }
}

impl AsRef<str> for EmailString {
    fn as_ref(&self) -> (text: &str)
        ensures
            text@ == self@,
    {
        self.0.as_str()
    }
}

/// Whether `text` reads as the characters `chars`.
pub open spec fn reads_as(text: &str, chars: Seq<char>) -> bool {
    text@ == chars
}

impl std::borrow::Borrow<str> for EmailString {
    /// The address as text; an address stands for its text where a text is
    /// asked for.
    fn borrow(&self) -> (text: &str)
        ensures
            reads_as(text, self@),
    {
        self.0.as_str()
    }
}

} // verus!
