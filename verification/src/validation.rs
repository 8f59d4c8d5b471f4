//! Length limits on user-supplied text, and the wrappers that witness them.
//!
//! A text is measured in the bytes of its UTF-8 encoding. Each wrapper can only
//! be built through `try_from`, so holding one proves that its text fits.

use vstd::prelude::*;
use vstd::std_specs::convert::FromSpecImpl;
use vstd::std_specs::convert::TryFromSpecImpl;
use vstd::utf8::encode_utf8;

verus! {

/// Most bytes a display name may take.
pub const NAME_LIMIT: usize = 100;

/// Most bytes a nick may take.
pub const NICK_LIMIT: usize = 32;

/// Most bytes a technology tag may take.
pub const TECH_LIMIT: usize = 32;

/// The text fields that carry a length limit.
#[derive(Clone, Copy, Debug, PartialEq, Eq, Structural)]
pub enum Field {
    Name,
    Nick,
    Tech,
}

/// Why a request to create a user is turned down.
#[derive(Clone, Copy, Debug, PartialEq, Eq, Structural)]
pub enum ValidationError {
    /// The text of the given field takes more bytes than its limit.
    TooLong(Field),
    /// The birth date is not a calendar date written as `YYYY-MM-DD`.
    InvalidDate,
}

/// Length of a text: the number of bytes of its UTF-8 encoding.
pub open spec fn text_len(text: Seq<char>) -> nat {
    encode_utf8(text).len()
}

/// The limit that applies to each field.
pub open spec fn limit_of(field: Field) -> nat {
    match field {
        Field::Name => NAME_LIMIT as nat,
        Field::Nick => NICK_LIMIT as nat,
        Field::Tech => TECH_LIMIT as nat,
    }
}

/// Whether `text` is acceptable for `field`.
pub open spec fn fits(field: Field, text: Seq<char>) -> bool {
    text_len(text) <= limit_of(field)
}

/// What validating `text` as `field` yields: the text itself, or `TooLong`.
pub open spec fn checked(field: Field, text: Seq<char>) -> Result<Seq<char>, ValidationError> {
    if fits(field, text) {
        Ok(text)
    } else {
        Err(ValidationError::TooLong(field))
    }
}

/// Measures a text as the limits do.
pub fn byte_len(text: &str) -> (len: usize)
    ensures
        len == text_len(text@),
{
    text.as_bytes().len()
}

impl ValidationError {
    /// The wording of each error.
    pub open spec fn message_text(self) -> Seq<char> {
        match self {
            ValidationError::TooLong(Field::Name) => "Name too long"@,
            ValidationError::TooLong(Field::Nick) => "Nick too long"@,
            ValidationError::TooLong(Field::Tech) => "Tech too long"@,
            ValidationError::InvalidDate => "Invalid date"@,
        }
    }

    /// A short human-readable description of the error.
    pub fn message(&self) -> (text: &'static str)
        ensures
            text@ == self.message_text(),
    {
        match self {
            ValidationError::TooLong(Field::Name) => "Name too long",
            ValidationError::TooLong(Field::Nick) => "Nick too long",
            ValidationError::TooLong(Field::Tech) => "Tech too long",
            ValidationError::InvalidDate => "Invalid date",
        }
    }
}

/// A display name of at most `NAME_LIMIT` bytes.
#[derive(Debug)]
pub struct UserName(String);

impl View for UserName {
    type V = Seq<char>;

    closed spec fn view(&self) -> Seq<char> {
        self.0@
    }
}

impl UserName {
    #[verifier::type_invariant]
    spec fn within_limit(self) -> bool {
        fits(Field::Name, self.0@)
    }

    /// The validated text.
    pub fn as_str(&self) -> (text: &str)
        ensures
            text@ == self@,
            fits(Field::Name, text@),
    {
        proof {
            use_type_invariant(self);
        }
        self.0.as_str()
    }
}

impl Clone for UserName {
    /// A copy with the same text.
    fn clone(&self) -> (copy: Self)
        ensures
            copy@ == self@,
    {
        proof {
            use_type_invariant(self);
        }
        UserName(self.0.clone())
    }
}

impl TryFrom<String> for UserName {
    type Error = ValidationError;

    /// Accepts `value` exactly when it takes at most `NAME_LIMIT` bytes.
    fn try_from(value: String) -> (outcome: Result<Self, ValidationError>)
        ensures
            match checked(Field::Name, value@) {
                Ok(text) => outcome is Ok && outcome->Ok_0@ == text,
                Err(error) => outcome == Err::<Self, ValidationError>(error),
            },
    {
        if byte_len(value.as_str()) > NAME_LIMIT {
            Err(ValidationError::TooLong(Field::Name))
        } else {
            Ok(UserName(value))
        }
    }
}

impl TryFromSpecImpl<String> for UserName {
    open spec fn obeys_try_from_spec() -> bool {
        true
    }

    closed spec fn try_from_spec(value: String) -> Result<Self, ValidationError> {
        if fits(Field::Name, value@) {
            Ok(UserName(value))
        } else {
            Err(ValidationError::TooLong(Field::Name))
        }
    }
}

impl From<UserName> for String {
    /// Gives the validated text back, unchanged.
    fn from(value: UserName) -> (text: String)
        ensures
            text@ == value@,
            fits(Field::Name, text@),
    {
        proof {
            use_type_invariant(&value);
        }
        value.0
    }
}

impl FromSpecImpl<UserName> for String {
    open spec fn obeys_from_spec() -> bool {
        true
    }

    closed spec fn from_spec(value: UserName) -> String {
        value.0
    }
}

/// A nick of at most `NICK_LIMIT` bytes.
#[derive(Debug)]
pub struct UserNick(String);

impl View for UserNick {
    type V = Seq<char>;

    closed spec fn view(&self) -> Seq<char> {
        self.0@
    }
}

impl UserNick {
    #[verifier::type_invariant]
    spec fn within_limit(self) -> bool {
        fits(Field::Nick, self.0@)
    }

    /// The validated text.
    pub fn as_str(&self) -> (text: &str)
        ensures
            text@ == self@,
            fits(Field::Nick, text@),
    {
        proof {
            use_type_invariant(self);
        }
        self.0.as_str()
    }
}

impl Clone for UserNick {
    /// A copy with the same text.
    fn clone(&self) -> (copy: Self)
        ensures
            copy@ == self@,
    {
        proof {
            use_type_invariant(self);
        }
        UserNick(self.0.clone())
    }
}

impl TryFrom<String> for UserNick {
    type Error = ValidationError;

    /// Accepts `value` exactly when it takes at most `NICK_LIMIT` bytes.
    fn try_from(value: String) -> (outcome: Result<Self, ValidationError>)
        ensures
            match checked(Field::Nick, value@) {
                Ok(text) => outcome is Ok && outcome->Ok_0@ == text,
                Err(error) => outcome == Err::<Self, ValidationError>(error),
            },
    {
        if byte_len(value.as_str()) > NICK_LIMIT {
            Err(ValidationError::TooLong(Field::Nick))
        } else {
            Ok(UserNick(value))
        }
    }
}

impl TryFromSpecImpl<String> for UserNick {
    open spec fn obeys_try_from_spec() -> bool {
        true
    }

    closed spec fn try_from_spec(value: String) -> Result<Self, ValidationError> {
        if fits(Field::Nick, value@) {
            Ok(UserNick(value))
        } else {
            Err(ValidationError::TooLong(Field::Nick))
        }
    }
}

impl From<UserNick> for String {
    /// Gives the validated text back, unchanged.
    fn from(value: UserNick) -> (text: String)
        ensures
            text@ == value@,
            fits(Field::Nick, text@),
    {
        proof {
            use_type_invariant(&value);
        }
        value.0
    }
}

impl FromSpecImpl<UserNick> for String {
    open spec fn obeys_from_spec() -> bool {
        true
    }

    closed spec fn from_spec(value: UserNick) -> String {
        value.0
    }
}

/// A technology tag of at most `TECH_LIMIT` bytes.
#[derive(Debug)]
pub struct UserTech(String);

impl View for UserTech {
    type V = Seq<char>;

    closed spec fn view(&self) -> Seq<char> {
        self.0@
    }
}

impl UserTech {
    #[verifier::type_invariant]
    spec fn within_limit(self) -> bool {
        fits(Field::Tech, self.0@)
    }

    /// The validated text.
    pub fn as_str(&self) -> (text: &str)
        ensures
            text@ == self@,
            fits(Field::Tech, text@),
    {
        proof {
            use_type_invariant(self);
        }
        self.0.as_str()
    }
}

impl Clone for UserTech {
    /// A copy with the same text.
    fn clone(&self) -> (copy: Self)
        ensures
            copy@ == self@,
    {
        proof {
            use_type_invariant(self);
        }
        UserTech(self.0.clone())
    }
}

impl TryFrom<String> for UserTech {
    type Error = ValidationError;

    /// Accepts `value` exactly when it takes at most `TECH_LIMIT` bytes.
    fn try_from(value: String) -> (outcome: Result<Self, ValidationError>)
        ensures
            match checked(Field::Tech, value@) {
                Ok(text) => outcome is Ok && outcome->Ok_0@ == text,
                Err(error) => outcome == Err::<Self, ValidationError>(error),
            },
    {
        if byte_len(value.as_str()) > TECH_LIMIT {
            Err(ValidationError::TooLong(Field::Tech))
        } else {
            Ok(UserTech(value))
        }
    }
}

impl TryFromSpecImpl<String> for UserTech {
    open spec fn obeys_try_from_spec() -> bool {
        true
    }

    closed spec fn try_from_spec(value: String) -> Result<Self, ValidationError> {
        if fits(Field::Tech, value@) {
            Ok(UserTech(value))
        } else {
            Err(ValidationError::TooLong(Field::Tech))
        }
    }
}

impl From<UserTech> for String {
    /// Gives the validated text back, unchanged.
    fn from(value: UserTech) -> (text: String)
        ensures
            text@ == value@,
            fits(Field::Tech, text@),
    {
        proof {
            use_type_invariant(&value);
        }
        value.0
    }
}

impl FromSpecImpl<UserTech> for String {
    open spec fn obeys_from_spec() -> bool {
        true
    }

    closed spec fn from_spec(value: UserTech) -> String {
        value.0
    }
}

} // verus!
