//! Domain types for subscribers: a validated name, a validated email address,
//! and the pair of them parsed from a submitted form.
//!
//! Validation happens here, before any value reaches the store, so the store
//! may assume well-formed values.

use crate::errors::Error;
use crate::text::chars_of;
use vstd::prelude::*;

verus! {

/// The longest a subscriber name may be, counted in extended grapheme
/// clusters.
pub const NAME_MAX_GRAPHEMES: usize = 256;

/// Whether the character carries the Unicode `White_Space` property.
pub uninterp spec fn is_whitespace_char(c: char) -> bool;

/// Relies on `char::is_whitespace`: the Unicode `White_Space` property of the
/// character, a function of the character alone.
#[verifier::external_body]
fn char_is_whitespace(c: char) -> (r: bool)
    ensures
        r == is_whitespace_char(c),
{
    c.is_whitespace()
}

/// The number of extended grapheme clusters in the text.
pub uninterp spec fn grapheme_count(s: Seq<char>) -> nat;

/// Relies on unicode-segmentation's `graphemes(true)` iterator: its element
/// count is the number of extended grapheme clusters, a function of the
/// characters alone.
#[verifier::external_body]
fn count_graphemes(s: &str) -> (r: usize)
    ensures
        r as nat == grapheme_count(s@),
{
    unicode_segmentation::UnicodeSegmentation::graphemes(s, true).count()
}

/// Whether the text is an email address of the accepted shape.
pub uninterp spec fn is_valid_email(s: Seq<char>) -> bool;

/// Relies on validator's `ValidateEmail` for `str`: the HTML5 email shape
/// check, a function of the characters alone. Its source rejects the empty
/// string and any string without `'@'` outright.
#[verifier::external_body]
fn check_email(s: &str) -> (r: bool)
    ensures
        r == is_valid_email(s@),
        s@.len() == 0 ==> !r,
        !s@.contains('@') ==> !r,
{
    validator::ValidateEmail::validate_email(&s)
}

/// The characters a subscriber name may never contain.
pub open spec fn is_forbidden_name_char(c: char) -> bool {
    c == '/' || c == '(' || c == ')' || c == '"' || c == '<' || c == '>' || c == '\\' || c == '{'
        || c == '}'
}

/// A valid subscriber name: not empty or whitespace only, at most
/// `NAME_MAX_GRAPHEMES` grapheme clusters, and free of forbidden characters.
pub open spec fn valid_subscriber_name(s: Seq<char>) -> bool {
    &&& exists|i: int| 0 <= i < s.len() && !is_whitespace_char(#[trigger] s[i])
    &&& grapheme_count(s) <= NAME_MAX_GRAPHEMES
    &&& forall|i: int| 0 <= i < s.len() ==> !is_forbidden_name_char(#[trigger] s[i])
}

/// A subscriber's display name; holds only values that satisfy
/// `valid_subscriber_name`.
#[derive(Debug, Clone)]
pub struct SubscriberName(String);

impl View for SubscriberName {
    type V = Seq<char>;

    closed spec fn view(&self) -> Seq<char> {
        self.0@
    }
}

impl SubscriberName {
    /// Every held value passed validation when it was constructed.
    pub closed spec fn wf(&self) -> bool {
        valid_subscriber_name(self.0@)
    }

    /// Validates a raw name. Accepts exactly the valid names and stores the
    /// text unchanged; a rejection is a client-input error.
    pub fn try_from(value: String) -> (r: Result<SubscriberName, Error>)
        ensures
            r is Ok <==> valid_subscriber_name(value@),
            r matches Ok(n) ==> n@ == value@ && n.wf(),
            r matches Err(e) ==> e is Validation,
    {
        let cs = chars_of(value.as_str());
        let mut saw_non_whitespace = false;
        let mut i: usize = 0;
        while i < cs.len()
            invariant
                0 <= i <= cs@.len(),
                cs@ == value@,
                saw_non_whitespace <==> exists|j: int|
                    0 <= j < i && !is_whitespace_char(#[trigger] cs@[j]),
                forall|j: int| 0 <= j < i ==> !is_forbidden_name_char(#[trigger] cs@[j]),
            decreases cs@.len() - i,
        {
            let c = cs[i];
            if c == '/' || c == '(' || c == ')' || c == '"' || c == '<' || c == '>' || c == '\\'
                || c == '{' || c == '}' {
                return Err(Error::Validation(String::from_str(
                    "subscriber name contains forbidden characters",
                )));
            }
            if !char_is_whitespace(c) {
                saw_non_whitespace = true;
            }
            i = i + 1;
        }
        if !saw_non_whitespace {
            return Err(Error::Validation(String::from_str("subscriber name is empty")));
        }
        if count_graphemes(value.as_str()) > NAME_MAX_GRAPHEMES {
            return Err(Error::Validation(String::from_str(
                "subscriber name length is more than 256",
            )));
        }
        Ok(SubscriberName(value))
    }

    /// The validated text.
    pub fn as_ref(&self) -> (r: &str)
        ensures
            r@ == self@,
    {
        self.0.as_str()
    }
}

/// A subscriber's email address; holds only values that satisfy
/// `is_valid_email`.
#[derive(Debug, Clone)]
pub struct SubscriberEmail(String);

impl View for SubscriberEmail {
    type V = Seq<char>;

    closed spec fn view(&self) -> Seq<char> {
        self.0@
    }
}

impl SubscriberEmail {
    /// Every held value passed validation when it was constructed.
    pub closed spec fn wf(&self) -> bool {
        is_valid_email(self.0@)
    }

    /// Validates a raw email address. Accepts exactly the addresses of the
    /// accepted shape and stores the text unchanged; a rejection is a
    /// client-input error.
    pub fn try_from(value: String) -> (r: Result<SubscriberEmail, Error>)
        ensures
            r is Ok <==> is_valid_email(value@),
            r matches Ok(m) ==> m@ == value@ && m.wf(),
            r matches Err(e) ==> e is Validation,
    {
        if check_email(value.as_str()) {
            Ok(SubscriberEmail(value))
        } else {
            Err(Error::Validation(String::from_str("invalid subscriber email")))
        }
    }

    /// The validated text.
    pub fn as_ref(&self) -> (r: &str)
        ensures
            r@ == self@,
    {
        self.0.as_str()
    }
}

/// The raw subscription form as the boundary layer hands it over.
#[derive(Debug, Clone)]
pub struct FormData {
    pub email: String,
    pub name: String,
}

/// A validated subscriber: the pair of a valid name and a valid email.
#[derive(Debug, Clone)]
pub struct Subscriber {
    pub email: SubscriberEmail,
    pub name: SubscriberName,
}

impl Subscriber {
    /// Both fields passed validation.
    pub open spec fn wf(&self) -> bool {
        self.email.wf() && self.name.wf()
    }

    /// Validates a raw form. Accepts exactly the forms whose email and name
    /// are both valid; a rejection is a client-input error.
    pub fn try_from(value: FormData) -> (r: Result<Subscriber, Error>)
        ensures
            r is Ok <==> (is_valid_email(value.email@) && valid_subscriber_name(value.name@)),
            r matches Ok(s) ==> s.email@ == value.email@ && s.name@ == value.name@ && s.wf(),
            r matches Err(e) ==> e is Validation,
    {
        let email = SubscriberEmail::try_from(value.email);
        let name = SubscriberName::try_from(value.name);
        match (email, name) {
            (Ok(email), Ok(name)) => Ok(Subscriber { email, name }),
            (Err(e), _) => Err(e),
            (_, Err(e)) => Err(e),
        }
    }
}

} // verus!
