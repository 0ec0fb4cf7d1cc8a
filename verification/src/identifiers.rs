//! Build identities and retry nonces.

use vstd::prelude::*;

use vstd::arithmetic::power2::pow2;

use crate::model::DeployError;

verus! {

broadcast use vstd::string::group_string_axioms;

/// The Unicode `White_Space` property, which `char::is_whitespace` tests.
pub open spec fn white_space(c: char) -> bool {
    ||| c == ' '
    ||| ('\u{9}' <= c && c <= '\u{d}')
    ||| c == '\u{85}'
    ||| c == '\u{a0}'
    ||| c == '\u{1680}'
    ||| ('\u{2000}' <= c && c <= '\u{200a}')
    ||| c == '\u{2028}'
    ||| c == '\u{2029}'
    ||| c == '\u{202f}'
    ||| c == '\u{205f}'
    ||| c == '\u{3000}'
}

/// A text is blank when trimming its whitespace leaves nothing.
pub open spec fn blank(text: Seq<char>) -> bool {
    forall|i: int| 0 <= i < text.len() ==> white_space(#[trigger] text[i])
}

/// Calls `char::is_whitespace`, which std documents as the Unicode
/// `White_Space` property; the contract lists that property's code points.
#[verifier::external_body]
pub(crate) fn char_is_whitespace(c: char) -> (b: bool)
    ensures
        b == white_space(c),
{
    c.is_whitespace()
}

/// Whether `text` is empty or holds only whitespace.
pub fn is_blank(text: &str) -> (b: bool)
    ensures
        b == blank(text@),
{
    let mut all_white = true;
    for c in it: text.chars()
        invariant
            it.seq() == text@,
            all_white == (forall|j: int| 0 <= j < it.index() ==> white_space(#[trigger] text@[j])),
    {
        if !char_is_whitespace(c) {
            all_white = false;
        }
    }
    all_white
}


/// Text that an identifier can be built from: an owned `String` or a `&str`.
pub trait IntoText {
    spec fn text(&self) -> Seq<char>;

    fn into_text(self) -> (owned: String)
        ensures
            owned@ == self.text(),
    ;
}

impl IntoText for String {
    open spec fn text(&self) -> Seq<char> {
        self@
    }

    fn into_text(self) -> (owned: String) {
        self
    }
}

impl<'a> IntoText for &'a str {
    open spec fn text(&self) -> Seq<char> {
        (*self)@
    }

    fn into_text(self) -> (owned: String) {
        self.to_owned()
    }
}

/// The immutable build a generation runs. Never blank when built by `new`.
#[derive(Debug, PartialEq, Eq, PartialOrd, Ord, Hash)]
pub struct BuildId(String);

impl View for BuildId {
    type V = Seq<char>;

    closed spec fn view(&self) -> Seq<char> {
        self.0@
    }
}

impl Clone for BuildId {
    fn clone(&self) -> (copy: Self)
        ensures
            copy == *self,
    {
        BuildId(self.0.clone())
    }
}

impl BuildId {
    /// Accepts any text that is not blank.
    pub fn new<T: IntoText>(value: T) -> (result: Result<Self, DeployError>)
        ensures
            result matches Ok(id) ==> id@ == value.text(),
            result is Err ==> result == Err::<Self, DeployError>(DeployError::InvalidBuildId),
            result is Ok <==> !blank(value.text()),
    {
        let value = value.into_text();
        if is_blank(value.as_str()) {
            return Err(DeployError::InvalidBuildId);
        }
        Ok(BuildId(value))
    }

    /// Rebuilds an identity read back from persisted state, without checking it;
    /// the deployment state's validation rejects a blank one.
    pub fn from_persisted(value: String) -> (id: Self)
        ensures
            id@ == value@,
    {
        BuildId(value)
    }

    pub fn as_str(&self) -> (text: &str)
        ensures
            text@ == self@,
    {
        self.0.as_str()
    }

    /// Compares two builds by their text.
    pub fn same_as(&self, other: &BuildId) -> (same: bool)
        ensures
            same == (self@ == other@),
    {
        self.0 == other.0
    }
}


/// The lowercase hexadecimal digit for `n` in `0..16`.
pub open spec fn hex_lower(n: int) -> char {
    if n < 10 {
        (48 + n) as char
    } else {
        (87 + n) as char
    }
}

/// The `k`-th hexadecimal digit of `v`, most significant first, for `k` in `0..32`.
pub open spec fn nibble(v: u128, k: int) -> int {
    (v as int / pow2((4 * (31 - k)) as nat) as int) % 16
}

pub open spec fn hyphen_position(i: int) -> bool {
    i == 8 || i == 13 || i == 18 || i == 23
}

/// Which hexadecimal digit stands at position `i` of the hyphenated form.
pub open spec fn digit_position(i: int) -> int {
    if i < 8 {
        i
    } else if i < 13 {
        i - 1
    } else if i < 18 {
        i - 2
    } else if i < 23 {
        i - 3
    } else {
        i - 4
    }
}

/// The canonical hyphenated lowercase text of a UUID's 128 bits:
/// 32 hexadecimal digits grouped 8-4-4-4-12.
pub open spec fn hyphenated_text(v: u128) -> Seq<char> {
    Seq::new(
        36,
        |i: int|
            if hyphen_position(i) {
                '-'
            } else {
                hex_lower(nibble(v, digit_position(i)))
            },
    )
}

/// What `uuid::Uuid::parse_str` reads from a text: the UUID's bits, or nothing.
pub uninterp spec fn uuid_parse(text: Seq<char>) -> Option<u128>;

/// Calls `uuid::Uuid::parse_str` and takes the parsed UUID as its 128 bits.
/// The contract names the parse; the accepted formats are not restated.
#[verifier::external_body]
fn parse_uuid(text: &str) -> (parsed: Option<u128>)
    ensures
        parsed == uuid_parse(text@),
{
    match uuid::Uuid::parse_str(text) {
        Ok(uuid) => Some(uuid.as_u128()),
        Err(_) => None,
    }
}

/// Calls `uuid::Uuid::hyphenated` on the UUID with bits `v` and renders it;
/// the crate writes the 32 digits in lowercase, grouped 8-4-4-4-12, and
/// `uuid::Uuid::parse_str` reads that rendering back as the same UUID.
#[verifier::external_body]
fn format_hyphenated(v: u128) -> (text: String)
    ensures
        text@ == hyphenated_text(v),
        uuid_parse(text@) == Some(v),
{
    uuid::Uuid::from_u128(v).hyphenated().to_string()
}

/// Calls `getrandom::fill` on sixteen bytes and builds a version 4 UUID from
/// them with `uuid::Builder::from_random_bytes`. The bytes are random, so
/// nothing is promised of the bits; a failure of the system's randomness is
/// returned rather than raised.
#[verifier::external_body]
fn random_uuid_v4() -> Result<u128, getrandom::Error> {
    let mut bytes = [0_u8; 16];
    getrandom::fill(&mut bytes)?;
    Ok(uuid::Builder::from_random_bytes(bytes).into_uuid().as_u128())
}

/// The nonce every intent written before nonces existed is read back with.
pub open spec fn legacy_retry_text() -> Seq<char> {
    "legacy-v1"@
}

/// A retry nonce is the legacy sentinel or a canonical hyphenated UUID.
pub open spec fn retry_text_valid(text: Seq<char>) -> bool {
    ||| text == legacy_retry_text()
    ||| (uuid_parse(text) matches Some(v) && hyphenated_text(v) == text)
}

/// The system could not supply the randomness a fresh nonce is drawn from.
#[derive(Clone, Copy, Debug, PartialEq, Eq, Structural)]
pub struct RandomnessUnavailable;

/// A durable nonce that binds one installer retry request to one deployment attempt.
#[derive(Debug, PartialEq, Eq, PartialOrd, Ord)]
pub struct RetryId(String);

impl View for RetryId {
    type V = Seq<char>;

    closed spec fn view(&self) -> Seq<char> {
        self.0@
    }
}

impl Clone for RetryId {
    fn clone(&self) -> (copy: Self)
        ensures
            copy == *self,
    {
        RetryId(self.0.clone())
    }
}

impl Default for RetryId {
    fn default() -> (id: Self)
        ensures
            id@ == legacy_retry_text(),
    {
        RetryId(String::from_str("legacy-v1"))
    }
}

impl RetryId {
    pub fn new<T: IntoText>(value: T) -> (result: Result<Self, DeployError>)
        ensures
            result matches Ok(id) ==> id@ == value.text(),
            result is Err ==> result == Err::<Self, DeployError>(DeployError::InvalidRetryId),
            result is Ok <==> retry_text_valid(value.text()),
    {
        let value = value.into_text();
        if !Self::valid(&value) {
            return Err(DeployError::InvalidRetryId);
        }
        Ok(RetryId(value))
    }

    /// A fresh random nonce in canonical hyphenated form, or the refusal
    /// when the system has no randomness to give.
    pub fn fresh() -> (id: Result<Self, RandomnessUnavailable>)
        ensures
            id matches Ok(id) ==> retry_text_valid(id@) && exists|v: u128| id@ == hyphenated_text(v),
    {
        match random_uuid_v4() {
            Ok(bits) => Ok(Self::for_test(bits)),
            Err(_) => Err(RandomnessUnavailable),
        }
    }

    /// The nonce whose UUID bits are `value`.
    pub fn for_test(value: u128) -> (id: Self)
        ensures
            id@ == hyphenated_text(value),
            retry_text_valid(id@),
    {
        RetryId(format_hyphenated(value))
    }

    /// Rebuilds a nonce read back from persisted state, without checking it.
    pub fn from_persisted(value: String) -> (id: Self)
        ensures
            id@ == value@,
    {
        RetryId(value)
    }

    pub fn is_valid(&self) -> (valid: bool)
        ensures
            valid == retry_text_valid(self@),
    {
        Self::valid(&self.0)
    }

    pub fn as_str(&self) -> (text: &str)
        ensures
            text@ == self@,
    {
        self.0.as_str()
    }

    pub fn same_as(&self, other: &RetryId) -> (same: bool)
        ensures
            same == (self@ == other@),
    {
        self.0 == other.0
    }

    fn valid(value: &String) -> (valid: bool)
        ensures
            valid == retry_text_valid(value@),
    {
        let legacy = String::from_str("legacy-v1");
        if *value == legacy {
            return true;
        }
        match parse_uuid(value.as_str()) {
            Some(bits) => format_hyphenated(bits) == *value,
            None => false,
        }
    }
}

} // verus!
