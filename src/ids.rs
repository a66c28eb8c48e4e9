use vstd::prelude::*;

verus! {

/// A user identifier: the 128 bits of a UUID, most significant first.
#[derive(Clone, Copy, Debug, PartialEq, Eq, Hash, Structural)]
pub struct UserId(pub u128);

/// What `uuid::Uuid::parse_str` yields for a text: the UUID's bits, or nothing
/// when the text is no UUID in one of the forms the crate accepts.
pub uninterp spec fn uuid_parsed(s: Seq<char>) -> Option<u128>;

/// Relies on `uuid::Uuid::parse_str` (with `Uuid::as_u128`): the outcome depends
/// on the text alone.
#[verifier::external_body]
fn parse_uuid(s: &str) -> (r: Option<u128>)
    ensures
        r == uuid_parsed(s@),
{
    match uuid::Uuid::parse_str(s) {
        Ok(u) => Some(u.as_u128()),
        Err(_) => None,
    }
}

impl UserId {
    /// The identifier written in `s`, if `s` is a UUID.
    pub fn parse(s: &str) -> (r: Option<UserId>)
        ensures
            r == (match uuid_parsed(s@) {
                Some(v) => Some(UserId(v)),
                None => None::<UserId>,
            }),
    {
        match parse_uuid(s) {
            Some(v) => Some(UserId(v)),
            None => None,
        }
    }
}

/// A hexadecimal digit, lower case.
pub open spec fn hex_digit(n: u128) -> char {
    "0123456789abcdef"@[n as int]
}

/// The `k`-th hexadecimal digit of `v`, most significant first.
pub open spec fn nibble(v: u128, k: int) -> u128 {
    (v >> (4 * (31 - k)) as u128) & 15
}

/// The hyphenated lower-case form of a UUID: 32 hexadecimal digits, most
/// significant first, in groups of 8, 4, 4, 4 and 12 joined by `-`.
pub open spec fn hyphenated(v: u128) -> Seq<char> {
    Seq::new(
        36,
        |i: int|
            if i == 8 || i == 13 || i == 18 || i == 23 {
                '-'
            } else {
                let hyphens: int = if i < 8 {
                    0
                } else if i < 13 {
                    1
                } else if i < 18 {
                    2
                } else if i < 23 {
                    3
                } else {
                    4
                };
                hex_digit(nibble(v, i - hyphens))
            },
    )
}

/// Relies on `uuid::Uuid::hyphenated` and its `Display`: the hyphenated
/// lower-case form, which `uuid::Uuid::parse_str` reads back.
#[verifier::external_body]
fn uuid_text(v: u128) -> (r: String)
    ensures
        r@ == hyphenated(v),
        uuid_parsed(r@) == Some(v),
{
    uuid::Uuid::from_u128(v).hyphenated().to_string()
}

impl UserId {
    /// The identifier in its usual written form (see `hyphenated`).
    pub fn to_text(&self) -> (r: String)
        ensures
            r@ == hyphenated(self.0),
            uuid_parsed(r@) == Some(self.0),
    {
        uuid_text(self.0)
    }
}

/// The title of the issue filed for a user's feedback.
pub fn feedback_title(user: UserId) -> (r: String)
    ensures
        r@ == "Feedback from "@ + hyphenated(user.0),
{
    let mut r = String::from_str("Feedback from ");
    let id = user.to_text();
    r.append(id.as_str());
    r
}

} // verus!
