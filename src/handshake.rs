use vstd::prelude::*;
use crate::ids::{UserId, uuid_parsed};

verus! {

/// Why a credential was not accepted.
#[derive(Clone, Copy, Debug, PartialEq, Eq, Structural)]
pub enum AuthError {
    InvalidToken,
    Unavailable,
}

/// The claims of a verified credential that the relay reads.
#[derive(Clone, Debug, PartialEq, Eq)]
pub struct Claims {
    pub sub: String,
    pub exp: usize,
}

impl Claims {
    /// The claims handed out when credentials are not checked.
    pub fn bypass() -> (r: Claims)
        ensures
            r.sub@ == seq!['d', 'e', 'v', '|', 'b', 'y', 'p', 'a', 's', 's'],
            r.exp == 0,
    {
        let sub = String::from_str("dev|bypass");
        proof {
            reveal_strlit("dev|bypass");
        }
        Claims { sub, exp: 0 }
    }
}

/// What the handshake decided for an inbound connection.
#[derive(Debug, PartialEq, Eq)]
pub enum Admission {
    /// Admit the session as this user.
    Admit(UserId),
    /// Verify this bearer credential; its subject names the user.
    Verify(String),
    /// Refuse the connection.
    Reject,
}

pub open spec fn bearer_prefix() -> Seq<char> {
    seq!['B', 'e', 'a', 'r', 'e', 'r', ' ']
}

/// The credential carried by an `Authorization` header value.
pub open spec fn bearer_of(value: Seq<char>) -> Option<Seq<char>> {
    if bearer_prefix().is_prefix_of(value) {
        Some(value.subrange(bearer_prefix().len() as int, value.len() as int))
    } else {
        None
    }
}

/// Index of the last `|` in `s`, or -1.
pub open spec fn last_bar(s: Seq<char>) -> int
    decreases s.len(),
{
    if s.len() == 0 {
        -1
    } else if s.last() == '|' {
        s.len() - 1
    } else {
        last_bar(s.drop_last())
    }
}

/// The part of `s` after its last `|` (all of `s` when it has none).
pub open spec fn last_segment(s: Seq<char>) -> Seq<char> {
    s.subrange(last_bar(s) + 1, s.len() as int)
}

pub open spec fn user_of(v: Option<u128>) -> Option<UserId> {
    match v {
        Some(v) => Some(UserId(v)),
        None => None,
    }
}

/// The user a verified subject names: the subject itself as a UUID, or else
/// the UUID after its last `|` (federated subjects such as `provider|id`).
pub open spec fn subject_user(sub: Seq<char>) -> Option<UserId> {
    match uuid_parsed(sub) {
        Some(v) => Some(UserId(v)),
        None => user_of(uuid_parsed(last_segment(sub))),
    }
}

pub open spec fn opt_str_view(o: Option<&str>) -> Option<Seq<char>> {
    match o {
        Some(s) => Some(s@),
        None => None,
    }
}

/// The handshake's decision. With the bypass configured, an identity given in
/// the query, or else a UUID in the identity header, is admitted as it is.
/// Otherwise the credential in the query, or else the bearer credential of
/// the `Authorization` header, must be verified; without one the connection
/// is refused.
pub open spec fn admission(
    bypass: bool,
    query_user: Option<UserId>,
    header_user: Option<Seq<char>>,
    query_token: Option<Seq<char>>,
    authorization: Option<Seq<char>>,
) -> Option<Result<UserId, Seq<char>>> {
    if bypass && query_user is Some {
        Some(Ok(query_user->0))
    } else if bypass && header_user is Some && uuid_parsed(header_user->0) is Some {
        Some(Ok(UserId(uuid_parsed(header_user->0)->0)))
    } else if query_token is Some {
        Some(Err(query_token->0))
    } else if authorization is Some && bearer_of(authorization->0) is Some {
        Some(Err(bearer_of(authorization->0)->0))
    } else {
        None
    }
}

pub open spec fn admission_view(a: Admission) -> Option<Result<UserId, Seq<char>>> {
    match a {
        Admission::Admit(u) => Some(Ok(u)),
        Admission::Verify(t) => Some(Err(t@)),
        Admission::Reject => None,
    }
}

/// The credential of an `Authorization` header value: what follows `Bearer `.
pub fn bearer_token(value: &str) -> (r: Option<String>)
    ensures
        match r {
            Some(t) => bearer_of(value@) == Some(t@),
            None => bearer_of(value@) is None,
        },
{
    let prefix = "Bearer ";
    proof {
        reveal_strlit("Bearer ");
    }
    let n = value.unicode_len();
    if n < 7 {
        return None;
    }
    let mut i: usize = 0;
    while i < 7
        invariant
            i <= 7 <= n,
            n == value@.len(),
            prefix@ == bearer_prefix(),
            forall|j: int| 0 <= j < i ==> value@[j] == bearer_prefix()[j],
        decreases 7 - i,
    {
        if value.get_char(i) != prefix.get_char(i) {
            return None;
        }
        i = i + 1;
    }
    assert(bearer_prefix().is_prefix_of(value@)) by {
        assert(value@.subrange(0, 7) =~= bearer_prefix());
    }
    Some(String::from_str(value.substring_char(7, n)))
}

proof fn lemma_last_bar_prefix(s: Seq<char>, i: int)
    requires
        0 < i <= s.len(),
        s[i - 1] != '|',
    ensures
        last_bar(s.subrange(0, i)) == last_bar(s.subrange(0, i - 1)),
{
    assert(s.subrange(0, i).drop_last() =~= s.subrange(0, i - 1));
}

/// Where the part after the last `|` of `s` starts.
fn segment_start(s: &str) -> (r: usize)
    ensures
        r as int == last_bar(s@) + 1,
        r <= s@.len(),
{
    let n = s.unicode_len();
    let mut i: usize = n;
    assert(s@.subrange(0, n as int) =~= s@);
    while i > 0
        invariant
            i <= n == s@.len(),
            last_bar(s@) == last_bar(s@.subrange(0, i as int)),
        decreases i,
    {
        if s.get_char(i - 1) == '|' {
            assert(s@.subrange(0, i as int).last() == '|');
            return i;
        }
        proof {
            lemma_last_bar_prefix(s@, i as int);
        }
        i = i - 1;
    }
    i
}

/// The user a verified subject names (see `subject_user`).
pub fn parse_user_id(sub: &str) -> (r: Option<UserId>)
    ensures
        r == subject_user(sub@),
{
    match UserId::parse(sub) {
        Some(u) => Some(u),
        None => {
            let start = segment_start(sub);
            let n = sub.unicode_len();
            UserId::parse(sub.substring_char(start, n))
        },
    }
}

/// Decides how an inbound connection is admitted (see `admission`); the
/// strings are the raw identity header, query credential and `Authorization`
/// header, where present.
pub fn extract_ws_user(
    bypass: bool,
    query_user: Option<UserId>,
    header_user: Option<&str>,
    query_token: Option<&str>,
    authorization: Option<&str>,
) -> (r: Admission)
    ensures
        admission_view(r) == admission(
            bypass,
            query_user,
            opt_str_view(header_user),
            opt_str_view(query_token),
            opt_str_view(authorization),
        ),
{
    if bypass {
        if let Some(u) = query_user {
            return Admission::Admit(u);
        }
        if let Some(h) = header_user {
            if let Some(u) = UserId::parse(h) {
                return Admission::Admit(u);
            }
        }
    }
    if let Some(t) = query_token {
        return Admission::Verify(String::from_str(t));
    }
    if let Some(a) = authorization {
        if let Some(t) = bearer_token(a) {
            return Admission::Verify(t);
        }
    }
    Admission::Reject
}

/// The user admitted once a credential has been checked: the one its subject
/// names, if it names one; nobody if the check failed.
pub fn admit_verified(verified: Result<Claims, AuthError>) -> (r: Option<UserId>)
    ensures
        r == match verified {
            Ok(c) => subject_user(c.sub@),
            Err(_) => None::<UserId>,
        },
{
    match verified {
        Ok(c) => parse_user_id(c.sub.as_str()),
        Err(_) => None,
    }
}

/// A signing key published by the identity provider: its id and its RSA
/// modulus and exponent.
#[derive(Clone, Debug, PartialEq, Eq)]
pub struct Jwk {
    pub kid: String,
    pub n: String,
    pub e: String,
}

/// The key id in the header of a token, as `jsonwebtoken::decode_header`
/// reads it; nothing when the header cannot be read or has no key id.
pub uninterp spec fn header_kid(token: Seq<char>) -> Option<Seq<char>>;

/// Relies on `jsonwebtoken::decode_header`: decodes the token's header, whose
/// `kid` is read; the outcome depends on the token alone.
#[verifier::external_body]
fn token_kid(token: &str) -> (r: Option<String>)
    ensures
        match r {
            Some(k) => header_kid(token@) == Some(k@),
            None => header_kid(token@) is None,
        },
{
    match jsonwebtoken::decode_header(token) {
        Ok(header) => header.kid,
        Err(_) => None,
    }
}

/// The position of the first key whose id is `kid`.
pub fn find_jwk(keys: &Vec<Jwk>, kid: &str) -> (r: Option<usize>)
    ensures
        match r {
            Some(i) => i < keys@.len() && keys@[i as int].kid@ == kid@ && forall|j: int|
                0 <= j < i ==> (#[trigger] keys@[j]).kid@ != kid@,
            None => forall|j: int| 0 <= j < keys@.len() ==> (#[trigger] keys@[j]).kid@ != kid@,
        },
{
    let wanted = String::from_str(kid);
    let mut i: usize = 0;
    while i < keys.len()
        invariant
            i <= keys@.len(),
            wanted@ == kid@,
            forall|j: int| 0 <= j < i ==> (#[trigger] keys@[j]).kid@ != kid@,
        decreases keys@.len() - i,
    {
        if keys[i].kid == wanted {
            return Some(i);
        }
        i = i + 1;
    }
    None
}

/// Which published key verifies a token.
#[derive(Clone, Copy, Debug, PartialEq, Eq, Structural)]
pub enum KeyChoice {
    /// The key at this position.
    Key(usize),
    /// The token names a key that is not among those given: they may be stale.
    Unknown,
    /// The token's header cannot be read or names no key.
    Invalid,
}

/// Picks the key that must verify `token`: the first of `keys` with the id
/// named in the token's header.
pub fn signing_key(token: &str, keys: &Vec<Jwk>) -> (r: KeyChoice)
    ensures
        match header_kid(token@) {
            None => r == KeyChoice::Invalid,
            Some(kid) => match r {
                KeyChoice::Key(i) => i < keys@.len() && keys@[i as int].kid@ == kid && forall|j: int|
                    0 <= j < i ==> (#[trigger] keys@[j]).kid@ != kid,
                KeyChoice::Unknown => forall|j: int|
                    0 <= j < keys@.len() ==> (#[trigger] keys@[j]).kid@ != kid,
                KeyChoice::Invalid => false,
            },
        },
{
    match token_kid(token) {
        None => KeyChoice::Invalid,
        Some(kid) => match find_jwk(keys, kid.as_str()) {
            Some(i) => KeyChoice::Key(i),
            None => KeyChoice::Unknown,
        },
    }
}

} // verus!
