use vstd::prelude::*;

verus! {

/// Where a connection request between two users stands.
#[derive(Clone, Copy, Debug, PartialEq, Eq, Structural)]
pub enum ConnectionStatus {
    Pending,
    Accepted,
    Declined,
}

/// The status a recipient's answer to a connection request gives it.
pub fn response_status(accept: bool) -> (r: ConnectionStatus)
    ensures
        r == (if accept { ConnectionStatus::Accepted } else { ConnectionStatus::Declined }),
{
    if accept {
        ConnectionStatus::Accepted
    } else {
        ConnectionStatus::Declined
    }
}

pub open spec fn status_text(s: ConnectionStatus) -> Seq<char> {
    match s {
        ConnectionStatus::Pending => "pending"@,
        ConnectionStatus::Accepted => "accepted"@,
        ConnectionStatus::Declined => "declined"@,
    }
}

impl ConnectionStatus {
    /// The stored form of the status.
    pub fn as_text(&self) -> (r: &'static str)
        ensures
            r@ == status_text(*self),
    {
        match self {
            ConnectionStatus::Pending => "pending",
            ConnectionStatus::Accepted => "accepted",
            ConnectionStatus::Declined => "declined",
        }
    }

    /// The status a stored form stands for; anything unknown is pending.
    pub fn from_text(s: &str) -> (r: ConnectionStatus)
        ensures
            r == (if s@ == "accepted"@ {
                ConnectionStatus::Accepted
            } else if s@ == "declined"@ {
                ConnectionStatus::Declined
            } else {
                ConnectionStatus::Pending
            }),
    {
        let t = String::from_str(s);
        if t == String::from_str("accepted") {
            ConnectionStatus::Accepted
        } else if t == String::from_str("declined") {
            ConnectionStatus::Declined
        } else {
            ConnectionStatus::Pending
        }
    }
}

/// The editable part of a user's profile.
#[derive(Clone, Debug, PartialEq, Eq)]
pub struct ProfileUpdate {
    pub email: Option<String>,
    pub phone: Option<String>,
    pub nickname: String,
    pub tagline: Option<String>,
    pub native_language: String,
    pub is_searchable: bool,
}

} // verus!
