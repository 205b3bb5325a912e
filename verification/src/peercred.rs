//! Who is on the other end of the local socket: one principal, the user that
//! the daemon runs as.

use vstd::prelude::*;

use crate::text::cat2;

verus! {

/// The credentials of the process on the other end of a socket.
#[derive(Debug, Clone, Copy, PartialEq, Eq, Structural)]
pub struct PeerCredentials {
    pub pid: i32,
    pub uid: u32,
    pub gid: u32,
}

/// Why a peer is not let in.
#[derive(Debug, PartialEq, Eq)]
pub enum AuthError {
    Credentials(String),
    Unauthorized,
}

impl AuthError {
    /// The error in words. A refusal says nothing of who connected.
    pub fn message(&self) -> (r: String)
        ensures
            match self {
                AuthError::Credentials(e) => r@ == "could not read peer credentials: "@ + e@,
                AuthError::Unauthorized => r@ == "local peer is not authorized"@,
            },
    {
        match self {
            AuthError::Credentials(e) => cat2("could not read peer credentials: ", e.as_str()),
            AuthError::Unauthorized => "local peer is not authorized".to_owned(),
        }
    }
}

/// What a peer is answered: a failure to know it as it came, and itself where it
/// is of the expected user.
pub open spec fn peer_outcome(
    credentials: Result<PeerCredentials, AuthError>,
    expected_uid: u32,
    r: Result<PeerCredentials, AuthError>,
) -> bool {
    match credentials {
        Err(e) => r == Err::<PeerCredentials, AuthError>(e),
        Ok(c) => r == if c.uid == expected_uid {
            Ok::<PeerCredentials, AuthError>(c)
        } else {
            Err(AuthError::Unauthorized)
        },
    }
}

/// Lets a peer in whose user is the expected one. `credentials` is what asking
/// the socket for its peer came to.
pub fn authenticate_same_uid(
    credentials: Result<PeerCredentials, AuthError>,
    expected_uid: u32,
) -> (r: Result<PeerCredentials, AuthError>)
    ensures
        peer_outcome(credentials, expected_uid, r),
{
    let c = credentials?;
    if c.uid == expected_uid {
        Ok(c)
    } else {
        Err(AuthError::Unauthorized)
    }
}

/// A peer is let in as itself, and only where it is of the expected user; a peer
/// that could not be known is not, and why is handed on.
pub proof fn only_the_same_user_is_let_in(
    credentials: Result<PeerCredentials, AuthError>,
    expected: u32,
    r: Result<PeerCredentials, AuthError>,
)
    requires
        peer_outcome(credentials, expected, r),
    ensures
        r is Ok <==> credentials is Ok && credentials->Ok_0.uid == expected,
        r is Ok ==> r->Ok_0 == credentials->Ok_0,
        credentials is Err ==> r->Err_0 == credentials->Err_0,
        credentials is Ok && credentials->Ok_0.uid != expected ==> r->Err_0 is Unauthorized,
{
}

} // verus!
