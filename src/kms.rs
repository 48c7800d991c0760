//! Credentials handed to a key-management client.
use vstd::prelude::*;

verus! {

/// The context id of the host-side proxy that forwards key-management traffic.
pub const VSOCK_PROXY_CID: u32 = 3;

/// The characters of an optional string.
pub open spec fn optional_chars(s: Option<String>) -> Option<Seq<char>> {
    match s {
        Some(t) => Some(t@),
        None => None,
    }
}

/// Credentials to use for key-management requests.
pub struct Credentials {
    access_key_id: String,
    secret_access_key: String,
    session_token: Option<String>,
}

impl Credentials {
    /// A set of credentials.
    pub fn new(access_key_id: String, secret_access_key: String, session_token: Option<String>) -> (r: Self)
        ensures
            r.access_key_id() == access_key_id@,
            r.secret_access_key() == secret_access_key@,
            r.session_token() == optional_chars(session_token),
    {
        Credentials { access_key_id, secret_access_key, session_token }
    }

    /// The access key id.
    pub closed spec fn access_key_id(&self) -> Seq<char> {
        self.access_key_id@
    }

    /// The secret access key.
    pub closed spec fn secret_access_key(&self) -> Seq<char> {
        self.secret_access_key@
    }

    /// The session token, if any.
    pub closed spec fn session_token(&self) -> Option<Seq<char>> {
        optional_chars(self.session_token)
    }
}

} // verus!
