//! SSH authentication methods.
use vstd::prelude::*;

verus! {

/// How a session authenticates; each method names the remote user.
#[derive(Debug, PartialEq, Eq)]
pub enum AuthMethod {
    Password { username: String, password: Option<String> },
    PrivateKey { username: String, key_path: String, passphrase: Option<String> },
    Agent { username: String },
    KeyboardInteractive { username: String },
}

/// The remote user of a method.
pub open spec fn auth_username(auth: AuthMethod) -> Seq<char> {
    match auth {
        AuthMethod::Password { username, .. } => username@,
        AuthMethod::PrivateKey { username, .. } => username@,
        AuthMethod::Agent { username } => username@,
        AuthMethod::KeyboardInteractive { username } => username@,
    }
}

pub fn clone_opt_string(s: &Option<String>) -> (c: Option<String>)
    ensures
        c == *s,
{
    match s {
        Some(v) => Some(v.clone()),
        None => None,
    }
}

impl AuthMethod {
    /// The remote user.
    pub fn username(&self) -> (u: &str)
        ensures
            u@ == auth_username(*self),
    {
        match self {
            AuthMethod::Password { username, .. } => username.as_str(),
            AuthMethod::PrivateKey { username, .. } => username.as_str(),
            AuthMethod::Agent { username } => username.as_str(),
            AuthMethod::KeyboardInteractive { username } => username.as_str(),
        }
    }
}

impl Clone for AuthMethod {
    fn clone(&self) -> (c: AuthMethod)
        ensures
            c == *self,
    {
        match self {
            AuthMethod::Password { username, password } => AuthMethod::Password {
                username: username.clone(),
                password: clone_opt_string(password),
            },
            AuthMethod::PrivateKey { username, key_path, passphrase } => AuthMethod::PrivateKey {
                username: username.clone(),
                key_path: key_path.clone(),
                passphrase: clone_opt_string(passphrase),
            },
            AuthMethod::Agent { username } => AuthMethod::Agent { username: username.clone() },
            AuthMethod::KeyboardInteractive { username } => AuthMethod::KeyboardInteractive {
                username: username.clone(),
            },
        }
    }
}

} // verus!
