use vstd::prelude::*;

verus! {

/// How the registry authenticates the user.
#[derive(PartialEq, Eq, Structural, Clone, Copy, Debug)]
pub enum FreemindAuth {
    Token,
    Password,
}

impl FreemindAuth {
    /// The header that carries the secret for this method.
    pub fn header_name(&self) -> (r: &'static str)
        ensures
            r@ == (match self {
                FreemindAuth::Token => "token"@,
                FreemindAuth::Password => "password"@,
            }),
    {
        match self {
            FreemindAuth::Token => "token",
            FreemindAuth::Password => "password",
        }
    }
}

/// Where the registry lives and how to sign in to it.
pub struct FreemindConfig {
    pub server: String,
    pub username: String,
    pub secret: String,
    pub method: FreemindAuth,
}

impl Default for FreemindConfig {
    fn default() -> (r: FreemindConfig)
        ensures
            r.server@ == "https://example.com/api:8080"@,
            r.username@ == "username"@,
            r.secret@ == "password"@,
            r.method == FreemindAuth::Password,
    {
        FreemindConfig {
            server: "https://example.com/api:8080".to_owned(),
            username: "username".to_owned(),
            secret: "password".to_owned(),
            method: FreemindAuth::Password,
        }
    }
}

} // verus!
