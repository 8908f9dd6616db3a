//! Connection options for NATS out of a configuration.
use vstd::prelude::*;
use crate::table::{config_get, setting, Config};
use crate::text::{cat2, opt_view};

verus! {

pub enum NatsAuth {
    Open,
    Jwt { jwt: String, seed: String },
    Token(String),
    UserPassword { user: String, password: String },
}

pub struct NatsOptions {
    pub auth: NatsAuth,
    /// Path of the CA certificate.
    pub root_certificates: Option<String>,
    /// Paths of the client certificate and its key.
    pub client_certificate: Option<(String, String)>,
}

pub enum NatsAuthView {
    Open,
    Jwt { jwt: Seq<char>, seed: Seq<char> },
    Token(Seq<char>),
    UserPassword { user: Seq<char>, password: Seq<char> },
}

impl NatsAuth {
    pub open spec fn view(&self) -> NatsAuthView {
        match self {
            NatsAuth::Open => NatsAuthView::Open,
            NatsAuth::Jwt { jwt, seed } => NatsAuthView::Jwt { jwt: jwt@, seed: seed@ },
            NatsAuth::Token(t) => NatsAuthView::Token(t@),
            NatsAuth::UserPassword { user, password } => NatsAuthView::UserPassword {
                user: user@,
                password: password@,
            },
        }
    }
}

/// The message of the error with which `nkeys` rejects a seed; none where it takes the seed.
pub uninterp spec fn nkey_seed_error(seed: Seq<char>) -> Option<Seq<char>>;

/// `nkeys::KeyPair::from_seed`: the message of its error, if it gives one.
#[verifier::external_body]
fn seed_error(seed: &str) -> (r: Option<String>)
    ensures
        opt_view(r) == nkey_seed_error(seed@),
{
    nkeys::KeyPair::from_seed(seed).err().map(|e| e.to_string())
}

/// The authentication that a configuration asks for. A JWT goes before a token, a token before a
/// user; `seed_error` is the error that the seed of the JWT meets.
pub open spec fn auth_of(
    c: Map<Seq<char>, String>,
    seed_error: Option<Seq<char>>,
) -> Result<NatsAuthView, Seq<char>> {
    match setting(c, "nats_jwt"@) {
        Some(jwt) => match setting(c, "nats_nkey_seed"@) {
            None => Err("nats_jwt requires nats_nkey_seed"@),
            Some(seed) => match seed_error {
                Some(e) => Err("invalid nkey seed: "@ + e),
                None => Ok(NatsAuthView::Jwt { jwt, seed }),
            },
        },
        None => match setting(c, "nats_token"@) {
            Some(t) => Ok(NatsAuthView::Token(t)),
            None => match setting(c, "nats_user"@) {
                None => Ok(NatsAuthView::Open),
                Some(user) => match setting(c, "nats_password"@) {
                    None => Err("nats_user requires nats_password"@),
                    Some(password) => Ok(NatsAuthView::UserPassword { user, password }),
                },
            },
        },
    }
}

pub open spec fn certificate_of(c: Map<Seq<char>, String>) -> Option<(Seq<char>, Seq<char>)> {
    match (setting(c, "nats_tls_cert"@), setting(c, "nats_tls_key"@)) {
        (Some(cert), Some(key)) => Some((cert, key)),
        _ => None,
    }
}

pub open spec fn pair_view(p: Option<(String, String)>) -> Option<(Seq<char>, Seq<char>)> {
    match p {
        Some(x) => Some((x.0@, x.1@)),
        None => None,
    }
}

pub open spec fn auth_result(r: Result<NatsAuth, String>) -> Result<NatsAuthView, Seq<char>> {
    match r {
        Ok(a) => Ok(a@),
        Err(e) => Err(e@),
    }
}

/// Chooses the authentication, given the error that the configured seed meets.
pub fn choose_auth(config: &Config, seed_error: Option<String>) -> (r: Result<NatsAuth, String>)
    ensures
        auth_result(r) == auth_of(config@, opt_view(seed_error)),
{
    if let Some(jwt) = config_get(config, "nats_jwt") {
        match config_get(config, "nats_nkey_seed") {
            None => Err("nats_jwt requires nats_nkey_seed".to_owned()),
            Some(seed) => match seed_error {
                Some(e) => Err(cat2("invalid nkey seed: ", &e)),
                None => Ok(NatsAuth::Jwt { jwt, seed }),
            },
        }
    } else if let Some(token) = config_get(config, "nats_token") {
        Ok(NatsAuth::Token(token))
    } else if let Some(user) = config_get(config, "nats_user") {
        match config_get(config, "nats_password") {
            None => Err("nats_user requires nats_password".to_owned()),
            Some(password) => Ok(NatsAuth::UserPassword { user, password }),
        }
    } else {
        Ok(NatsAuth::Open)
    }
}

/// The error of the configured seed, where a seed is configured.
pub open spec fn configured_seed_error(c: Map<Seq<char>, String>) -> Option<Seq<char>> {
    match setting(c, "nats_nkey_seed"@) {
        Some(seed) => nkey_seed_error(seed),
        None => None,
    }
}

/// Builds the connection options from a configuration.
///
/// Keys, in order of priority: `nats_jwt` with `nats_nkey_seed`; `nats_token`; `nats_user` with
/// `nats_password`. Besides these `nats_tls_ca`, and `nats_tls_cert` with `nats_tls_key`.
pub fn build_nats_connect_options(config: &Config) -> (r: Result<NatsOptions, String>)
    ensures
        match r {
            Ok(o) => auth_of(config@, configured_seed_error(config@)) == Ok::<
                NatsAuthView,
                Seq<char>,
            >(o.auth@) && opt_view(o.root_certificates) == setting(config@, "nats_tls_ca"@)
                && pair_view(o.client_certificate) == certificate_of(config@),
            Err(e) => auth_of(config@, configured_seed_error(config@)) == Err::<
                NatsAuthView,
                Seq<char>,
            >(e@),
        },
{
    let seed_err = match config_get(config, "nats_nkey_seed") {
        Some(seed) => seed_error(&seed),
        None => None,
    };
    match choose_auth(config, seed_err) {
        Err(e) => Err(e),
        Ok(auth) => {
            let client_certificate = match (
                config_get(config, "nats_tls_cert"),
                config_get(config, "nats_tls_key"),
            ) {
                (Some(cert), Some(key)) => Some((cert, key)),
                _ => None,
            };
            Ok(
                NatsOptions {
                    auth,
                    root_certificates: config_get(config, "nats_tls_ca"),
                    client_certificate,
                },
            )
        },
    }
}

/// Why a server could not be connected to.
pub fn connect_error(message: &str) -> (r: String)
    ensures
        r@ == "failed to connect to NATS: "@ + message@,
{
    cat2("failed to connect to NATS: ", message)
}

/// A JWT and its seed decide the authentication, whatever else is configured.
pub proof fn jwt_has_priority(c: Map<Seq<char>, String>, jwt: Seq<char>, seed: Seq<char>)
    requires
        setting(c, "nats_jwt"@) == Some(jwt),
        setting(c, "nats_nkey_seed"@) == Some(seed),
        nkey_seed_error(seed) is None,
    ensures
        auth_of(c, configured_seed_error(c)) == Ok::<NatsAuthView, Seq<char>>(
            NatsAuthView::Jwt { jwt, seed },
        ),
{
}

// ---- Laws ----

/// A token of a signed user goes before a plain one, and that before a user and a password; each is
/// taken from its own setting, and what it needs besides must be there.
pub proof fn credentials_in_their_order(c: Map<Seq<char>, String>, seed_error: Option<Seq<char>>)
    ensures
        match auth_of(c, seed_error) {
            Ok(NatsAuthView::Jwt { jwt, seed }) => c.contains_key("nats_jwt"@) && c.contains_key(
                "nats_nkey_seed"@,
            ) && jwt == c["nats_jwt"@]@ && seed == c["nats_nkey_seed"@]@ && seed_error is None,
            Ok(NatsAuthView::Token(t)) => !c.contains_key("nats_jwt"@) && c.contains_key(
                "nats_token"@,
            ) && t == c["nats_token"@]@,
            Ok(NatsAuthView::UserPassword { user, password }) => !c.contains_key("nats_jwt"@)
                && !c.contains_key("nats_token"@) && c.contains_key("nats_user"@) && c.contains_key(
                "nats_password"@,
            ) && user == c["nats_user"@]@ && password == c["nats_password"@]@,
            Ok(NatsAuthView::Open) => !c.contains_key("nats_jwt"@) && !c.contains_key("nats_token"@)
                && !c.contains_key("nats_user"@),
            Err(e) => if c.contains_key("nats_jwt"@) {
                if c.contains_key("nats_nkey_seed"@) {
                    seed_error is Some && e == "invalid nkey seed: "@ + seed_error->0
                } else {
                    e == "nats_jwt requires nats_nkey_seed"@
                }
            } else {
                !c.contains_key("nats_token"@) && c.contains_key("nats_user"@) && !c.contains_key(
                    "nats_password"@,
                ) && e == "nats_user requires nats_password"@
            },
        },
{
}

/// A client certificate is taken with its key, and not without.
pub proof fn certificates_need_their_key(c: Map<Seq<char>, String>)
    ensures
        match certificate_of(c) {
            Some(p) => c.contains_key("nats_tls_cert"@) && c.contains_key("nats_tls_key"@) && p.0
                == c["nats_tls_cert"@]@ && p.1 == c["nats_tls_key"@]@,
            None => !c.contains_key("nats_tls_cert"@) || !c.contains_key("nats_tls_key"@),
        },
{
}

/// The seed that is checked is the configured one.
pub proof fn the_configured_seed_is_checked(c: Map<Seq<char>, String>)
    ensures
        c.contains_key("nats_nkey_seed"@) ==> configured_seed_error(c) == nkey_seed_error(
            c["nats_nkey_seed"@]@,
        ),
        !c.contains_key("nats_nkey_seed"@) ==> configured_seed_error(c) is None,
{
}

} // verus!
