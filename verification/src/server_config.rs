//! How the server reads its settings from the environment: the database
//! URL, the listening address and the log filter, each with its default.

use crate::text::{chars_of, push_all, string_from_chars};
use vstd::prelude::*;

verus! {

/// The database URL: `DATABASE_URL` when set, else `sqlite://lunaris.db`.
pub open spec fn database_url_text(env: Option<Seq<char>>) -> Seq<char> {
    match env {
        Some(u) => u,
        None => "sqlite://lunaris.db"@,
    }
}

fn prefixed(prefix: &str, rest: &str) -> (res: String)
    ensures
        res@ == prefix@ + rest@,
{
    let mut v = chars_of(prefix);
    let r = chars_of(rest);
    push_all(&mut v, r.as_slice());
    string_from_chars(v.as_slice())
}

/// The database URL, from `DATABASE_URL` if set.
pub fn find_database_url(env: Option<String>) -> (res: String)
    ensures
        res@ == database_url_text(
            match env {
                Some(u) => Some(u@),
                None => None,
            },
        ),
        env is None ==> res@ == "sqlite://lunaris.db"@,
{
    match env {
        Some(u) => u,
        None => "sqlite://lunaris.db".to_string(),
    }
}

/// The address the server listens on: every interface, at `SERVER_PORT`
/// or 8080.
pub fn listen_address(port_env: Option<String>) -> (res: String)
    ensures
        res@ == "0.0.0.0:"@ + match port_env {
            Some(p) => p@,
            None => "8080"@,
        },
{
    match port_env {
        Some(p) => prefixed("0.0.0.0:", p.as_str()),
        None => prefixed("0.0.0.0:", "8080"),
    }
}

/// The log filter: `RUST_LOG` or `info,server=debug`.
pub fn log_filter(env: Option<String>) -> (res: String)
    ensures
        res@ == match env {
            Some(f) => f@,
            None => "info,server=debug"@,
        },
{
    match env {
        Some(f) => f,
        None => "info,server=debug".to_string(),
    }
}

} // verus!
