//! Startup settings and their defaults.
use vstd::prelude::*;

verus! {

pub const DEFAULT_MONGODB_URI: &'static str = "mongodb://localhost:27017";

pub const DEFAULT_DATABASE: &'static str = "wizards_portfolio";

pub const DEFAULT_HOST: &'static str = "127.0.0.1";

pub const DEFAULT_PORT: u16 = 8080;

/// The run mode in which detailed errors are shown.
pub const DEVELOPMENT: &'static str = "development";

/// A setting read from the environment, or its default where it is unset.
pub fn setting_or(value: Option<String>, default: &str) -> (r: String)
    ensures
        r@ == (match value {
            Some(v) => v@,
            None => default@,
        }),
{
    match value {
        Some(v) => v,
        None => default.to_owned(),
    }
}

/// Whether the process runs in development mode: `RUST_ENV` unset or
/// `development`.
pub fn is_dev_mode(rust_env: Option<String>) -> (r: bool)
    ensures
        r == (match rust_env {
            Some(v) => v@ == DEVELOPMENT@,
            None => true,
        }),
{
    let mode = setting_or(rust_env, DEVELOPMENT);
    mode == DEVELOPMENT.to_owned()
}

/// The state reported by the health endpoint: `(service, database)`.
pub fn health_status(database_reachable: bool) -> (r: (&'static str, &'static str))
    ensures
        database_reachable ==> r.0@ == "healthy"@ && r.1@ == "connected"@,
        !database_reachable ==> r.0@ == "unhealthy"@ && r.1@ == "disconnected"@,
{
    if database_reachable {
        ("healthy", "connected")
    } else {
        ("unhealthy", "disconnected")
    }
}

} // verus!
