use vstd::prelude::*;

pub mod crawl;
pub mod engine;
pub mod extract;
pub mod errors;
pub mod models;
pub mod page;
pub mod pipeline;
pub mod selector;
pub mod serve;
pub mod strings;
pub mod timer;
pub mod url;
pub mod verbose;

verus! {

/// The fixed identity header sent with every outbound request.
pub const USER_AGENT: &'static str =
    "Mozilla/5.0 (X11; Linux x86_64; rv:63.0) Servo/1.0 Firefox/63.0 aoooftis/0.1.0 (txuritan@protonmail.com)";

/// The cookie that unlocks adult-flagged pages.
pub const ADULT_COOKIE: &'static str = "view_adult=true";

/// Runtime configuration for the crawler and the index.
pub struct Conf {
    /// SQLite database path.
    pub database: String,
    /// Path to store indexed story data.
    pub index: String,
}

pub fn default_database() -> (r: String)
    ensures
        r@ == "ao3fti.db"@,
{
    String::from_str("ao3fti.db")
}

pub fn default_index() -> (r: String)
    ensures
        r@ == "./index"@,
{
    String::from_str("./index")
}

} // verus!
