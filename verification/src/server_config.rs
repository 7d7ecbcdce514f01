//! Configuration of the database behind the web server; parsing the command
//! line into these values is the embedding application's work.

use vstd::prelude::*;

verus! {

/// Connection values for the server's database.
#[derive(Clone, Debug, PartialEq, Eq)]
pub struct PostgresConfig {
    pub postgres_host: String,
    pub postgres_port: u16,
    pub postgres_user: String,
    pub postgres_password: Option<String>,
    pub postgres_database: Option<String>,
    pub postgres_max_connections: u32,
}

} // verus!
