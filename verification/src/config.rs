//! The hosts to browse, as the configuration names them.

use vstd::prelude::*;

verus! {

/// The whole configuration: the hosts, in the order in which they are offered.
#[derive(Debug)]
pub struct Config {
    pub sources: Vec<Source>,
}

/// One host: where its database listens, the database to browse, and, where it
/// is reached through a tunnel, the user of the tunnel and the local port that
/// the tunnel forwards.
#[derive(Debug, Clone)]
pub struct Source {
    pub ip: String,
    pub port: usize,
    pub ssh_user: Option<String>,
    pub ssh_password: Option<String>,
    pub local_port: Option<usize>,
    pub db: String,
}

} // verus!
