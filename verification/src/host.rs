//! Host sessions: one per configured host, and the registry that keeps them
//! with the active one in front.

use crate::config::Source;
use crate::td::{sorted_texts, stable_names, STable};
use crate::text::{clone_strings, decimal, decimal_text, texts};
use vstd::prelude::*;
use vstd::string::*;

verus! {

/// The port on which a database listens where no tunnel leads to it.
pub const DIRECT_PORT: u64 = 6030;

/// Why a host cannot be connected.
#[derive(Debug, Clone, Copy, PartialEq, Eq)]
pub enum ConnectError {
    /// A tunnel is asked for, but no local port is given for it.
    MissingLocalPort,
}

/// Why the active host was not switched.
#[derive(Debug, Clone, Copy, PartialEq, Eq)]
pub enum RegistryError {
    /// No session of the registry has that address.
    UnknownHost,
}

/// One host at run time: what the configuration says of it, the open handle of
/// its database once it is connected, and the names of its tables, sorted.
///
/// `H` is the handle of the database client; nothing here looks into it.
pub struct HostData<H> {
    pub ip: String,
    pub port: usize,
    pub local_port: Option<usize>,
    pub ssh_user: Option<String>,
    pub password: Option<String>,
    pub taos: Option<H>,
    pub db: String,
    pub stables: Vec<String>,
}

/// The sessions of all hosts. The one in front is the active one.
pub struct SessionRegistry<H> {
    pub hosts: Vec<HostData<H>>,
}

/// The forwarding that the tunnel is asked for: the local port, the loopback
/// address, and the database's port on the far side.
pub open spec fn forward_text(local_port: nat, port: nat) -> Seq<char> {
    decimal_text(local_port) + ":127.0.0.1:"@ + decimal_text(port)
}

/// The far end of the tunnel: the user at the host.
pub open spec fn login_text(user: Seq<char>, ip: Seq<char>) -> Seq<char> {
    user + "@"@ + ip
}

/// The arguments of the tunnel's command.
pub open spec fn tunnel_texts(user: Seq<char>, ip: Seq<char>, local_port: nat, port: nat) -> Seq<
    Seq<char>,
> {
    seq!["-NL"@, forward_text(local_port, port), login_text(user, ip)]
}

/// Where the database of a host is reached: through the tunnel at the local
/// port, or at the host itself.
pub open spec fn dsn_text(ip: Seq<char>, tunnel_port: Option<nat>) -> Seq<char> {
    match tunnel_port {
        Some(local_port) => "taos://127.0.0.1:"@ + decimal_text(local_port),
        None => "taos://"@ + ip + ":"@ + decimal_text(DIRECT_PORT as nat),
    }
}

/// The session of a host before it is connected, and the arguments of the
/// command that opens its tunnel, where the host is reached through one.
///
/// Fails exactly when a tunnel is asked for and no local port is configured.
pub fn connect_host<H>(config: Source) -> (out: Result<
    (HostData<H>, Option<Vec<String>>),
    ConnectError,
>)
    ensures
        match out {
            Ok((host, tunnel)) => {
                &&& host.ip == config.ip
                &&& host.port == config.port
                &&& host.local_port == config.local_port
                &&& host.ssh_user == config.ssh_user
                &&& host.password == config.ssh_password
                &&& host.db == config.db
                &&& host.taos is None
                &&& host.stables@.len() == 0
                &&& match config.ssh_user {
                    Some(user) => config.local_port is Some && tunnel is Some && texts(tunnel->0@)
                        == tunnel_texts(
                        user@,
                        config.ip@,
                        config.local_port->0 as nat,
                        config.port as nat,
                    ),
                    None => tunnel is None,
                }
            },
            Err(e) => e == ConnectError::MissingLocalPort && config.ssh_user is Some
                && config.local_port is None,
        },
{
    let tunnel = match &config.ssh_user {
        Some(user) => {
            match config.local_port {
                Some(local_port) => {
                    let mut forward = decimal(local_port as u64);
                    forward.append(":127.0.0.1:");
                    forward.append(decimal(config.port as u64).as_str());
                    let mut login = user.clone();
                    login.append("@");
                    login.append(config.ip.as_str());
                    let mut args: Vec<String> = Vec::new();
                    args.push(String::from_str("-NL"));
                    args.push(forward);
                    args.push(login);
                    assert(texts(args@) =~= tunnel_texts(
                        user@,
                        config.ip@,
                        local_port as nat,
                        config.port as nat,
                    ));
                    Some(args)
                },
                None => {
                    return Err(ConnectError::MissingLocalPort);
                },
            }
        },
        None => None,
    };
    let host = HostData {
        ip: config.ip,
        port: config.port,
        local_port: config.local_port,
        ssh_user: config.ssh_user,
        password: config.ssh_password,
        taos: None,
        db: config.db,
        stables: Vec::new(),
    };
    Ok((host, tunnel))
}

/// The address at which the database of `host` is to be opened.
///
/// Fails exactly when a tunnel is asked for and no local port is configured.
pub fn dsn<H>(host: &HostData<H>) -> (out: Result<String, ConnectError>)
    ensures
        match out {
            Ok(text) => match host.ssh_user {
                Some(_) => host.local_port is Some && text@ == dsn_text(
                    host.ip@,
                    Some(host.local_port->0 as nat),
                ),
                None => text@ == dsn_text(host.ip@, None),
            },
            Err(e) => e == ConnectError::MissingLocalPort && host.ssh_user is Some
                && host.local_port is None,
        },
{
    if host.ssh_user.is_some() {
        match host.local_port {
            Some(local_port) => {
                let mut text = String::from_str("taos://127.0.0.1:");
                text.append(decimal(local_port as u64).as_str());
                Ok(text)
            },
            None => Err(ConnectError::MissingLocalPort),
        }
    } else {
        let mut text = String::from_str("taos://");
        text.append(host.ip.as_str());
        text.append(":");
        text.append(decimal(DIRECT_PORT).as_str());
        Ok(text)
    }
}

/// Makes `host` a connected session: it keeps the open handle, and the names
/// that the database listed become its catalog, sorted.
pub fn connect_taos<H>(host: &mut HostData<H>, taos: H, names: Vec<String>)
    ensures
        final(host).taos == Some(taos),
        texts(final(host).stables@).to_multiset() == texts(names@).to_multiset(),
        sorted_texts(texts(final(host).stables@)),
        final(host).ip == old(host).ip,
        final(host).port == old(host).port,
        final(host).local_port == old(host).local_port,
        final(host).ssh_user == old(host).ssh_user,
        final(host).password == old(host).password,
        final(host).db == old(host).db,
{
    let stables = STable::get_stables(names);
    let mut catalog: Vec<String> = Vec::new();
    let mut i: usize = 0;
    while i < stables.len()
        invariant
            i <= stables@.len(),
            catalog@.len() == i,
            forall|j: int| 0 <= j < i ==> catalog@[j]@ == stables@[j].stable_name@,
        decreases stables@.len() - i,
    {
        catalog.push(stables[i].stable_name.clone());
        i = i + 1;
    }
    assert(texts(catalog@) =~= stable_names(stables@));
    host.stables = catalog;
    host.taos = Some(taos);
}

/// Whether no session before place `k` has the address `ip`.
pub open spec fn none_before<H>(hosts: Seq<HostData<H>>, ip: Seq<char>, k: int) -> bool {
    forall|j: int| 0 <= j < k && j < hosts.len() ==> (#[trigger] hosts[j]).ip@ != ip
}

impl<H> SessionRegistry<H> {
    /// The registry of these sessions; the first of them is the active one.
    pub fn new(hosts: Vec<HostData<H>>) -> (registry: SessionRegistry<H>)
        ensures
            registry.hosts == hosts,
    {
        SessionRegistry { hosts }
    }

    /// Makes the first session with the address `ip` the active one: it
    /// changes places with the session in front. Returns the place it had,
    /// where the formerly active session now stands; no session is lost.
    ///
    /// Fails, and changes nothing, exactly when no session has that address.
    pub fn switch_active(&mut self, ip: &String) -> (out: Result<usize, RegistryError>)
        ensures
            match out {
                Ok(k) => {
                    &&& k < old(self).hosts@.len()
                    &&& old(self).hosts@[k as int].ip@ == ip@
                    &&& none_before(old(self).hosts@, ip@, k as int)
                    &&& final(self).hosts@ == old(self).hosts@.update(
                        0,
                        old(self).hosts@[k as int],
                    ).update(k as int, old(self).hosts@[0])
                },
                Err(e) => {
                    &&& e == RegistryError::UnknownHost
                    &&& none_before(old(self).hosts@, ip@, old(self).hosts@.len() as int)
                    &&& final(self).hosts@ == old(self).hosts@
                },
            },
    {
        let n = self.hosts.len();
        let mut k: usize = 0;
        while k < n
            invariant
                n == self.hosts@.len(),
                k <= n,
                self.hosts@ == old(self).hosts@,
                none_before(self.hosts@, ip@, k as int),
            decreases n - k,
        {
            if self.hosts[k].ip == *ip {
                if k > 0 {
                    let chosen = self.hosts.remove(k);
                    let front = self.hosts.remove(0);
                    self.hosts.insert(0, chosen);
                    self.hosts.insert(k, front);
                }
                assert(self.hosts@ =~= old(self).hosts@.update(
                    0,
                    old(self).hosts@[k as int],
                ).update(k as int, old(self).hosts@[0]));
                return Ok(k);
            }
            k = k + 1;
        }
        Err(RegistryError::UnknownHost)
    }

    /// The active session: the one in front.
    pub fn active(&self) -> (host: &HostData<H>)
        requires
            self.hosts@.len() > 0,
        ensures
            *host == self.hosts@[0],
    {
        &self.hosts[0]
    }

    /// The table to show first: the first of the active host's catalog. None
    /// where there is no session, or the active host lists no table.
    pub fn first_stable(&self) -> (name: Option<String>)
        ensures
            match name {
                Some(n) => self.hosts@.len() > 0 && self.hosts@[0].stables@.len() > 0 && n@
                    == self.hosts@[0].stables@[0]@,
                None => self.hosts@.len() == 0 || self.hosts@[0].stables@.len() == 0,
            },
    {
        if self.hosts.len() == 0 {
            return None;
        }
        let active = &self.hosts[0];
        if active.stables.len() == 0 {
            None
        } else {
            Some(active.stables[0].clone())
        }
    }

    /// The catalog of the active host.
    pub fn get_stables(&self) -> (names: Vec<String>)
        requires
            self.hosts@.len() > 0,
        ensures
            texts(names@) == texts(self.hosts@[0].stables@),
    {
        clone_strings(&self.hosts[0].stables)
    }
}

} // verus!
