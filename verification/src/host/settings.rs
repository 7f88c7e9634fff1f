//! Settings of the room host: where it listens and the room it opens. Each setting is
//! taken from the command line, else the environment, else a settings file, else its
//! default; the room's public address is derived from them when none is given.

use vstd::prelude::*;
use crate::basic::room::{decimal, usize_to_decimal};
use crate::tui::config::first_of;

verus! {

/// The room host's settings.
#[derive(Debug, Clone)]
pub struct ServerConfig {
    pub port: u16,
    /// The address to listen on.
    pub host: String,
    /// The game to play.
    pub app: String,
    pub room_id: String,
    pub title: String,
    pub description: Option<String>,
    pub owner_id: String,
    pub owner_name: String,
    /// The public address of the room, if given.
    pub endpoint: Option<String>,
}

/// The host settings one source gives; None where it says nothing.
#[derive(Debug, Clone)]
pub struct HostLayer {
    pub port: Option<u16>,
    pub host: Option<String>,
    pub app: Option<String>,
    pub room_id: Option<String>,
    pub title: Option<String>,
    pub description: Option<String>,
    pub owner_id: Option<String>,
    pub owner_name: Option<String>,
    pub endpoint: Option<String>,
}

impl HostLayer {
    /// A source that says nothing.
    pub fn nothing() -> (l: HostLayer)
        ensures
            l.port is None,
            l.host is None,
            l.app is None,
            l.room_id is None,
            l.title is None,
            l.description is None,
            l.owner_id is None,
            l.owner_name is None,
            l.endpoint is None,
    {
        HostLayer {
            port: None,
            host: None,
            app: None,
            room_id: None,
            title: None,
            description: None,
            owner_id: None,
            owner_name: None,
            endpoint: None,
        }
    }
}

impl Default for ServerConfig {
    fn default() -> (c: ServerConfig)
        ensures
            c.port == 3000,
            c.host@ == "0.0.0.0"@,
            c.app@ == "doudizhu"@,
            c.room_id@ == "room-1"@,
            c.title@ == "OpenPlay Room"@,
            c.description is Some && c.description->0@ == "A default OpenPlay room"@,
            c.owner_id@ == "system"@,
            c.owner_name@ == "System"@,
            c.endpoint is None,
    {
        ServerConfig {
            port: 3000,
            host: String::from_str("0.0.0.0"),
            app: String::from_str("doudizhu"),
            room_id: String::from_str("room-1"),
            title: String::from_str("OpenPlay Room"),
            description: Some(String::from_str("A default OpenPlay room")),
            owner_id: String::from_str("system"),
            owner_name: String::from_str("System"),
            endpoint: None,
        }
    }
}

/// The text of the first source that gives one, else the default.
pub open spec fn text_or(v: Option<String>, default: Seq<char>) -> Seq<char> {
    match v {
        Some(s) => s@,
        None => default,
    }
}

/// The port of the first source that gives one, else 3000.
pub open spec fn port_of(cli: Option<u16>, env: Option<u16>, file: Option<u16>) -> u16 {
    if cli is Some {
        cli->0
    } else if env is Some {
        env->0
    } else if file is Some {
        file->0
    } else {
        3000
    }
}

/// The settings from the three sources, each from the first that gives it, else its default.
pub open spec fn layered_from(c: ServerConfig, cli: HostLayer, env: HostLayer, file: HostLayer) -> bool {
    &&& c.port == port_of(cli.port, env.port, file.port)
    &&& c.host@ == text_or(first_of(cli.host, env.host, file.host), "0.0.0.0"@)
    &&& c.app@ == text_or(first_of(cli.app, env.app, file.app), "doudizhu"@)
    &&& c.room_id@ == text_or(first_of(cli.room_id, env.room_id, file.room_id), "room-1"@)
    &&& c.title@ == text_or(first_of(cli.title, env.title, file.title), "OpenPlay Room"@)
    &&& c.description is Some
    &&& c.description->0@ == text_or(
        first_of(cli.description, env.description, file.description),
        "A default OpenPlay room"@,
    )
    &&& c.owner_id@ == text_or(first_of(cli.owner_id, env.owner_id, file.owner_id), "system"@)
    &&& c.owner_name@ == text_or(first_of(cli.owner_name, env.owner_name, file.owner_name), "System"@)
    &&& c.endpoint == first_of(cli.endpoint, env.endpoint, file.endpoint)
}

/// The first text given, as a copy, else the default.
fn pick_text(a: &Option<String>, b: &Option<String>, c: &Option<String>, default: String) -> (r: String)
    ensures
        r@ == text_or(first_of(*a, *b, *c), default@),
{
    match a {
        Some(s) => s.clone(),
        None => match b {
            Some(s) => s.clone(),
            None => match c {
                Some(s) => s.clone(),
                None => default,
            },
        },
    }
}

/// The first text given, as a copy.
fn pick_opt(a: &Option<String>, b: &Option<String>, c: &Option<String>) -> (r: Option<String>)
    ensures
        r == first_of(*a, *b, *c),
{
    match a {
        Some(s) => Some(s.clone()),
        None => match b {
            Some(s) => Some(s.clone()),
            None => match c {
                Some(s) => Some(s.clone()),
                None => None,
            },
        },
    }
}

/// The host a public address names: a wildcard listening address is reached as "localhost".
pub open spec fn display_host(host: Seq<char>) -> Seq<char> {
    if host == "0.0.0.0"@ || host == "::"@ {
        "localhost"@
    } else {
        host
    }
}

/// The room's public address: the one given, else `http://<host>:<port>/room`.
pub open spec fn endpoint_of(c: ServerConfig) -> Seq<char> {
    match c.endpoint {
        Some(e) => e@,
        None => "http://"@ + display_host(c.host@) + ":"@ + decimal(c.port as nat) + "/room"@,
    }
}

impl ServerConfig {
    /// The settings, each from the command line if given there, else from the
    /// environment, else from the settings file, else its default.
    pub fn load(cli: &HostLayer, env: &HostLayer, file: &HostLayer) -> (c: ServerConfig)
        ensures
            layered_from(c, *cli, *env, *file),
    {
        let d = ServerConfig::default();
        let port = match cli.port {
            Some(p) => p,
            None => match env.port {
                Some(p) => p,
                None => match file.port {
                    Some(p) => p,
                    None => d.port,
                },
            },
        };
        let description = match pick_opt(&cli.description, &env.description, &file.description) {
            Some(s) => s,
            None => String::from_str("A default OpenPlay room"),
        };
        ServerConfig {
            port,
            host: pick_text(&cli.host, &env.host, &file.host, d.host),
            app: pick_text(&cli.app, &env.app, &file.app, d.app),
            room_id: pick_text(&cli.room_id, &env.room_id, &file.room_id, d.room_id),
            title: pick_text(&cli.title, &env.title, &file.title, d.title),
            description: Some(description),
            owner_id: pick_text(&cli.owner_id, &env.owner_id, &file.owner_id, d.owner_id),
            owner_name: pick_text(&cli.owner_name, &env.owner_name, &file.owner_name, d.owner_name),
            endpoint: pick_opt(&cli.endpoint, &env.endpoint, &file.endpoint),
        }
    }

    /// The room's public address: the configured one, else one built from the listening
    /// address and port, with a wildcard address shown as "localhost".
    pub fn public_endpoint(&self) -> (r: String)
        ensures
            r@ == endpoint_of(*self),
    {
        match &self.endpoint {
            Some(e) => e.clone(),
            None => {
                let any4 = String::from_str("0.0.0.0");
                let any6 = String::from_str("::");
                let mut r = String::from_str("http://");
                if self.host == any4 || self.host == any6 {
                    r.append("localhost");
                } else {
                    r.append(self.host.as_str());
                }
                r.append(":");
                let port = usize_to_decimal(self.port as usize);
                r.append(port.as_str());
                r.append("/room");
                r
            },
        }
    }

    /// The address to listen on, as `<host>:<port>`.
    pub fn listen_address(&self) -> (r: String)
        ensures
            r@ == self.host@ + ":"@ + decimal(self.port as nat),
    {
        let mut r = self.host.clone();
        r.append(":");
        let port = usize_to_decimal(self.port as usize);
        r.append(port.as_str());
        r
    }
}

} // verus!
