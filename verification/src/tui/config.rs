//! Settings of the terminal client, taken from the command line, the environment, a
//! settings file and defaults, in that order of priority.

use vstd::prelude::*;

verus! {

/// The command-line arguments.
#[derive(Debug, Clone)]
pub struct CliArgs {
    /// Path of a settings file.
    pub config: Option<String>,
    pub server_url: Option<String>,
    pub user_id: Option<String>,
    pub locale: Option<String>,
    pub room_path: Option<String>,
}

/// The settings one source gives; None where it says nothing.
#[derive(Debug, Clone)]
pub struct ConfigLayer {
    pub server_url: Option<String>,
    pub user_id: Option<String>,
    pub locale: Option<String>,
    pub room_path: Option<String>,
}

/// The client's settings.
#[derive(Debug, Clone)]
pub struct TuiConfig {
    pub server_url: String,
    pub user_id: Option<String>,
    pub locale: Option<String>,
    pub room_path: String,
}

/// The server address used when none is given.
pub fn default_server_url() -> (s: String)
    ensures
        s@ == "http://localhost:3000"@,
{
    String::from_str("http://localhost:3000")
}

/// The room path used when none is given.
pub fn default_room_path() -> (s: String)
    ensures
        s@ == "/room/ua"@,
{
    String::from_str("/room/ua")
}

impl Default for TuiConfig {
    fn default() -> (c: TuiConfig)
        ensures
            c.server_url@ == "http://localhost:3000"@,
            c.user_id is None,
            c.locale is None,
            c.room_path@ == "/room/ua"@,
    {
        TuiConfig { server_url: default_server_url(), user_id: None, locale: None, room_path: default_room_path() }
    }
}

/// The first of the given values that is present.
pub open spec fn first_of(a: Option<String>, b: Option<String>, c: Option<String>) -> Option<String> {
    if a is Some {
        a
    } else if b is Some {
        b
    } else {
        c
    }
}

/// The first present value, as a copy.
fn pick(a: &Option<String>, b: &Option<String>, c: &Option<String>) -> (r: Option<String>)
    ensures
        r == first_of(*a, *b, *c),
{
    match a {
        Some(s) => Some(s.clone()),
        None => match b {
            Some(s) => Some(s.clone()),
            None => match c {
                Some(s) => Some(s.clone()),
                None => None,
            },
        },
    }
}

impl TuiConfig {
    /// The settings, each taken from the command line if given there, else from the
    /// environment, else from the settings file, else the default.
    pub fn load(args: &CliArgs, env: &ConfigLayer, file: &Option<ConfigLayer>) -> (c: TuiConfig)
        ensures
            ({
                let f_url = match *file { Some(f) => f.server_url, None => None };
                let f_uid = match *file { Some(f) => f.user_id, None => None };
                let f_loc = match *file { Some(f) => f.locale, None => None };
                let f_path = match *file { Some(f) => f.room_path, None => None };
                &&& c.server_url@ == match first_of(args.server_url, env.server_url, f_url) {
                    Some(u) => u@,
                    None => "http://localhost:3000"@,
                }
                &&& c.user_id == first_of(args.user_id, env.user_id, f_uid)
                &&& c.locale == first_of(args.locale, env.locale, f_loc)
                &&& c.room_path@ == match first_of(args.room_path, env.room_path, f_path) {
                    Some(p) => p@,
                    None => "/room/ua"@,
                }
            }),
    {
        let none: Option<String> = None;
        let (f_url, f_uid, f_loc, f_path) = match file {
            Some(f) => (&f.server_url, &f.user_id, &f.locale, &f.room_path),
            None => (&none, &none, &none, &none),
        };
        let server_url = match pick(&args.server_url, &env.server_url, f_url) {
            Some(u) => u,
            None => default_server_url(),
        };
        let room_path = match pick(&args.room_path, &env.room_path, f_path) {
            Some(p) => p,
            None => default_room_path(),
        };
        TuiConfig {
            server_url,
            user_id: pick(&args.user_id, &env.user_id, f_uid),
            locale: pick(&args.locale, &env.locale, f_loc),
            room_path,
        }
    }
}

} // verus!
