//! Where the registry, the machines' files and the logs live: the directory
//! that the environment names, or else the place that the platform has for
//! such things.

use vstd::prelude::*;
use crate::platform::Platform;
use crate::supervisor::part_views;

verus! {

/// What the environment says about directories.
#[derive(Debug, PartialEq, Eq)]
pub struct DirEnv {
    /// The host operating system.
    pub platform: Platform,
    /// The configured directory for the registry.
    pub config_dir: Option<String>,
    /// The configured directory for the machines' files.
    pub data_dir: Option<String>,
    /// The configured directory for logs.
    pub log_dir: Option<String>,
    /// The user's home directory.
    pub home: Option<String>,
    /// The base directory for configuration, where the desktop names one.
    pub xdg_config_home: Option<String>,
    /// The base directory for data, where the desktop names one.
    pub xdg_data_home: Option<String>,
    /// The directory for application data on Windows.
    pub appdata: Option<String>,
    /// The directory for temporary files.
    pub temp_dir: String,
}

/// A directory: a place to start from and the names to descend from there.
#[derive(Debug, PartialEq, Eq)]
pub struct Location {
    pub root: String,
    pub parts: Vec<String>,
}

/// What a [`Location`] is, as plain values.
pub struct LocationView {
    pub root: Seq<char>,
    pub parts: Seq<Seq<char>>,
}

impl View for Location {
    type V = LocationView;

    open spec fn view(&self) -> LocationView {
        LocationView { root: self.root@, parts: part_views(self.parts@) }
    }
}

/// The directory for the registry.
///
/// A configured directory wins. Else the platform decides: on macOS the
/// application's directory below the home directory, on Linux the desktop's
/// base directory for configuration or the one below the home directory, on
/// Windows the directory for application data. Where none of these is
/// known, a directory below the one for temporary files serves.
pub open spec fn config_location(env: DirEnv) -> LocationView {
    let fallback = LocationView { root: env.temp_dir@, parts: seq!["cargobay"@] };
    match env.config_dir {
        Some(dir) => LocationView { root: dir@, parts: Seq::empty() },
        None => match env.platform {
            Platform::MacOs => match env.home {
                Some(home) => LocationView {
                    root: home@,
                    parts: seq!["Library"@, "Application Support"@, "com.cargobay.app"@],
                },
                None => fallback,
            },
            Platform::Linux => match env.xdg_config_home {
                Some(xdg) => LocationView { root: xdg@, parts: seq!["cargobay"@] },
                None => match env.home {
                    Some(home) => LocationView { root: home@, parts: seq![".config"@, "cargobay"@] },
                    None => fallback,
                },
            },
            Platform::Windows => match env.appdata {
                Some(appdata) => LocationView { root: appdata@, parts: seq!["cargobay"@] },
                None => fallback,
            },
            Platform::Other => fallback,
        },
    }
}

/// The directory for the machines' files.
///
/// A configured directory wins. On Linux the desktop's base directory for
/// data serves, or the one below the home directory. Everywhere else, and
/// where neither is known, it is the directory for the registry.
pub open spec fn data_location(env: DirEnv) -> LocationView {
    match env.data_dir {
        Some(dir) => LocationView { root: dir@, parts: Seq::empty() },
        None => if env.platform == Platform::Linux {
            match env.xdg_data_home {
                Some(xdg) => LocationView { root: xdg@, parts: seq!["cargobay"@] },
                None => match env.home {
                    Some(home) => LocationView {
                        root: home@,
                        parts: seq![".local"@, "share"@, "cargobay"@],
                    },
                    None => config_location(env),
                },
            }
        } else {
            config_location(env)
        },
    }
}

/// The directory for logs: the configured one, else on Linux the directory
/// for the machines' files, and everywhere else the directory for the
/// registry.
pub open spec fn log_location(env: DirEnv) -> LocationView {
    match env.log_dir {
        Some(dir) => LocationView { root: dir@, parts: Seq::empty() },
        None => if env.platform == Platform::Linux {
            data_location(env)
        } else {
            config_location(env)
        },
    }
}

fn below(root: &String, first: &str) -> (location: Location)
    ensures
        location@ == (LocationView { root: root@, parts: seq![first@] }),
{
    let mut parts: Vec<String> = Vec::new();
    parts.push(first.to_owned());
    proof {
        assert(part_views(parts@) =~= seq![first@]);
    }
    Location { root: root.clone(), parts }
}

fn below2(root: &String, first: &str, second: &str) -> (location: Location)
    ensures
        location@ == (LocationView { root: root@, parts: seq![first@, second@] }),
{
    let mut parts: Vec<String> = Vec::new();
    parts.push(first.to_owned());
    parts.push(second.to_owned());
    proof {
        assert(part_views(parts@) =~= seq![first@, second@]);
    }
    Location { root: root.clone(), parts }
}

fn below3(root: &String, first: &str, second: &str, third: &str) -> (location: Location)
    ensures
        location@ == (LocationView { root: root@, parts: seq![first@, second@, third@] }),
{
    let mut parts: Vec<String> = Vec::new();
    parts.push(first.to_owned());
    parts.push(second.to_owned());
    parts.push(third.to_owned());
    proof {
        assert(part_views(parts@) =~= seq![first@, second@, third@]);
    }
    Location { root: root.clone(), parts }
}

fn at(root: &String) -> (location: Location)
    ensures
        location@ == (LocationView { root: root@, parts: Seq::empty() }),
{
    let parts: Vec<String> = Vec::new();
    proof {
        assert(part_views(parts@) =~= Seq::empty());
    }
    Location { root: root.clone(), parts }
}

/// The directory for the registry.
pub fn config_dir(env: &DirEnv) -> (location: Location)
    ensures
        location@ == config_location(*env),
{
    match &env.config_dir {
        Some(dir) => {
            return at(dir);
        },
        None => {},
    }
    match env.platform {
        Platform::MacOs => match &env.home {
            Some(home) => {
                return below3(home, "Library", "Application Support", "com.cargobay.app");
            },
            None => {},
        },
        Platform::Linux => match &env.xdg_config_home {
            Some(xdg) => {
                return below(xdg, "cargobay");
            },
            None => match &env.home {
                Some(home) => {
                    return below2(home, ".config", "cargobay");
                },
                None => {},
            },
        },
        Platform::Windows => match &env.appdata {
            Some(appdata) => {
                return below(appdata, "cargobay");
            },
            None => {},
        },
        Platform::Other => {},
    }
    below(&env.temp_dir, "cargobay")
}

/// The directory for the machines' files.
pub fn data_dir(env: &DirEnv) -> (location: Location)
    ensures
        location@ == data_location(*env),
{
    match &env.data_dir {
        Some(dir) => {
            return at(dir);
        },
        None => {},
    }
    match env.platform {
        Platform::Linux => match &env.xdg_data_home {
            Some(xdg) => {
                return below(xdg, "cargobay");
            },
            None => match &env.home {
                Some(home) => {
                    return below3(home, ".local", "share", "cargobay");
                },
                None => {},
            },
        },
        _ => {},
    }
    config_dir(env)
}

/// The directory for logs.
pub fn log_dir(env: &DirEnv) -> (location: Location)
    ensures
        location@ == log_location(*env),
{
    match &env.log_dir {
        Some(dir) => {
            return at(dir);
        },
        None => {},
    }
    match env.platform {
        Platform::Linux => data_dir(env),
        _ => config_dir(env),
    }
}

} // verus!
