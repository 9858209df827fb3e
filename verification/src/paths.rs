//! Standard per-OS locations for the config file and log directory.
//!
//! | OS      | config dir                            | log dir                       |
//! |---------|---------------------------------------|-------------------------------|
//! | macOS   | `~/Library/Application Support/talpa` | `~/Library/Logs/talpa`        |
//! | Linux   | `~/.config/talpa`                     | `~/.local/state/talpa`        |
//! | Windows | `%APPDATA%\talpa`                     | `%LOCALAPPDATA%\talpa\logs`   |
//!
//! The tool runs elevated; on Unix, `sudo` sets `$HOME` to root's, so the
//! home of `SUDO_USER` is preferred when it exists. Reading the environment
//! and the file system is left to the caller: these functions take what was
//! read and compute the paths.

use vstd::prelude::*;
use crate::text::{chars_of, extend_chars, str_eq, string_from_chars};

verus! {

/// The operating system whose conventions apply.
#[derive(PartialEq, Eq, Structural, Clone, Copy, Debug)]
pub enum Os {
    MacOs,
    Linux,
    Windows,
}

/// The text of an optional owned string.
pub open spec fn opt_view(o: Option<String>) -> Option<Seq<char>> {
    match o {
        Some(s) => Some(s@),
        None => None,
    }
}

/// The text of an optional borrowed string.
pub open spec fn opt_str_view(o: Option<&str>) -> Option<Seq<char>> {
    match o {
        Some(s) => Some(s@),
        None => None,
    }
}

/// The application's directory name.
pub const APP: &'static str = "talpa";

/// Whether `c` separates path components on `os`.
pub open spec fn is_sep(os: Os, c: char) -> bool {
    c == '/' || (os == Os::Windows && c == '\\')
}

/// The separator `os` writes between components.
pub open spec fn sep(os: Os) -> char {
    if os == Os::Windows {
        '\\'
    } else {
        '/'
    }
}

/// Whether joining onto `base` needs a separator: not for an empty base,
/// one already ending in a separator, or (on Windows) a bare drive `X:`.
pub open spec fn needs_sep(os: Os, base: Seq<char>) -> bool {
    &&& base.len() > 0
    &&& !is_sep(os, base.last())
    &&& !(os == Os::Windows && base.len() == 2 && base[1] == ':')
}

/// `part` appended to `base` as a relative path component
/// (`Path::join` with a relative `part`).
pub open spec fn spec_join(os: Os, base: Seq<char>, part: Seq<char>) -> Seq<char> {
    if needs_sep(os, base) {
        base.push(sep(os)) + part
    } else {
        base + part
    }
}

/// Joins the relative component `part` onto `base`.
pub fn join(os: Os, base: &str, part: &str) -> (res: String)
    ensures
        res@ == spec_join(os, base@, part@),
{
    let b = chars_of(base);
    let win = os == Os::Windows;
    let need = b.len() > 0 && !(b[b.len() - 1] == '/' || (win && b[b.len() - 1] == '\\')) && !(win
        && b.len() == 2 && b[1] == ':');
    let mut v = b;
    if need {
        if win {
            v.push('\\');
        } else {
            v.push('/');
        }
    }
    extend_chars(&mut v, &chars_of(part));
    string_from_chars(&v)
}

/// The home directory `sudo` would have given `SUDO_USER`: `/Users/<user>`
/// on macOS, `/home/<user>` on Linux; none for an unset, empty or `root`
/// user, and none on Windows.
pub open spec fn spec_sudo_home(os: Os, sudo_user: Option<Seq<char>>) -> Option<Seq<char>> {
    match sudo_user {
        Some(u) => if os == Os::Windows || u.len() == 0 || u == "root"@ {
            None
        } else if os == Os::MacOs {
            Some("/Users/"@ + u)
        } else {
            Some("/home/"@ + u)
        },
        None => None,
    }
}

/// The candidate home of the user who ran `sudo`.
pub fn sudo_home(os: Os, sudo_user: Option<&str>) -> (res: Option<String>)
    ensures
        opt_view(res) == spec_sudo_home(os, opt_str_view(sudo_user)),
{
    match sudo_user {
        Some(u) => {
            if os == Os::Windows || chars_of(u).len() == 0 || str_eq(u, "root") {
                None
            } else {
                let mut v = if os == Os::MacOs {
                    chars_of("/Users/")
                } else {
                    chars_of("/home/")
                };
                extend_chars(&mut v, &chars_of(u));
                Some(string_from_chars(&v))
            }
        },
        None => None,
    }
}

/// The human user's home: the `sudo` user's home when it exists as a
/// directory, otherwise `$HOME`.
pub open spec fn spec_user_home(
    sudo_home: Option<Seq<char>>,
    sudo_home_is_dir: bool,
    home: Option<Seq<char>>,
) -> Option<Seq<char>> {
    match sudo_home {
        Some(h) => if sudo_home_is_dir {
            Some(h)
        } else {
            home
        },
        None => home,
    }
}

/// Picks the human user's home directory.
pub fn user_home(sudo_home: Option<String>, sudo_home_is_dir: bool, home: Option<String>) -> (res:
    Option<String>)
    ensures
        opt_view(res) == spec_user_home(
            opt_view(sudo_home),
            sudo_home_is_dir,
            opt_view(home),
        ),
{
    match sudo_home {
        Some(h) => if sudo_home_is_dir {
            Some(h)
        } else {
            home
        },
        None => home,
    }
}

/// The config directory, from the user's home (macOS, Linux) or
/// `%APPDATA%` (Windows).
pub open spec fn spec_config_dir(os: Os, home: Option<Seq<char>>, appdata: Option<Seq<char>>) -> Option<
    Seq<char>,
> {
    match os {
        Os::MacOs => match home {
            Some(h) => Some(spec_join(os, spec_join(os, h, "Library/Application Support"@), APP@)),
            None => None,
        },
        Os::Linux => match home {
            Some(h) => Some(spec_join(os, spec_join(os, h, ".config"@), APP@)),
            None => None,
        },
        Os::Windows => match appdata {
            Some(a) => Some(spec_join(os, a, APP@)),
            None => None,
        },
    }
}

/// The directory holding the config file.
pub fn config_dir(os: Os, home: Option<&str>, appdata: Option<&str>) -> (res: Option<String>)
    ensures
        opt_view(res) == spec_config_dir(
            os,
            opt_str_view(home),
            opt_str_view(appdata),
        ),
{
    match os {
        Os::MacOs => match home {
            Some(h) => Some(join(os, join(os, h, "Library/Application Support").as_str(), APP)),
            None => None,
        },
        Os::Linux => match home {
            Some(h) => Some(join(os, join(os, h, ".config").as_str(), APP)),
            None => None,
        },
        Os::Windows => match appdata {
            Some(a) => Some(join(os, a, APP)),
            None => None,
        },
    }
}

/// The log directory, from the user's home (macOS, Linux) or
/// `%LOCALAPPDATA%` (Windows).
pub open spec fn spec_log_dir(os: Os, home: Option<Seq<char>>, local_appdata: Option<Seq<char>>) -> Option<
    Seq<char>,
> {
    match os {
        Os::MacOs => match home {
            Some(h) => Some(spec_join(os, spec_join(os, h, "Library/Logs"@), APP@)),
            None => None,
        },
        Os::Linux => match home {
            Some(h) => Some(spec_join(os, spec_join(os, h, ".local/state"@), APP@)),
            None => None,
        },
        Os::Windows => match local_appdata {
            Some(a) => Some(spec_join(os, spec_join(os, a, APP@), "logs"@)),
            None => None,
        },
    }
}

/// The directory holding the log file.
pub fn log_dir_inner(os: Os, home: Option<&str>, local_appdata: Option<&str>) -> (res: Option<String>)
    ensures
        opt_view(res) == spec_log_dir(
            os,
            opt_str_view(home),
            opt_str_view(local_appdata),
        ),
{
    match os {
        Os::MacOs => match home {
            Some(h) => Some(join(os, join(os, h, "Library/Logs").as_str(), APP)),
            None => None,
        },
        Os::Linux => match home {
            Some(h) => Some(join(os, join(os, h, ".local/state").as_str(), APP)),
            None => None,
        },
        Os::Windows => match local_appdata {
            Some(a) => Some(join(os, join(os, a, APP).as_str(), "logs")),
            None => None,
        },
    }
}

/// The config file: `config.yml` in the config directory, or in the
/// working directory when there is none.
pub open spec fn spec_default_config_path(os: Os, config_dir: Option<Seq<char>>) -> Seq<char> {
    match config_dir {
        Some(d) => spec_join(os, d, "config.yml"@),
        None => "config.yml"@,
    }
}

/// The standard config file path.
pub fn default_config_path(os: Os, config_dir: Option<&str>) -> (res: String)
    ensures
        res@ == spec_default_config_path(os, opt_str_view(config_dir)),
{
    match config_dir {
        Some(d) => join(os, d, "config.yml"),
        None => "config.yml".to_owned(),
    }
}

/// The log file: `talpa.log` in the log directory, if there is one.
pub open spec fn spec_log_file(os: Os, log_dir: Option<Seq<char>>) -> Option<Seq<char>> {
    match log_dir {
        Some(d) => Some(spec_join(os, d, "talpa.log"@)),
        None => None,
    }
}

/// The log file path.
pub fn log_file(os: Os, log_dir: Option<&str>) -> (res: Option<String>)
    ensures
        opt_view(res) == spec_log_file(os, opt_str_view(log_dir)),
{
    match log_dir {
        Some(d) => Some(join(os, d, "talpa.log")),
        None => None,
    }
}

} // verus!
