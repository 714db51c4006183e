use crate::backend::ScreenSize;
use crate::config::{join, join_path, trim, trim_spec};
use crate::text::{decimal, push_decimal, push_str};
use vstd::prelude::*;

verus! {

/// Where the host's file system appears inside the Flatpak sandbox.
pub open spec fn host_root() -> Seq<char> {
    "/var/run/host"@
}

/// Where an absolute host path appears inside the Flatpak sandbox; none for
/// a relative path.
pub open spec fn host_path_spec(path: Seq<char>) -> Option<Seq<char>> {
    if path.len() > 0 && path[0] == '/' {
        Some(join_path(host_root(), path.drop_first()))
    } else {
        None
    }
}

pub fn host_path(path: &str) -> (r: Option<String>)
    ensures
        match r {
            Some(p) => host_path_spec(path@) == Some(p@),
            None => host_path_spec(path@) is None,
        },
{
    let n = path.unicode_len();
    if n == 0 || path.get_char(0) != '/' {
        return None;
    }
    let relative = path.substring_char(1, n);
    assert(relative@ =~= path@.drop_first());
    Some(join("/var/run/host", relative))
}

/// The path to test for a file: inside Flatpak, where the host path appears
/// in the sandbox (none for a relative path); elsewhere the path itself.
pub fn file_check_path(path: &str, is_flatpak: bool) -> (r: Option<String>)
    ensures
        match r {
            Some(p) => (if is_flatpak {
                host_path_spec(path@)
            } else {
                Some(path@)
            }) == Some(p@),
            None => is_flatpak && host_path_spec(path@) is None,
        },
{
    if is_flatpak {
        host_path(path)
    } else {
        Some(String::from_str(path))
    }
}

/// A value without surrounding white space; none when nothing is left.
pub fn trimmed_value(value: String) -> (r: Option<String>)
    ensures
        match r {
            Some(v) => v@ == trim_spec(value@) && v@.len() > 0,
            None => trim_spec(value@).len() == 0,
        },
{
    let t = trim(value.as_str());
    if t.unicode_len() == 0 {
        None
    } else {
        Some(t)
    }
}

/// The argument list that runs a program: inside Flatpak through
/// `flatpak-spawn --host`, passing the terminal size as `COLUMNS` and
/// `LINES` when given; elsewhere the program alone.
pub open spec fn command_argv_spec(program: Seq<char>, size: Option<ScreenSize>, is_flatpak: bool) -> Seq<
    Seq<char>,
> {
    if is_flatpak {
        seq!["flatpak-spawn"@, "--host"@] + match size {
            Some(s) => seq![
                "--env=COLUMNS="@ + decimal(s.cols as nat),
                "--env=LINES="@ + decimal(s.rows as nat),
            ],
            None => Seq::empty(),
        } + seq![program]
    } else {
        seq![program]
    }
}

pub fn command_argv(program: &str, size: Option<ScreenSize>, is_flatpak: bool) -> (r: Vec<String>)
    ensures
        r@.map_values(|a: String| a@) == command_argv_spec(program@, size, is_flatpak),
{
    let mut argv: Vec<String> = Vec::new();
    if is_flatpak {
        argv.push(String::from_str("flatpak-spawn"));
        argv.push(String::from_str("--host"));
        match size {
            Some(s) => {
                let mut columns = String::from_str("--env=COLUMNS=");
                push_decimal(&mut columns, s.cols as u64);
                argv.push(columns);
                let mut lines = String::from_str("--env=LINES=");
                push_decimal(&mut lines, s.rows as u64);
                argv.push(lines);
            },
            None => {},
        }
    }
    argv.push(String::from_str(program));
    assert(argv@.map_values(|a: String| a@) =~= command_argv_spec(program@, size, is_flatpak));
    argv
}

} // verus!
