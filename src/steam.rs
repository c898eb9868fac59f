use vstd::prelude::*;
use vstd::string::*;

use crate::error::{Error, ErrorKind};
use crate::game::{command_view, path_view, Game, GameCommands, GameState, GameType};
use crate::manifest::{entry_views, last_value, last_value_exec, str_eq, value_or_empty};
use crate::path::{
    fix_launcher_executable_path, fixed_executable_path, is_separator, join_path, join_path_exec,
    main_separator,
};
use crate::text::{split, split_exec, views};

verus! {

/// `char::is_whitespace`: the Unicode White_Space characters.
pub open spec fn is_whitespace(c: char) -> bool {
    ('\t' <= c && c <= '\r') || c == ' ' || c == '\u{85}' || c == '\u{a0}' || c == '\u{1680}'
        || ('\u{2000}' <= c && c <= '\u{200a}') || c == '\u{2028}' || c == '\u{2029}'
        || c == '\u{202f}' || c == '\u{205f}' || c == '\u{3000}'
}

pub open spec fn is_blank(t: Seq<char>) -> bool {
    forall|i: int| 0 <= i < t.len() ==> is_whitespace(t[i])
}

/// The pieces that hold more than whitespace, in order.
pub open spec fn nonblank(ts: Seq<Seq<char>>) -> Seq<Seq<char>>
    decreases ts.len(),
{
    if ts.len() == 0 {
        Seq::empty()
    } else if is_blank(ts.last()) {
        nonblank(ts.drop_last())
    } else {
        nonblank(ts.drop_last()).push(ts.last())
    }
}

/// `t` without one surrounding double quote on each side.
pub open spec fn strip_quotes(t: Seq<char>) -> Seq<char> {
    let a = if t.len() > 0 && t[0] == '"' {
        t.subrange(1, t.len() as int)
    } else {
        t
    };
    if a.len() > 0 && a.last() == '"' {
        a.drop_last()
    } else {
        a
    }
}

/// The pair a line holds: a line of exactly two tab-separated tokens.
pub open spec fn line_entries(line: Seq<char>) -> Seq<(Seq<char>, Seq<char>)> {
    let ts = nonblank(split(line, '\t'));
    if ts.len() == 2 {
        seq![(strip_quotes(ts[0]), strip_quotes(ts[1]))]
    } else {
        Seq::empty()
    }
}

pub open spec fn lines_entries(lines: Seq<Seq<char>>) -> Seq<(Seq<char>, Seq<char>)>
    decreases lines.len(),
{
    if lines.len() == 0 {
        Seq::empty()
    } else {
        lines_entries(lines.drop_last()) + line_entries(lines.last())
    }
}

/// The attribute/value pairs of a flat key/value manifest, in order.
pub open spec fn acf_entries(content: Seq<char>) -> Seq<(Seq<char>, Seq<char>)> {
    lines_entries(split(content, '\n'))
}

/// The id a manifest declares; empty when it declares none.
pub open spec fn acf_id(content: Seq<char>) -> Seq<char> {
    value_or_empty(last_value(acf_entries(content), "appid"@))
}

/// Ids of the launcher's own runtime components, which are not games.
pub open spec fn is_ignored_app(id: Seq<char>) -> bool {
    id == "228980"@
}

/// `g` is the record of the manifest whose pairs are `es`.
pub open spec fn is_steam_game(
    g: Game,
    es: Seq<(Seq<char>, Seq<char>)>,
    launcher: Seq<char>,
    library: Seq<char>,
    sep: char,
) -> bool {
    &&& g.launcher_type == GameType::Steam
    &&& g.id@ == value_or_empty(last_value(es, "appid"@))
    &&& g.name@ == value_or_empty(last_value(es, "name"@))
    &&& path_view(g.path) == match last_value(es, "installdir"@) {
        Some(dir) => Some(join_path(library, dir, sep)),
        None => None,
    }
    &&& g.commands.install is None
    &&& command_view(g.commands.launch) == Some(seq![launcher, "-silent"@, "steam://run/"@ + g.id@])
    &&& g.commands.uninstall is None
    &&& g.state == (GameState {
        installed: true,
        needs_update: false,
        downloading: false,
        total_bytes: None,
        received_bytes: None,
    })
}

/// The manifests among `ms` that describe games, in order.
pub open spec fn kept_manifests(ms: Seq<Seq<char>>) -> Seq<Seq<char>>
    decreases ms.len(),
{
    if ms.len() == 0 {
        Seq::empty()
    } else if is_ignored_app(acf_id(ms.last())) {
        kept_manifests(ms.drop_last())
    } else {
        kept_manifests(ms.drop_last()).push(ms.last())
    }
}

pub fn is_blank_exec(t: &str) -> (r: bool)
    ensures
        r == is_blank(t@),
{
    let n = t.unicode_len();
    let mut i: usize = 0;
    while i < n
        invariant
            n == t@.len(),
            i <= n,
            forall|j: int| 0 <= j < i ==> is_whitespace(t@[j]),
        decreases n - i,
    {
        let c = t.get_char(i);
        if !(('\t' <= c && c <= '\r') || c == ' ' || c == '\u{85}' || c == '\u{a0}' || c
            == '\u{1680}' || ('\u{2000}' <= c && c <= '\u{200a}') || c == '\u{2028}' || c
            == '\u{2029}' || c == '\u{202f}' || c == '\u{205f}' || c == '\u{3000}') {
            return false;
        }
        i = i + 1;
    }
    true
}

fn nonblank_exec(ts: &Vec<String>) -> (r: Vec<String>)
    ensures
        views(r@) == nonblank(views(ts@)),
{
    let mut r: Vec<String> = Vec::new();
    let mut j: usize = 0;
    while j < ts.len()
        invariant
            j <= ts@.len(),
            views(r@) == nonblank(views(ts@).subrange(0, j as int)),
        decreases ts@.len() - j,
    {
        let ghost pre = views(ts@).subrange(0, j + 1);
        assert(pre.drop_last() =~= views(ts@).subrange(0, j as int));
        let ghost before = views(r@);
        if !is_blank_exec(ts[j].as_str()) {
            r.push(ts[j].clone());
            assert(views(r@) =~= before.push(pre.last()));
        }
        j = j + 1;
    }
    assert(views(ts@).subrange(0, j as int) =~= views(ts@));
    r
}

fn strip_quotes_exec(t: &str) -> (r: String)
    ensures
        r@ == strip_quotes(t@),
{
    let n = t.unicode_len();
    let mut a: usize = 0;
    let mut b: usize = n;
    if n > 0 && t.get_char(0) == '"' {
        a = 1;
    }
    if b > a && t.get_char(b - 1) == '"' {
        b = b - 1;
    }
    let r = String::from_str(t.substring_char(a, b));
    let ghost first = if t@.len() > 0 && t@[0] == '"' {
        t@.subrange(1, t@.len() as int)
    } else {
        t@
    };
    assert(first =~= t@.subrange(a as int, n as int));
    assert(r@ =~= strip_quotes(t@));
    r
}

/// The attribute/value pairs of a flat key/value manifest.
pub fn acf_entries_exec(content: &str) -> (r: Vec<(String, String)>)
    ensures
        entry_views(r@) == acf_entries(content@),
{
    let lines = split_exec(content, '\n');
    let mut out: Vec<(String, String)> = Vec::new();
    let mut i: usize = 0;
    while i < lines.len()
        invariant
            i <= lines@.len(),
            views(lines@) == split(content@, '\n'),
            entry_views(out@) == lines_entries(views(lines@).subrange(0, i as int)),
        decreases lines@.len() - i,
    {
        let ghost pre = views(lines@).subrange(0, i + 1);
        assert(pre.drop_last() =~= views(lines@).subrange(0, i as int));
        assert(pre.last() == lines@[i as int]@);
        let ghost before = entry_views(out@);
        let toks = split_exec(lines[i].as_str(), '\t');
        let kept = nonblank_exec(&toks);
        if kept.len() == 2 {
            assert(views(kept@)[0] == kept@[0]@ && views(kept@)[1] == kept@[1]@);
            let key = strip_quotes_exec(kept[0].as_str());
            let value = strip_quotes_exec(kept[1].as_str());
            out.push((key, value));
            assert(entry_views(out@) =~= before + line_entries(pre.last()));
        } else {
            assert(entry_views(out@) =~= before + line_entries(pre.last()));
        }
        i = i + 1;
    }
    assert(views(lines@).subrange(0, i as int) =~= views(lines@));
    out
}

pub fn is_ignored_app_exec(id: &str) -> (r: bool)
    ensures
        r == is_ignored_app(id@),
{
    str_eq(id, "228980")
}

/// Builds the record of a flat key/value manifest; installation directories
/// are placed under `library_path` with `separator`.
pub fn parse_manifest(content: &str, launcher_path: &str, library_path: &str, separator: char) -> (r:
    Result<Game, Error>)
    requires
        is_separator(separator),
    ensures
        match r {
            Ok(g) => !is_ignored_app(acf_id(content@)) && is_steam_game(
                g,
                acf_entries(content@),
                launcher_path@,
                library_path@,
                separator,
            ),
            Err(e) => is_ignored_app(acf_id(content@)) && e.spec_kind() == ErrorKind::IgnoredApp,
        },
{
    let entries = acf_entries_exec(content);
    let id = match last_value_exec(&entries, "appid") {
        Some(v) => v,
        None => String::new(),
    };
    if is_ignored_app_exec(id.as_str()) {
        return Err(Error::new(ErrorKind::IgnoredApp, String::from_str("invalid steam game")));
    }
    let name = match last_value_exec(&entries, "name") {
        Some(v) => v,
        None => String::new(),
    };
    let path = match last_value_exec(&entries, "installdir") {
        Some(dir) => Some(join_path_exec(library_path, dir.as_str(), separator)),
        None => None,
    };
    let mut uri = String::from_str("steam://run/");
    uri.append(id.as_str());
    let mut launch: Vec<String> = Vec::new();
    launch.push(String::from_str(launcher_path));
    launch.push(String::from_str("-silent"));
    launch.push(uri);
    assert(views(launch@) =~= seq![launcher_path@, "-silent"@, "steam://run/"@ + id@]);
    Ok(
        Game {
            launcher_type: GameType::Steam,
            id,
            name,
            path,
            commands: GameCommands { install: None, launch: Some(launch), uninstall: None },
            state: GameState {
                installed: true,
                needs_update: false,
                downloading: false,
                total_bytes: None,
                received_bytes: None,
            },
        },
    )
}

/// Reads a flat key/value manifest; installation directories are placed
/// under `library_path` with the host's separator.
pub fn read(content: &str, launcher_path: &str, library_path: &str) -> (r: Result<Game, Error>)
    ensures
        match r {
            Ok(g) => !is_ignored_app(acf_id(content@)) && exists|sep: char|
                is_separator(sep) && is_steam_game(
                    g,
                    acf_entries(content@),
                    launcher_path@,
                    library_path@,
                    sep,
                ),
            Err(e) => is_ignored_app(acf_id(content@)) && e.spec_kind() == ErrorKind::IgnoredApp,
        },
{
    let separator = main_separator();
    parse_manifest(content, launcher_path, library_path, separator)
}

fn launcher_not_found() -> (r: Error)
    ensures
        r.spec_kind() == ErrorKind::LauncherNotFound,
{
    Error::new(
        ErrorKind::LauncherNotFound,
        String::from_str("Invalid Steam path, maybe this launcher is not installed"),
    )
}

/// The launcher executable from the user-scope `SteamExe` registry value,
/// with its casing restored; no value means the launcher is not installed.
pub fn get_launcher_executable(steam_exe: Option<&str>) -> (r: Result<String, Error>)
    ensures
        match steam_exe {
            None => r is Err && r->Err_0.spec_kind() == ErrorKind::LauncherNotFound,
            Some(v) => r is Ok && exists|sep: char|
                is_separator(sep) && r->Ok_0@ == fixed_executable_path(v@, sep),
        },
{
    match steam_exe {
        None => Err(launcher_not_found()),
        Some(v) => Ok(fix_launcher_executable_path(v, main_separator())),
    }
}

/// The manifest directory, `steamapps` under the machine-scope `InstallPath`
/// registry value; no value means the launcher is not installed.
pub fn get_manifests_path(install_path: Option<&str>) -> (r: Result<String, Error>)
    ensures
        match install_path {
            None => r is Err && r->Err_0.spec_kind() == ErrorKind::LauncherNotFound,
            Some(v) => r is Ok && exists|sep: char|
                is_separator(sep) && r->Ok_0@ == join_path(v@, "steamapps"@, sep),
        },
{
    match install_path {
        None => Err(launcher_not_found()),
        Some(v) => Ok(join_path_exec(v, "steamapps", main_separator())),
    }
}

/// A resolved launcher path stands only if it exists on the host.
pub fn check_launcher_path(path: String, exists: bool) -> (r: Result<String, Error>)
    ensures
        exists ==> r is Ok && r->Ok_0@ == path@,
        !exists ==> r is Err && r->Err_0.spec_kind() == ErrorKind::LauncherNotFound,
{
    if exists {
        Ok(path)
    } else {
        Err(launcher_not_found())
    }
}

/// The records of all manifests in `manifests` that describe games, in order;
/// the others are skipped.
pub fn games(manifests: &Vec<String>, launcher_path: &str, library_path: &str) -> (r: Vec<Game>)
    ensures
        exists|sep: char|
            is_separator(sep) && r@.len() == kept_manifests(views(manifests@)).len() && forall|k: int|
                0 <= k < r@.len() ==> is_steam_game(
                    #[trigger] r@[k],
                    acf_entries(kept_manifests(views(manifests@))[k]),
                    launcher_path@,
                    library_path@,
                    sep,
                ),
{
    let separator = main_separator();
    let mut out: Vec<Game> = Vec::new();
    let mut i: usize = 0;
    while i < manifests.len()
        invariant
            is_separator(separator),
            i <= manifests@.len(),
            out@.len() == kept_manifests(views(manifests@).subrange(0, i as int)).len(),
            forall|k: int|
                0 <= k < out@.len() ==> is_steam_game(
                    #[trigger] out@[k],
                    acf_entries(kept_manifests(views(manifests@).subrange(0, i as int))[k]),
                    launcher_path@,
                    library_path@,
                    separator,
                ),
        decreases manifests@.len() - i,
    {
        let ghost pre = views(manifests@).subrange(0, i + 1);
        assert(pre.drop_last() =~= views(manifests@).subrange(0, i as int));
        assert(pre.last() == manifests@[i as int]@);
        match parse_manifest(manifests[i].as_str(), launcher_path, library_path, separator) {
            Ok(g) => {
                out.push(g);
            },
            Err(_) => {},
        }
        i = i + 1;
    }
    assert(views(manifests@).subrange(0, i as int) =~= views(manifests@));
    out
}

/// The record of the first manifest in `manifests` whose id is `id`.
pub fn find(manifests: &Vec<String>, launcher_path: &str, library_path: &str, id: &str) -> (r:
    Result<Game, Error>)
    ensures
        match r {
            Ok(g) => g.id@ == id@ && !is_ignored_app(id@) && exists|sep: char, k: int|
                is_separator(sep) && 0 <= k < manifests@.len() && acf_id(manifests@[k]@) == id@
                    && is_steam_game(
                    g,
                    acf_entries(manifests@[k]@),
                    launcher_path@,
                    library_path@,
                    sep,
                ) && forall|j: int| 0 <= j < k ==> acf_id(#[trigger] manifests@[j]@) != id@,
            Err(e) => e.spec_kind() == ErrorKind::GameNotFound && forall|k: int|
                0 <= k < manifests@.len() ==> (acf_id(#[trigger] manifests@[k]@) != id@
                    || is_ignored_app(id@)),
        },
{
    let separator = main_separator();
    let mut i: usize = 0;
    while i < manifests.len()
        invariant
            is_separator(separator),
            i <= manifests@.len(),
            forall|k: int|
                0 <= k < i ==> (acf_id(#[trigger] manifests@[k]@) != id@ || is_ignored_app(id@)),
        decreases manifests@.len() - i,
    {
        match parse_manifest(manifests[i].as_str(), launcher_path, library_path, separator) {
            Ok(g) => {
                if str_eq(g.id.as_str(), id) {
                    assert(acf_id(manifests@[i as int]@) == id@);
                    return Ok(g);
                }
            },
            Err(_) => {},
        }
        i = i + 1;
    }
    Err(Error::new(ErrorKind::GameNotFound, String::from_str("Game not found")))
}

} // verus!
