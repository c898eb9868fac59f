use vstd::prelude::*;
use vstd::string::*;

use crate::error::{Error, ErrorKind};
use crate::game::{command_line, command_view, path_view, Game, GameCommands, GameState, GameType};
use crate::manifest::{entry_views, last_value, last_value_exec, parse_u64, parsed_u64, str_eq, value_or_empty};
use crate::path::{decoded_install_path, is_separator, main_separator, make_dip_install_path};

verus! {

/// The attribute/value pairs of the query of the URL `url`, decoded, in
/// order; `None` when `url` does not parse.
pub uninterp spec fn url_query_pairs(url: Seq<char>) -> Option<Seq<(Seq<char>, Seq<char>)>>;

/// Relies on url::Url::parse, which fails on a malformed URL, and on
/// url::Url::query_pairs, which lists the percent-decoded pairs of the
/// parsed URL's query in order.
#[verifier::external_body]
fn query_pairs(url: &str) -> (r: Option<Vec<(String, String)>>)
    ensures
        match r {
            Some(v) => url_query_pairs(url@) == Some(entry_views(v@)),
            None => url_query_pairs(url@) is None,
        },
{
    url::Url::parse(url).ok().map(
        |u| u.query_pairs().map(|(a, v)| (a.to_string(), v.to_string())).collect(),
    )
}

/// A path component that every host reads as an ordinary name: not empty,
/// without separators or drive colons, and neither `.` nor `..`.
pub open spec fn is_plain(s: Seq<char>) -> bool {
    &&& s.len() > 0
    &&& forall|i: int| 0 <= i < s.len() ==> s[i] != '/' && s[i] != '\\' && s[i] != ':'
    &&& s != seq!['.']
    &&& s != seq!['.', '.']
}

/// A leading directory part that no host reads as a network or verbatim
/// prefix: no backslash, and it is neither `/` nor starts with `//`.
pub open spec fn is_plain_dir(d: Seq<char>) -> bool {
    &&& forall|i: int| 0 <= i < d.len() ==> d[i] != '\\'
    &&& !(d.len() >= 1 && d[0] == '/' && (d.len() == 1 || d[1] == '/'))
}

/// `n` placed under `p` with a `/`.
pub open spec fn child(p: Seq<char>, n: Seq<char>) -> Seq<char> {
    p + seq!['/'] + n
}

/// Relies on std::path::Path::parent: the path without its final component;
/// for `d/n/b` with plain `n` and `b` that is `d/n`, for `n/b` it is `n`,
/// and for a single plain component it is the empty path.
#[verifier::external_body]
fn parent_of(file: &str) -> (r: Option<String>)
    ensures
        forall|d: Seq<char>, n: Seq<char>, b: Seq<char>|
            is_plain_dir(d) && is_plain(n) && is_plain(b) && file@ == #[trigger] child(
                child(d, n),
                b,
            ) ==> r is Some && r->Some_0@ == child(d, n),
        forall|n: Seq<char>, b: Seq<char>|
            is_plain(n) && is_plain(b) && file@ == #[trigger] child(n, b) ==> r is Some
                && r->Some_0@ == n,
        is_plain(file@) ==> r is Some && r->Some_0@.len() == 0,
{
    std::path::Path::new(file).parent().and_then(|p| p.to_str()).map(|p| p.to_string())
}

/// Relies on std::path::Path::file_name: the final component of the path;
/// for `p/n` with plain `n` that is `n`, a plain component is its own final
/// component, and the empty path has none.
#[verifier::external_body]
fn file_name_of(path: &str) -> (r: Option<String>)
    ensures
        forall|p: Seq<char>, n: Seq<char>|
            is_plain_dir(p) && is_plain(n) && path@ == #[trigger] child(p, n) ==> r is Some
                && r->Some_0@ == n,
        is_plain(path@) ==> r is Some && r->Some_0@ == path@,
        path@.len() == 0 ==> r is None,
{
    std::path::Path::new(path).file_name().and_then(|n| n.to_str()).map(|n| n.to_string())
}

/// The name of the directory that holds `file`: `n` for `d/n/b` and for
/// `n/b`, and none for a bare file name.
pub fn get_game_name(file: &str) -> (r: Option<String>)
    ensures
        forall|d: Seq<char>, n: Seq<char>, b: Seq<char>|
            is_plain_dir(d) && is_plain(n) && is_plain(b) && file@ == #[trigger] child(
                child(d, n),
                b,
            ) ==> r is Some && r->Some_0@ == n,
        forall|n: Seq<char>, b: Seq<char>|
            is_plain(n) && is_plain(b) && file@ == #[trigger] child(n, b) ==> r is Some
                && r->Some_0@ == n,
        is_plain(file@) ==> r is None,
{
    match parent_of(file) {
        None => None,
        Some(parent) => {
            let name = file_name_of(parent.as_str());
            assert forall|d: Seq<char>, n: Seq<char>, b: Seq<char>|
                is_plain_dir(d) && is_plain(n) && is_plain(b) && file@ == #[trigger] child(
                    child(d, n),
                    b,
                ) implies name is Some && name->Some_0@ == n by {
                assert(parent@ == child(d, n));
            }
            assert forall|n: Seq<char>, b: Seq<char>|
                is_plain(n) && is_plain(b) && file@ == #[trigger] child(n, b) implies name is Some
                && name->Some_0@ == n by {
                assert(parent@ == n);
            }
            name
        },
    }
}

/// The attributes whose values are byte counters.
pub open spec fn is_counter_key(k: Seq<char>) -> bool {
    k == "totaldownloadbytes"@ || k == "totalbytes"@ || k == "savedbytes"@
}

/// Every byte counter in the manifest is a valid `u64`.
pub open spec fn counters_valid(es: Seq<(Seq<char>, Seq<char>)>) -> bool {
    forall|i: int| 0 <= i < es.len() && is_counter_key(#[trigger] es[i].0) ==> parsed_u64(es[i].1) is Some
}

/// The value of a byte counter; absent when the manifest does not give it.
pub open spec fn counter(es: Seq<(Seq<char>, Seq<char>)>, key: Seq<char>) -> Option<u64> {
    match last_value(es, key) {
        Some(v) => parsed_u64(v),
        None => None,
    }
}

pub open spec fn current_state(es: Seq<(Seq<char>, Seq<char>)>) -> Seq<char> {
    value_or_empty(last_value(es, "currentstate"@))
}

/// The common state of a game from the launcher's own vocabulary.
pub open spec fn origin_state(es: Seq<(Seq<char>, Seq<char>)>) -> GameState {
    let cs = current_state(es);
    GameState {
        installed: true,
        needs_update: cs == "kTransferring"@ || cs == "kEnqueued"@,
        downloading: cs == "kTransferring"@,
        total_bytes: counter(es, "totalbytes"@),
        received_bytes: counter(es, "savedbytes"@),
    }
}

/// `g` is the record of the URL-query manifest whose pairs are `es`.
pub open spec fn is_origin_game(
    g: Game,
    es: Seq<(Seq<char>, Seq<char>)>,
    name: Seq<char>,
    launcher: Seq<char>,
    sep: char,
) -> bool {
    &&& g.launcher_type == GameType::Origin
    &&& g.id@ == value_or_empty(last_value(es, "id"@))
    &&& g.name@ == name
    &&& path_view(g.path) == match last_value(es, "dipinstallpath"@) {
        Some(v) => Some(decoded_install_path(v, sep)),
        None => None,
    }
    &&& command_view(g.commands.install) == Some(
        seq![launcher, "origin2://game/download?offerId="@ + g.id@],
    )
    &&& command_view(g.commands.launch) == Some(
        seq![launcher, "origin2://game/launch?offerIds="@ + g.id@],
    )
    &&& g.commands.uninstall is None
    &&& g.state == origin_state(es)
}

/// The URL whose query a manifest's content is.
pub open spec fn manifest_url(data: Seq<char>) -> Seq<char> {
    "http://localhost/"@ + data
}

/// Whether the manifest parses and all its byte counters are numbers.
pub open spec fn manifest_ok(data: Seq<char>) -> bool {
    url_query_pairs(manifest_url(data)) is Some && counters_valid(
        url_query_pairs(manifest_url(data))->Some_0,
    )
}

/// The state vocabulary: a transfer in progress is a download and needs an
/// update; a queued one needs an update but is not downloading; any other
/// state is neither.
pub proof fn state_vocabulary(es: Seq<(Seq<char>, Seq<char>)>)
    ensures
        current_state(es) == "kTransferring"@ ==> origin_state(es).downloading
            && origin_state(es).needs_update,
        current_state(es) == "kEnqueued"@ ==> !origin_state(es).downloading
            && origin_state(es).needs_update,
        current_state(es) != "kTransferring"@ && current_state(es) != "kEnqueued"@ ==> !origin_state(
            es,
        ).downloading && !origin_state(es).needs_update,
        origin_state(es).downloading ==> origin_state(es).needs_update,
{
    reveal_strlit("kEnqueued");
    reveal_strlit("kTransferring");
    assert("kEnqueued"@.len() != "kTransferring"@.len());
}

fn counter_exec(entries: &Vec<(String, String)>, key: &str) -> (r: Option<u64>)
    ensures
        r == counter(entry_views(entries@), key@),
{
    match last_value_exec(entries, key) {
        Some(v) => parse_u64(v.as_str()),
        None => None,
    }
}

/// Builds the record of a URL-query manifest from its pairs; a byte counter
/// that is not a number makes the whole manifest invalid.
pub fn from_entries(
    entries: &Vec<(String, String)>,
    name: String,
    launcher_executable: &str,
    separator: char,
) -> (r: Result<Game, Error>)
    requires
        is_separator(separator),
    ensures
        match r {
            Ok(g) => counters_valid(entry_views(entries@)) && is_origin_game(
                g,
                entry_views(entries@),
                name@,
                launcher_executable@,
                separator,
            ),
            Err(e) => !counters_valid(entry_views(entries@)) && e.spec_kind()
                == ErrorKind::InvalidManifest,
        },
{
    let ghost es = entry_views(entries@);
    let mut i: usize = 0;
    while i < entries.len()
        invariant
            es == entry_views(entries@),
            i <= entries@.len(),
            forall|j: int|
                0 <= j < i && is_counter_key(#[trigger] es[j].0) ==> parsed_u64(es[j].1) is Some,
        decreases entries@.len() - i,
    {
        assert(es[i as int] == (entries@[i as int].0@, entries@[i as int].1@));
        let a = entries[i].0.as_str();
        if str_eq(a, "totaldownloadbytes") || str_eq(a, "totalbytes") || str_eq(a, "savedbytes") {
            if parse_u64(entries[i].1.as_str()).is_none() {
                assert(is_counter_key(es[i as int].0));
                assert(parsed_u64(es[i as int].1) is None);
                return Err(
                    Error::new(
                        ErrorKind::InvalidManifest,
                        String::from_str("Invalid byte counter in the Origin manifest"),
                    ),
                );
            }
        }
        i = i + 1;
    }
    let id = match last_value_exec(entries, "id") {
        Some(v) => v,
        None => String::new(),
    };
    let path = match last_value_exec(entries, "dipinstallpath") {
        Some(v) => Some(make_dip_install_path(v.as_str(), separator)),
        None => None,
    };
    let state = match last_value_exec(entries, "currentstate") {
        Some(v) => v,
        None => String::new(),
    };
    let transferring = str_eq(state.as_str(), "kTransferring");
    let enqueued = str_eq(state.as_str(), "kEnqueued");
    let mut download = String::from_str("origin2://game/download?offerId=");
    download.append(id.as_str());
    let mut launch = String::from_str("origin2://game/launch?offerIds=");
    launch.append(id.as_str());
    Ok(
        Game {
            launcher_type: GameType::Origin,
            id,
            name,
            path,
            commands: GameCommands {
                install: Some(command_line(launcher_executable, download)),
                launch: Some(command_line(launcher_executable, launch)),
                uninstall: None,
            },
            state: GameState {
                installed: true,
                needs_update: transferring || enqueued,
                downloading: transferring,
                total_bytes: counter_exec(entries, "totalbytes"),
                received_bytes: counter_exec(entries, "savedbytes"),
            },
        },
    )
}

/// Reads a URL-query manifest: `manifest_data` is the content of the file
/// `file`, whose directory names the game ("Unknown" when it has none).
pub fn read(manifest_data: &str, file: &str, launcher_executable: &str) -> (r: Result<Game, Error>)
    ensures
        match r {
            Ok(g) => {
                &&& manifest_ok(manifest_data@)
                &&& exists|sep: char|
                    is_separator(sep) && is_origin_game(
                        g,
                        url_query_pairs(manifest_url(manifest_data@))->Some_0,
                        g.name@,
                        launcher_executable@,
                        sep,
                    )
                &&& forall|d: Seq<char>, n: Seq<char>, b: Seq<char>|
                    is_plain_dir(d) && is_plain(n) && is_plain(b) && file@ == #[trigger] child(
                        child(d, n),
                        b,
                    ) ==> g.name@ == n
                &&& forall|n: Seq<char>, b: Seq<char>|
                    is_plain(n) && is_plain(b) && file@ == #[trigger] child(n, b) ==> g.name@ == n
                &&& is_plain(file@) ==> g.name@ == "Unknown"@
            },
            Err(e) => !manifest_ok(manifest_data@) && e.spec_kind() == ErrorKind::InvalidManifest,
        },
{
    let mut url = String::from_str("http://localhost/");
    url.append(manifest_data);
    let entries = match query_pairs(url.as_str()) {
        Some(v) => v,
        None => {
            return Err(
                Error::new(
                    ErrorKind::InvalidManifest,
                    String::from_str("Error on read the Origin manifest"),
                ),
            );
        },
    };
    let name = match get_game_name(file) {
        Some(n) => n,
        None => String::from_str("Unknown"),
    };
    let separator = main_separator();
    let ghost name_view = name@;
    let r = from_entries(&entries, name, launcher_executable, separator);
    proof {
        if r is Ok {
            assert(is_origin_game(
                r->Ok_0,
                url_query_pairs(manifest_url(manifest_data@))->Some_0,
                name_view,
                launcher_executable@,
                separator,
            ));
        }
    }
    r
}

} // verus!
