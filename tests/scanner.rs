use game_scanner::epicgames;
use game_scanner::error::{can_logger, Error, ErrorKind};
use game_scanner::game::{Game, GameType};
use game_scanner::manifest::parse_u64;
use game_scanner::origin;
use game_scanner::path::{fix_launcher_executable_path, join_path_exec, make_dip_install_path};
use game_scanner::scan::{all_games, collect_games};
use game_scanner::steam;

fn acf(id: &str, name: &str, dir: &str) -> String {
    format!(
        "\"AppState\"\n{{\n\t\"appid\"\t\t\"{}\"\n\t\"Universe\"\t\t\"1\"\n\t\"name\"\t\t\"{}\"\n\t\"installdir\"\t\t\"{}\"\n}}\n",
        id, name, dir
    )
}

fn strings(v: &Option<Vec<String>>) -> Option<Vec<&str>> {
    v.as_ref().map(|v| v.iter().map(|s| s.as_str()).collect())
}

#[test]
fn steam_manifest_fields() {
    let g = steam::parse_manifest(&acf("570", "Dota 2", "dota 2 beta"), "/usr/bin/steam", "/games/steamapps/common", '/')
        .unwrap();
    assert_eq!(g.launcher_type, GameType::Steam);
    assert_eq!(g.id, "570");
    assert_eq!(g.name, "Dota 2");
    assert_eq!(g.path.as_deref(), Some("/games/steamapps/common/dota 2 beta"));
    assert_eq!(strings(&g.commands.launch), Some(vec!["/usr/bin/steam", "-silent", "steam://run/570"]));
    assert!(g.commands.install.is_none());
    assert!(g.state.installed);
    assert!(!g.state.needs_update && !g.state.downloading);
}

#[test]
fn steam_manifest_backslash_library() {
    let g = steam::parse_manifest(&acf("10", "Counter-Strike", "Half-Life"), "steam.exe", "D:\\Steam\\steamapps\\common\\", '\\')
        .unwrap();
    assert_eq!(g.path.as_deref(), Some("D:\\Steam\\steamapps\\common\\Half-Life"));
}

#[test]
fn steam_manifest_without_installdir_has_no_path() {
    let g = steam::parse_manifest("\"appid\"\t\"42\"\n\"name\"\t\"X\"\nbroken line\n", "steam", "/lib", '/').unwrap();
    assert_eq!(g.id, "42");
    assert_eq!(g.path, None);
}

#[test]
fn steam_read_uses_host_separator() {
    let g = steam::read(&acf("570", "Dota 2", "dota"), "steam", "/lib").unwrap();
    let expected = format!("/lib{}dota", std::path::MAIN_SEPARATOR);
    assert_eq!(g.path.as_deref(), Some(expected.as_str()));
}

#[test]
fn steam_denylisted_id_rejected() {
    let r = steam::parse_manifest(&acf("228980", "Steamworks Common Redistributables", "Steamworks Shared"), "steam", "/lib", '/');
    assert_eq!(r.unwrap_err().kind(), ErrorKind::IgnoredApp);
    let r = steam::read("\"appid\"\t\"228980\"\n", "steam", "/lib");
    assert_eq!(r.unwrap_err().kind(), ErrorKind::IgnoredApp);
}

#[test]
fn steam_games_skip_denylisted() {
    let ms = vec![acf("1", "A", "a"), acf("228980", "R", "r"), acf("2", "B", "b")];
    let gs = steam::games(&ms, "steam", "/lib");
    let ids: Vec<&str> = gs.iter().map(|g| g.id.as_str()).collect();
    assert_eq!(ids, vec!["1", "2"]);
}

#[test]
fn steam_find_by_id() {
    let ms = vec![acf("1", "A", "a"), acf("2", "B", "b")];
    assert_eq!(steam::find(&ms, "steam", "/lib", "2").unwrap().name, "B");
    assert_eq!(steam::find(&ms, "steam", "/lib", "3").unwrap_err().kind(), ErrorKind::GameNotFound);
    assert_eq!(steam::find(&ms, "steam", "/lib", "228980").unwrap_err().kind(), ErrorKind::GameNotFound);
}

fn origin_manifest(state: &str) -> String {
    format!("?id=OFB-EAST%3a1234&dipinstallpath=C%3a%5cGames%5cMyGame&currentstate={}&totalbytes=100&savedbytes=42", state)
}

#[test]
fn origin_transferring_state() {
    let g = origin::read(&origin_manifest("kTransferring"), "/data/Origin/MyGame/a.mfst", "Origin.exe").unwrap();
    assert!(g.state.downloading && g.state.needs_update);
}

#[test]
fn origin_enqueued_state() {
    let g = origin::read(&origin_manifest("kEnqueued"), "/data/Origin/MyGame/a.mfst", "Origin.exe").unwrap();
    assert!(!g.state.downloading && g.state.needs_update);
}

#[test]
fn origin_other_state() {
    for state in ["kReadyToStart", "", "kPaused"] {
        let g = origin::read(&origin_manifest(state), "/data/Origin/MyGame/a.mfst", "Origin.exe").unwrap();
        assert!(!g.state.downloading && !g.state.needs_update);
    }
}

#[test]
fn origin_fields_and_counters() {
    let g = origin::read(&origin_manifest("kReadyToStart"), "/data/Origin/MyGame/a.mfst", "Origin.exe").unwrap();
    assert_eq!(g.launcher_type, GameType::Origin);
    assert_eq!(g.id, "OFB-EAST:1234");
    assert_eq!(g.name, "MyGame");
    assert_eq!(g.state.total_bytes, Some(100));
    assert_eq!(g.state.received_bytes, Some(42));
    assert_eq!(
        strings(&g.commands.install),
        Some(vec!["Origin.exe", "origin2://game/download?offerId=OFB-EAST:1234"])
    );
    assert_eq!(
        strings(&g.commands.launch),
        Some(vec!["Origin.exe", "origin2://game/launch?offerIds=OFB-EAST:1234"])
    );
    assert!(g.commands.uninstall.is_none());
}

#[test]
fn origin_missing_fields_are_absent() {
    let g = origin::read("?id=X", "a.mfst", "Origin.exe").unwrap();
    assert_eq!(g.state.total_bytes, None);
    assert_eq!(g.state.received_bytes, None);
    assert_eq!(g.path, None);
    let g = origin::read("?id=X&totalbytes=0", "a.mfst", "Origin.exe").unwrap();
    assert_eq!(g.state.total_bytes, Some(0));
    assert_eq!(g.state.received_bytes, None);
}

#[test]
fn origin_bad_counter_is_invalid_manifest() {
    let r = origin::read("?id=X&totalbytes=12a", "a.mfst", "Origin.exe");
    assert_eq!(r.unwrap_err().kind(), ErrorKind::InvalidManifest);
    let r = origin::read("?id=X&savedbytes=18446744073709551616", "a.mfst", "Origin.exe");
    assert_eq!(r.unwrap_err().kind(), ErrorKind::InvalidManifest);
}

#[test]
fn origin_from_entries_decodes_path() {
    let es = vec![
        ("id".to_string(), "A".to_string()),
        ("dipinstallpath".to_string(), "C%3a%5cGames%5cMyGame".to_string()),
    ];
    let g = origin::from_entries(&es, "N".to_string(), "o.exe", '\\').unwrap();
    assert_eq!(g.path.as_deref(), Some("C:\\Games\\MyGame"));
    assert_eq!(g.name, "N");
}

#[test]
fn dip_install_path_decoding() {
    assert_eq!(make_dip_install_path("C%3a%5cGames%5cMyGame", '\\'), "C:\\Games\\MyGame");
    assert_eq!(make_dip_install_path("C%3A%2FProgram%20Files%2fX", '/'), "C:/Program Files/X");
    assert_eq!(make_dip_install_path("plain", '/'), "plain");
}

#[test]
fn executable_path_correction() {
    let raw = "c:/Program Files (x86)/Epic Games/Launcher.exe";
    assert_eq!(fix_launcher_executable_path(raw, '\\'), "C:\\Program Files (x86)\\Epic Games\\Launcher.exe");
    assert_eq!(fix_launcher_executable_path(raw, '/'), "C:/Program Files (x86)/Epic Games/Launcher.exe");
    assert_eq!(fix_launcher_executable_path("c:/program_files (x86)/steam/steam.exe", '\\'), "C:\\ProgramFiles (x86)\\Steam\\steam.exe");
}

#[test]
fn executable_path_correction_idempotent() {
    let raw = "c:/Program Files (x86)/Epic Games/Launcher.exe";
    let once = fix_launcher_executable_path(raw, '/');
    assert_eq!(fix_launcher_executable_path(&once, '/'), once);
}

#[test]
fn path_join() {
    assert_eq!(join_path_exec("a", "b", '/'), "a/b");
    assert_eq!(join_path_exec("a/", "b", '/'), "a/b");
    assert_eq!(join_path_exec("", "b", '\\'), "b");
}

#[test]
fn missing_registry_value_is_launcher_not_found() {
    assert_eq!(steam::get_launcher_executable(None).unwrap_err().kind(), ErrorKind::LauncherNotFound);
    assert_eq!(steam::get_manifests_path(None).unwrap_err().kind(), ErrorKind::LauncherNotFound);
    let p = steam::get_manifests_path(Some("/opt/steam")).unwrap();
    assert_eq!(p, format!("/opt/steam{}steamapps", std::path::MAIN_SEPARATOR));
    let exe = steam::get_launcher_executable(Some("/usr/bin/steam")).unwrap();
    assert_eq!(exe, format!("Usr{0}Bin{0}Steam", std::path::MAIN_SEPARATOR));
    assert_eq!(steam::check_launcher_path("x".to_string(), false).unwrap_err().kind(), ErrorKind::LauncherNotFound);
    assert_eq!(steam::check_launcher_path("x".to_string(), true).unwrap(), "x");
}

fn game(id: &str) -> Game {
    steam::parse_manifest(&acf(id, id, id), "steam", "/lib", '/').unwrap()
}

#[test]
fn scan_with_missing_launcher_keeps_others() {
    let per = vec![
        Err(Error::new(ErrorKind::LauncherNotFound, "no".to_string())),
        Ok(vec![game("1"), game("2")]),
        Ok(vec![game("3")]),
    ];
    let ids: Vec<String> = all_games(per).into_iter().map(|g| g.id).collect();
    assert_eq!(ids, vec!["1", "2", "3"]);
}

#[test]
fn scan_drops_corrupt_manifest() {
    let corrupt = origin::read("?id=X&totalbytes=oops", "a/b.mfst", "o");
    let rs = vec![Ok(game("1")), corrupt, Ok(game("2"))];
    let gs = collect_games(rs);
    assert_eq!(gs.len(), 2);
    let rs = vec![Ok(game("5")), Err(Error::new(ErrorKind::InvalidManifest, "bad".to_string()))];
    assert_eq!(epicgames::list(rs).len(), 1);
}

#[test]
fn epic_paths() {
    assert_eq!(epicgames::launcher_executable("C:/Program Files/Epic/x.exe", '\\'), "C:\\Program Files\\Epic\\x.exe");
    let p = epicgames::manifests_path("/data/Epic");
    assert_eq!(p, format!("/data/Epic{}Manifests", std::path::MAIN_SEPARATOR));
}

#[test]
fn decimal_parsing() {
    assert_eq!(parse_u64("0"), Some(0));
    assert_eq!(parse_u64("+42"), Some(42));
    assert_eq!(parse_u64("18446744073709551615"), Some(u64::MAX));
    assert_eq!(parse_u64("18446744073709551616"), None);
    assert_eq!(parse_u64(""), None);
    assert_eq!(parse_u64("+"), None);
    assert_eq!(parse_u64("-1"), None);
    assert_eq!(parse_u64("1 "), None);
}

#[test]
fn error_reporting_policy() {
    let e = Error::new(ErrorKind::LauncherNotFound, "absent".to_string());
    assert_eq!(e.message(), "absent");
    assert!(!can_logger(&e, false));
    assert!(can_logger(&e, true));
    assert!(!can_logger(&Error::new(ErrorKind::IgnoredApp, String::new()), false));
    assert!(can_logger(&Error::new(ErrorKind::InvalidManifest, String::new()), false));
}

#[test]
fn game_name_from_directory() {
    assert_eq!(origin::get_game_name("/x/LocalContent/Game One/m.mfst").as_deref(), Some("Game One"));
    assert_eq!(origin::get_game_name("m.mfst").as_deref(), None);
}

#[test]
fn game_name_is_parent_directory() {
    let file = "/ProgramData/Origin/LocalContent/Battlefield 1/OFB-EAST109552.mfst";
    assert_eq!(origin::get_game_name(file).as_deref(), Some("Battlefield 1"));
    assert_eq!(origin::get_game_name("OFB-EAST109552.mfst"), None);
    let g = origin::read("?id=OFB-EAST109552", file, "Origin.exe").unwrap();
    assert_eq!(g.name, "Battlefield 1");
    let g = origin::read("?id=OFB-EAST109552", "OFB-EAST109552.mfst", "Origin.exe").unwrap();
    assert_eq!(g.name, "Unknown");
}

#[test]
fn steam_find_returns_first_match() {
    let ms = vec![acf("1", "A", "a"), acf("7", "First", "f"), acf("7", "Second", "s")];
    assert_eq!(steam::find(&ms, "steam", "/lib", "7").unwrap().name, "First");
}

#[test]
fn native_path_correction_adds_only_separator() {
    let native = "C:\\Program Files (x86)\\Epic Games\\Launcher.exe";
    assert_eq!(fix_launcher_executable_path(native, '\\'), format!("{}\\", native));
}

#[test]
fn path_join_takes_child_as_relative() {
    assert_eq!(join_path_exec("lib", "/x", '/'), "lib//x");
}

#[test]
fn game_name_of_relative_path() {
    assert_eq!(origin::get_game_name("Battlefield 1/OFB-EAST109552.mfst").as_deref(), Some("Battlefield 1"));
    let g = origin::read("?id=A", "MyGame/a.mfst", "Origin.exe").unwrap();
    assert_eq!(g.name, "MyGame");
}

#[test]
fn native_path_without_drive_unchanged() {
    let native = "Games\\Epic Games\\Launcher.exe";
    assert_eq!(fix_launcher_executable_path(native, '\\'), native);
    assert_eq!(fix_launcher_executable_path("Games\\Epic Games", '\\'), "Games\\Epic Games");
}
