use vstd::prelude::*;

use crate::error::Error;
use crate::game::Game;
use crate::path::{is_separator, join_path, join_path_exec, main_separator, separator_str};
use crate::scan::{collect_games, ok_games};
use crate::text::{replace_all, replace_exec};

verus! {

/// The directory of item manifests under the launcher's `AppDataPath`.
pub fn manifests_path(app_data_path: &str) -> (r: String)
    ensures
        exists|sep: char| is_separator(sep) && r@ == join_path(app_data_path@, "Manifests"@, sep),
{
    join_path_exec(app_data_path, "Manifests", main_separator())
}

/// The launcher executable from the `ModSdkCommand` setting, whose `/`
/// separators become `separator`.
pub fn launcher_executable(mod_sdk_command: &str, separator: char) -> (r: String)
    requires
        is_separator(separator),
    ensures
        r@ == replace_all(mod_sdk_command@, "/"@, seq![separator]),
{
    proof {
        reveal_strlit("/");
    }
    replace_exec(mod_sdk_command, "/", separator_str(separator))
}

/// The games of the item manifests that were read, in order; a manifest
/// that failed is skipped.
pub fn list(manifests: Vec<Result<Game, Error>>) -> (r: Vec<Game>)
    ensures
        r@ == ok_games(manifests@),
{
    collect_games(manifests)
}

} // verus!
