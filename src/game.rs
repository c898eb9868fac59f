use vstd::prelude::*;

use crate::text::views;

verus! {

/// The launcher a game record comes from.
#[derive(Clone, Copy, Debug, PartialEq, Eq, Hash, Structural)]
pub enum GameType {
    AmazonGames,
    EpicGames,
    Origin,
    Steam,
}

/// Command lines, each an executable followed by its arguments.
#[derive(Clone, Debug)]
pub struct GameCommands {
    pub install: Option<Vec<String>>,
    pub launch: Option<Vec<String>>,
    pub uninstall: Option<Vec<String>>,
}

#[derive(Clone, Copy, Debug, PartialEq, Eq, Structural)]
pub struct GameState {
    pub installed: bool,
    pub needs_update: bool,
    pub downloading: bool,
    pub total_bytes: Option<u64>,
    pub received_bytes: Option<u64>,
}

/// The normalised record of one game, whatever launcher manages it.
#[derive(Clone, Debug)]
pub struct Game {
    pub launcher_type: GameType,
    pub id: String,
    pub name: String,
    pub path: Option<String>,
    pub commands: GameCommands,
    pub state: GameState,
}

pub open spec fn command_view(c: Option<Vec<String>>) -> Option<Seq<Seq<char>>> {
    match c {
        Some(v) => Some(views(v@)),
        None => None,
    }
}

pub open spec fn path_view(p: Option<String>) -> Option<Seq<char>> {
    match p {
        Some(s) => Some(s@),
        None => None,
    }
}

/// A command line of two words: the launcher and a URI.
pub fn command_line(executable: &str, uri: String) -> (r: Vec<String>)
    ensures
        views(r@) == seq![executable@, uri@],
{
    let mut r: Vec<String> = Vec::new();
    r.push(String::from_str(executable));
    r.push(uri);
    assert(views(r@) =~= seq![executable@, uri@]);
    r
}

} // verus!
