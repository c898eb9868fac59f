use vstd::prelude::*;

verus! {

/// The category of a failure; callers branch on it, not on the message.
#[derive(Clone, Copy, Debug, PartialEq, Eq, Hash, Structural)]
pub enum ErrorKind {
    IgnoredApp,
    InstallFailed,
    InvalidGame,
    InvalidLauncher,
    InvalidManifest,
    InvalidLibrary,
    GameNotFound,
    GameProcessNotFound,
    LauncherNotFound,
    LibraryNotFound,
    IO,
    SQLite,
    Json,
    Yaml,
    WinReg,
    Other,
}

/// A failure of a scan: its kind and a human-readable description.
#[derive(Debug)]
pub struct Error {
    kind: ErrorKind,
    message: String,
}

impl Error {
    /// The kind this error was made with.
    pub closed spec fn spec_kind(&self) -> ErrorKind {
        self.kind
    }

    /// The description this error was made with.
    pub closed spec fn spec_message(&self) -> Seq<char> {
        self.message@
    }

    pub fn new(kind: ErrorKind, message: String) -> (r: Self)
        ensures
            r.spec_kind() == kind,
            r.spec_message() == message@,
    {
        Error { kind, message }
    }

    pub fn kind(&self) -> (r: ErrorKind)
        ensures
            r == self.spec_kind(),
    {
        self.kind
    }

    /// The description this error carries, for printing.
    pub fn message(&self) -> (r: String)
        ensures
            r@ == self.spec_message(),
    {
        self.message.clone()
    }
}

/// Whether an error of this kind is worth reporting: expected conditions (a
/// launcher that is not installed, an app that is skipped on purpose) are
/// reported only in verbose mode.
pub open spec fn is_reportable(kind: ErrorKind, verbose: bool) -> bool {
    verbose || (kind != ErrorKind::IgnoredApp && kind != ErrorKind::LauncherNotFound)
}

pub fn can_logger(error: &Error, verbose: bool) -> (r: bool)
    ensures
        r == is_reportable(error.spec_kind(), verbose),
{
    let kind = error.kind();
    verbose || (kind != ErrorKind::IgnoredApp && kind != ErrorKind::LauncherNotFound)
}

} // verus!
