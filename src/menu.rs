//! The shell context menu entry that runs the tool on a file or folder.
use vstd::prelude::*;
use vstd::string::StringExecFns;

verus! {

/// Name of the menu entry's key, under each shell key.
pub const MENU_ENTRY: &'static str = "FUCK, DELETE IT!";

/// The shell key of the menu shown for files, below the classes key.
pub const FILE_SHELL_KEY: &'static str = "*\\shell";

/// The shell key of the menu shown for folders, below the classes key.
pub const FOLDER_SHELL_KEY: &'static str = "Directory\\shell";

/// The classes key of the current user, where the entries are written.
pub const CLASSES_KEY: &'static str = "Software\\Classes";

/// The key whose default value is the command of the entry under
/// `shell_key`: `<shell_key>\<MENU_ENTRY>\command`.
pub fn command_key(shell_key: &str) -> (k: String)
    ensures
        k@ == shell_key@ + "\\"@ + MENU_ENTRY@ + "\\command"@,
{
    let mut k = String::from_str(shell_key);
    k.append("\\");
    k.append(MENU_ENTRY);
    k.append("\\command");
    k
}

/// The command the entry runs: the executable, then the clicked path,
/// each quoted: `"<exe>" "%1"`.
pub fn menu_command(exe: &str) -> (c: String)
    ensures
        c@ == "\""@ + exe@ + "\" \"%1\""@,
{
    let mut c = String::from_str("\"");
    c.append(exe);
    c.append("\" \"%1\"");
    c
}

} // verus!
