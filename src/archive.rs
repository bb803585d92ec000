//! What extraction does with each entry of a downloaded archive.
use vstd::prelude::*;

use crate::text::text_eq;

verus! {

/// The tool's own configuration file. A copy already in the output directory
/// holds the user's settings and is kept.
pub open spec fn local_config_name() -> Seq<char> {
    "imorph.conf"@
}

/// What to do with one archive entry.
#[derive(PartialEq, Eq, Structural, Copy, Clone, Debug)]
pub enum EntryAction {
    /// Leave the existing file as it is.
    Keep,
    /// Create the directory (and its parents).
    CreateDirectory,
    /// Create the file's parent directories, then create or overwrite it.
    WriteFile,
}

/// The action for the archive entry `name`, given whether its target path
/// exists already.
pub open spec fn entry_action_of(name: Seq<char>, target_exists: bool) -> EntryAction {
    if name == local_config_name() && target_exists {
        EntryAction::Keep
    } else if name.len() > 0 && name.last() == '/' {
        EntryAction::CreateDirectory
    } else {
        EntryAction::WriteFile
    }
}

/// What extraction does with the archive entry `name`: an existing local
/// configuration file is kept, a name ending in `/` is a directory, and any
/// other entry is written over what is there.
pub fn entry_action(name: &str, target_exists: bool) -> (r: EntryAction)
    ensures
        r == entry_action_of(name@, target_exists),
{
    if target_exists && text_eq(name, "imorph.conf") {
        return EntryAction::Keep;
    }
    let n = name.unicode_len();
    if n > 0 && name.get_char(n - 1) == '/' {
        EntryAction::CreateDirectory
    } else {
        EntryAction::WriteFile
    }
}

} // verus!
