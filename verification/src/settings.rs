//! The plain configuration values the core consumes.
//!
//! Styling, border sets, popup sizes and the like belong to the embedding
//! program; the core only reads how session paths are displayed and which
//! keys the embedding program binds.

use vstd::prelude::*;

use crate::strings::chars_to_string;

verus! {

/// How raw session paths are turned into display labels.
pub struct SessionSelectorPaths {
    /// Replace a leading home directory by the symbol below.
    pub truncate_home_dir: bool,
    /// What stands in for the home directory, usually a tilde.
    pub home_dir_symbol: Vec<char>,
    /// Append a slash to every label.
    pub trailing_slash: bool,
}

impl Default for SessionSelectorPaths {
    /// Home directories shown as `~`, no trailing slash.
    fn default() -> (r: Self)
        ensures
            r.truncate_home_dir == true,
            r.home_dir_symbol@ == seq!['~'],
            r.trailing_slash == false,
    {
        let mut symbol: Vec<char> = Vec::new();
        symbol.push('~');
        proof {
            assert(symbol@ =~= seq!['~']);
        }
        SessionSelectorPaths {
            truncate_home_dir: true,
            home_dir_symbol: symbol,
            trailing_slash: false,
        }
    }
}

/// Which keys the embedding program binds in the multiplexer: one list opens
/// the selector, the other jumps to the last session.
pub struct Keybinds {
    pub select_session: Vec<String>,
    pub last_session: Vec<String>,
}

impl Default for Keybinds {
    /// The selector on Control-s, the last session on `w`.
    fn default() -> (r: Self)
        ensures
            r.select_session@.len() == 1,
            r.select_session@[0]@ == "C-s"@,
            r.last_session@.len() == 1,
            r.last_session@[0]@ == "w"@,
    {
        let mut select_chars: Vec<char> = Vec::new();
        select_chars.push('C');
        select_chars.push('-');
        select_chars.push('s');
        let mut last_chars: Vec<char> = Vec::new();
        last_chars.push('w');
        proof {
            reveal_strlit("C-s");
            reveal_strlit("w");
            assert(select_chars@ =~= "C-s"@);
            assert(last_chars@ =~= "w"@);
        }
        let mut select_session: Vec<String> = Vec::new();
        select_session.push(chars_to_string(&select_chars));
        let mut last_session: Vec<String> = Vec::new();
        last_session.push(chars_to_string(&last_chars));
        Keybinds { select_session, last_session }
    }
}

} // verus!
