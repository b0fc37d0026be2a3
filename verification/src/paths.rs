//! Formatting session paths into the display labels the selector shows.
//!
//! A raw session path is shown as typed by the user's shell, except that,
//! when asked, a leading home directory is replaced by a short symbol, and a
//! trailing slash is appended.

use vstd::prelude::*;

use crate::settings::SessionSelectorPaths;

verus! {

/// Whether the home directory can be stripped from the front of the path:
/// the home prefix is non-empty and the path either is the home directory or
/// continues below it.
pub open spec fn home_strippable(path: Seq<char>, home: Seq<char>) -> bool {
    &&& home.len() > 0
    &&& path.len() >= home.len()
    &&& path.subrange(0, home.len() as int) == home
    &&& (path.len() == home.len() || path[home.len() as int] == '/')
}

/// The display label of one session path: the home directory replaced by the
/// symbol when asked and possible, and a trailing slash appended when asked.
pub open spec fn spec_format_session_path(
    path: Seq<char>,
    home: Seq<char>,
    truncate_home_dir: bool,
    home_dir_symbol: Seq<char>,
    trailing_slash: bool,
) -> Seq<char> {
    let base = if truncate_home_dir && home_strippable(path, home) {
        let rest = if path.len() == home.len() {
            Seq::<char>::empty()
        } else {
            path.subrange(home.len() + 1int, path.len() as int)
        };
        home_dir_symbol + seq!['/'] + rest
    } else {
        path
    };
    if trailing_slash {
        base + seq!['/']
    } else {
        base
    }
}

/// Whether `home` is a strippable prefix of `path`.
fn is_home_strippable(path: &Vec<char>, home: &Vec<char>) -> (r: bool)
    ensures
        r == home_strippable(path@, home@),
{
    if home.len() == 0 || path.len() < home.len() {
        proof {
            assert(!home_strippable(path@, home@));
        }
        return false;
    }
    let mut i: usize = 0;
    while i < home.len()
        invariant
            i <= home@.len(),
            home@.len() <= path@.len(),
            forall|k: int| 0 <= k < i ==> path@[k] == home@[k],
        decreases home@.len() - i,
    {
        if path[i] != home[i] {
            proof {
                assert(path@.subrange(0, home@.len() as int)[i as int] == path@[i as int]);
            }
            return false;
        }
        i = i + 1;
    }
    proof {
        assert(path@.subrange(0, home@.len() as int) =~= home@);
    }
    if path.len() == home.len() {
        true
    } else {
        path[home.len()] == '/'
    }
}

/// Formats one raw session path into its display label.
pub fn format_session_path(path: &Vec<char>, home: &Vec<char>, settings: &SessionSelectorPaths) -> (r: Vec<char>)
    ensures
        r@ == spec_format_session_path(
            path@,
            home@,
            settings.truncate_home_dir,
            settings.home_dir_symbol@,
            settings.trailing_slash,
        ),
{
    let mut out: Vec<char> = Vec::new();
    if settings.truncate_home_dir && is_home_strippable(path, home) {
        out.extend_from_slice(settings.home_dir_symbol.as_slice());
        out.push('/');
        let ghost prefix = settings.home_dir_symbol@ + seq!['/'];
        proof {
            assert(out@ =~= prefix);
        }
        if path.len() > home.len() {
            let mut i: usize = home.len() + 1;
            proof {
                assert(out@ =~= prefix + path@.subrange(home@.len() + 1int, i as int));
            }
            while i < path.len()
                invariant
                    home@.len() + 1 <= i <= path@.len(),
                    prefix == settings.home_dir_symbol@ + seq!['/'],
                    out@ == prefix + path@.subrange(home@.len() + 1int, i as int),
                decreases path@.len() - i,
            {
                out.push(path[i]);
                proof {
                    assert((prefix + path@.subrange(home@.len() + 1int, i as int)).push(
                        path@[i as int],
                    ) =~= prefix + path@.subrange(home@.len() + 1int, i + 1));
                }
                i = i + 1;
            }
        } else {
            proof {
                assert(out@ =~= prefix + Seq::<char>::empty());
            }
        }
    } else {
        out.extend_from_slice(path.as_slice());
        proof {
            assert(out@ =~= path@);
        }
    }
    if settings.trailing_slash {
        out.push('/');
    }
    proof {
        assert(out@ =~= spec_format_session_path(
            path@,
            home@,
            settings.truncate_home_dir,
            settings.home_dir_symbol@,
            settings.trailing_slash,
        ));
    }
    out
}

/// Formats every raw session path, in order.
pub fn build_session_paths(
    raw_paths: &Vec<Vec<char>>,
    home: &Vec<char>,
    settings: &SessionSelectorPaths,
) -> (r: Vec<Vec<char>>)
    ensures
        r@.len() == raw_paths@.len(),
        forall|k: int|
            0 <= k < raw_paths@.len() ==> (#[trigger] r@[k])@ == spec_format_session_path(
                raw_paths@[k]@,
                home@,
                settings.truncate_home_dir,
                settings.home_dir_symbol@,
                settings.trailing_slash,
            ),
{
    let mut out: Vec<Vec<char>> = Vec::new();
    let mut k: usize = 0;
    while k < raw_paths.len()
        invariant
            k <= raw_paths@.len(),
            out@.len() == k,
            forall|t: int|
                0 <= t < k ==> (#[trigger] out@[t])@ == spec_format_session_path(
                    raw_paths@[t]@,
                    home@,
                    settings.truncate_home_dir,
                    settings.home_dir_symbol@,
                    settings.trailing_slash,
                ),
        decreases raw_paths@.len() - k,
    {
        let label = format_session_path(&raw_paths[k], home, settings);
        out.push(label);
        k = k + 1;
    }
    out
}

} // verus!
