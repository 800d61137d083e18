use vstd::prelude::*;

use crate::config::{has_key, Config, Repo, RepoView, Selection, SelectionView};

verus! {

/// The mark `list` shows for one Registry entry, or nothing when the
/// entry is filtered out: `Explicit` entries show under the default
/// filter (`*` when the directory exists, `-` when not), `Optional`
/// entries under the optional filter (`o` when it exists, a blank
/// when not).
pub open spec fn spec_list_mark(
    v: SelectionView<RepoView>,
    exists: bool,
    default: bool,
    optional: bool,
) -> Option<Seq<char>> {
    match v {
        SelectionView::Explicit(_) => if default {
            Some(
                if exists {
                    "*"@
                } else {
                    "-"@
                },
            )
        } else {
            None
        },
        SelectionView::Optional(_) => if optional {
            Some(
                if exists {
                    "o"@
                } else {
                    " "@
                },
            )
        } else {
            None
        },
    }
}

/// Decides what `list` shows for one entry, given whether its
/// directory exists and which filters are on.
pub fn list_mark(
    select: &Selection<&Repo>,
    exists: bool,
    default: bool,
    optional: bool,
) -> (r: Option<&'static str>)
    ensures
        match r {
            Some(m) => spec_list_mark(select@, exists, default, optional) == Some(m@),
            None => spec_list_mark(select@, exists, default, optional) is None,
        },
{
    match select {
        Selection::Explicit(_) => {
            if !default {
                None
            } else if exists {
                Some("*")
            } else {
                Some("-")
            }
        },
        Selection::Optional(_) => {
            if !optional {
                None
            } else if exists {
                Some("o")
            } else {
                Some(" ")
            }
        },
    }
}

/// Whether `list --unknown` shows a local directory name: it is shown
/// when it is not a Registry key and does not start with a dot.
pub fn is_unknown(cfg: &Config, name: &str) -> (r: bool)
    ensures
        r == (!has_key(cfg.entries(), name@) && !(name@.len() > 0 && name@[0] == '.')),
{
    if cfg.is_known(name) {
        return false;
    }
    let n = name.unicode_len();
    if n > 0 {
        let c = name.get_char(0);
        if c == '.' {
            return false;
        }
    }
    true
}

} // verus!
