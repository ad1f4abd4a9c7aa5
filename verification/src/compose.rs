//! Turns a configuration and a batch of file paths into the script or
//! scripts the shim hands to a terminal: a change-directory prefix for the
//! first path's directory, then the command with every path safely quoted.

use vstd::prelude::*;

use crate::config::{Config, GroupBy};
use crate::quote::{bash_quote, bash_quote_spec};
use crate::text::{lemma_rfind_char, rfind_char, rfind_char_str};

verus! {

/// The directory part of a path that carries no trailing separator: the text
/// before the last `/` (the lone `/` for a file directly under the root, the
/// empty string for a bare file name), and nothing for the root or an empty
/// path.
pub open spec fn parent_dir(s: Seq<char>) -> Option<Seq<char>> {
    let i = rfind_char(s, '/');
    if s.len() == 0 {
        None
    } else if i < 0 {
        Some(Seq::empty())
    } else if i == 0 {
        if s.len() == 1 {
            None
        } else {
            Some(seq!['/'])
        }
    } else {
        Some(s.subrange(0, i))
    }
}

pub fn parent_of(s: &str) -> (r: Option<String>)
    ensures
        match r {
            Some(p) => parent_dir(s@) == Some(p@),
            None => parent_dir(s@) is None,
        },
{
    let n = s.unicode_len();
    proof {
        lemma_rfind_char(s@, '/');
    }
    if n == 0 {
        return None;
    }
    match rfind_char_str(s, '/') {
        Option::None => {
            let r = String::new();
            proof {
                assert(r@ =~= Seq::<char>::empty());
            }
            Some(r)
        },
        Option::Some(i) => {
            if i == 0 {
                if n == 1 {
                    None
                } else {
                    let r = crate::text::char_to_string('/');
                    proof {
                        assert(r@ =~= seq!['/']);
                    }
                    Some(r)
                }
            } else {
                let r = s.substring_char(0, i).to_owned();
                Some(r)
            }
        },
    }
}

/// `cd '<dir>'; ` for the directory of the batch's first path, so the
/// command runs from where the files are; nothing when the path has no
/// parent directory.
pub open spec fn cd_prefix(first: Seq<char>) -> Seq<char> {
    match parent_dir(first) {
        Some(p) => "cd "@ + bash_quote_spec(p) + "; "@,
        None => Seq::empty(),
    }
}

/// ` '<p1>' '<p2>' ...`: one leading space and one quoted path per entry.
pub open spec fn paths_part(paths: Seq<Seq<char>>) -> Seq<char>
    decreases paths.len(),
{
    if paths.len() == 0 {
        Seq::empty()
    } else {
        seq![' '] + bash_quote_spec(paths[0]) + paths_part(paths.drop_first())
    }
}

proof fn lemma_paths_part_snoc(paths: Seq<Seq<char>>, p: Seq<char>)
    ensures
        paths_part(paths.push(p)) == paths_part(paths) + seq![' '] + bash_quote_spec(p),
    decreases paths.len(),
{
    if paths.len() == 0 {
        let t = paths.push(p);
        assert(t.len() == 1 && t[0] == p);
        assert(t.drop_first() =~= Seq::<Seq<char>>::empty());
        assert(paths_part(t.drop_first()) =~= Seq::<char>::empty());
        assert(paths_part(t) =~= paths_part(paths) + seq![' '] + bash_quote_spec(p));
    } else {
        assert(paths.push(p).drop_first() =~= paths.drop_first().push(p));
        lemma_paths_part_snoc(paths.drop_first(), p);
        assert(paths_part(paths.push(p)) =~= paths_part(paths) + seq![' '] + bash_quote_spec(p));
    }
}

/// The one script of `GroupBy::All`: prefix, command, every path quoted.
pub open spec fn all_script(cmd: Seq<char>, paths: Seq<Seq<char>>) -> Seq<char>
    recommends
        paths.len() > 0,
{
    cd_prefix(paths[0]) + cmd + paths_part(paths)
}

/// One script of `GroupBy::PerFile`: the same prefix (always from the first
/// path of the batch), the command, and that one path quoted.
pub open spec fn single_script(cmd: Seq<char>, first: Seq<char>, p: Seq<char>) -> Seq<char> {
    cd_prefix(first) + cmd + seq![' '] + bash_quote_spec(p)
}

/// Composes the scripts for one batch of opened files: exactly one script
/// under `GroupBy::All`, exactly one script per path under
/// `GroupBy::PerFile`, each pinned down to the character.
pub fn compose_scripts(config: &Config, paths: &Vec<String>) -> (r: Vec<String>)
    requires
        paths@.len() > 0,
    ensures
        config.group_open_by == GroupBy::All ==> r@.len() == 1,
        config.group_open_by == GroupBy::PerFile ==> r@.len() == paths@.len(),
        config.group_open_by == GroupBy::All ==> r@[0]@ == all_script(
            config.command@,
            paths@.map_values(|p: String| p@),
        ),
        config.group_open_by == GroupBy::PerFile ==> forall|i: int|
            0 <= i < paths@.len() ==> r@[i]@ == single_script(
                config.command@,
                paths@[0]@,
                paths@[i]@,
            ),
{
    let ghost pviews = paths@.map_values(|p: String| p@);
    let prefix: String = match parent_of(paths[0].as_str()) {
        Option::Some(p) => {
            let mut s = String::from_str("cd ");
            let q = bash_quote(p.as_str());
            s.append(q.as_str());
            s.append("; ");
            s
        },
        Option::None => String::new(),
    };
    proof {
        assert(prefix@ =~= cd_prefix(paths@[0]@));
    }
    let mut out: Vec<String> = Vec::new();
    match config.group_open_by {
        GroupBy::All => {
            let mut script = prefix;
            script.append(config.command.as_str());
            let mut i: usize = 0;
            proof {
                assert(pviews.subrange(0, 0) =~= Seq::<Seq<char>>::empty());
                assert(script@ =~= cd_prefix(paths@[0]@) + config.command@ + paths_part(
                    pviews.subrange(0, 0),
                ));
            }
            while i < paths.len()
                invariant
                    0 <= i <= paths@.len(),
                    paths@.len() > 0,
                    pviews == paths@.map_values(|p: String| p@),
                    script@ == cd_prefix(paths@[0]@) + config.command@ + paths_part(
                        pviews.subrange(0, i as int),
                    ),
                decreases paths@.len() - i,
            {
                script.append(" ");
                let q = bash_quote(paths[i].as_str());
                script.append(q.as_str());
                proof {
                    lemma_paths_part_snoc(pviews.subrange(0, i as int), pviews[i as int]);
                    assert(pviews.subrange(0, i + 1) =~= pviews.subrange(0, i as int).push(
                        pviews[i as int],
                    ));
                    assert(" "@ =~= seq![' ']) by {
                        reveal_strlit(" ");
                    }
                    assert(script@ =~= cd_prefix(paths@[0]@) + config.command@ + paths_part(
                        pviews.subrange(0, i + 1),
                    ));
                }
                i += 1;
            }
            proof {
                assert(pviews.subrange(0, pviews.len() as int) =~= pviews);
                assert(pviews[0] == paths@[0]@);
            }
            out.push(script);
        },
        GroupBy::PerFile => {
            let mut i: usize = 0;
            while i < paths.len()
                invariant
                    0 <= i <= paths@.len(),
                    paths@.len() > 0,
                    prefix@ == cd_prefix(paths@[0]@),
                    out@.len() == i,
                    forall|j: int|
                        0 <= j < i ==> out@[j]@ == single_script(
                            config.command@,
                            paths@[0]@,
                            paths@[j]@,
                        ),
                decreases paths@.len() - i,
            {
                let mut script = prefix.clone();
                script.append(config.command.as_str());
                script.append(" ");
                let q = bash_quote(paths[i].as_str());
                script.append(q.as_str());
                proof {
                    assert(" "@ =~= seq![' ']) by {
                        reveal_strlit(" ");
                    }
                    assert(script@ =~= single_script(config.command@, paths@[0]@, paths@[i as int]@));
                }
                out.push(script);
                i += 1;
            }
        },
    }
    out
}

} // verus!
