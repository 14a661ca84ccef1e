//! Where a scaffold named on the command line or in a protocol call is
//! looked for.

use vstd::prelude::*;

use crate::paths::{attach, join_under};
use crate::text::{split_on, split_text, starts_with_text, views_of};

verus! {

/// The directories of a colon-separated search path, empty entries left out.
pub open spec fn search_dirs_of(parts: Seq<Seq<char>>) -> Seq<Seq<char>>
    decreases parts.len(),
{
    if parts.len() == 0 {
        Seq::empty()
    } else {
        let prev = search_dirs_of(parts.drop_last());
        if parts.last().len() == 0 {
            prev
        } else {
            prev.push(parts.last())
        }
    }
}

/// `name` attached below each directory of `dirs`.
pub open spec fn candidates_of(dirs: Seq<Seq<char>>, name: Seq<char>) -> Seq<Seq<char>> {
    dirs.map_values(|d: Seq<char>| attach(d, name))
}

/// A name that starts with `.` or `/` is a path of its own.
pub open spec fn is_literal_path(name: Seq<char>) -> bool {
    name.len() > 0 && (name[0] == '.' || name[0] == '/')
}

/// The directories of the search path `path_env`.
pub fn search_dirs(path_env: &str) -> (r: Vec<String>)
    ensures
        views_of(r@) == search_dirs_of(split_on(path_env@, ':')),
{
    let parts = split_text(path_env, ':');
    let ghost pv = views_of(parts@);
    let mut r: Vec<String> = Vec::new();
    let mut i: usize = 0;
    while i < parts.len()
        invariant
            pv == views_of(parts@),
            i <= parts@.len(),
            views_of(r@) == search_dirs_of(pv.take(i as int)),
        decreases parts@.len() - i,
    {
        let ghost before = r@;
        proof {
            assert(pv.take(i as int + 1).drop_last() =~= pv.take(i as int));
            assert(pv.take(i as int + 1).last() == parts@[i as int]@);
        }
        if parts[i].unicode_len() > 0 {
            r.push(parts[i].clone());
            proof {
                assert(views_of(r@) =~= views_of(before).push(parts@[i as int]@));
            }
        }
        i = i + 1;
    }
    proof {
        assert(pv.take(parts@.len() as int) =~= pv);
    }
    r
}

/// Where to look for a scaffold.
pub enum Discovery {
    /// The name is itself the scaffold's directory.
    Literal(String),
    /// The directories that may hold it, in the order of the search path;
    /// the first that exists wins.
    Search(Vec<String>),
}

/// Resolves a scaffold name against the search path `path_env`: a name
/// starting with `.` or `/` is taken as a path; any other is looked for in
/// each directory of the search path.
pub fn discover_scaffold(path_or_name: &str, path_env: &str) -> (r: Discovery)
    ensures
        is_literal_path(path_or_name@) ==> (r matches Discovery::Literal(p) && p@
            == path_or_name@),
        !is_literal_path(path_or_name@) ==> (r matches Discovery::Search(c) && views_of(c@)
            == candidates_of(search_dirs_of(split_on(path_env@, ':')), path_or_name@)),
{
    proof {
        reveal_strlit(".");
        reveal_strlit("/");
    }
    if starts_with_text(path_or_name, ".") || starts_with_text(path_or_name, "/") {
        proof {
            assert("."@.len() == 1 && "."@[0] == '.');
            assert("/"@.len() == 1 && "/"@[0] == '/');
            if "."@.is_prefix_of(path_or_name@) {
                assert(path_or_name@[0] == "."@[0]);
            } else {
                assert(path_or_name@[0] == "/"@[0]);
            }
        }
        return Discovery::Literal(path_or_name.to_owned());
    }
    proof {
        assert("."@ =~= seq!['.']);
        assert("/"@ =~= seq!['/']);
        if path_or_name@.len() > 0 {
            if path_or_name@[0] == '.' {
                assert(seq!['.'].is_prefix_of(path_or_name@));
            }
            if path_or_name@[0] == '/' {
                assert(seq!['/'].is_prefix_of(path_or_name@));
            }
        }
    }
    let dirs = search_dirs(path_env);
    let ghost dv = views_of(dirs@);
    let mut r: Vec<String> = Vec::new();
    let mut i: usize = 0;
    while i < dirs.len()
        invariant
            dv == views_of(dirs@),
            i <= dirs@.len(),
            views_of(r@) == candidates_of(dv.take(i as int), path_or_name@),
        decreases dirs@.len() - i,
    {
        let ghost before = r@;
        let c = join_under(dirs[i].as_str(), path_or_name);
        r.push(c);
        proof {
            assert(views_of(r@) =~= views_of(before).push(c@));
            assert(candidates_of(dv.take(i as int + 1), path_or_name@) =~= candidates_of(
                dv.take(i as int),
                path_or_name@,
            ).push(attach(dv[i as int], path_or_name@)));
        }
        i = i + 1;
    }
    proof {
        assert(dv.take(dirs@.len() as int) =~= dv);
    }
    Discovery::Search(r)
}

} // verus!
