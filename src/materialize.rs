//! Moving a finished run's files from the scratch tree into the output
//! directory: what happens to each entry, and what is reported when some
//! could not be moved.

use vstd::prelude::*;

use crate::text::views_of;

verus! {

/// What to do with one entry of the scratch tree.
#[derive(Clone, Copy, Debug, PartialEq, Eq, Structural)]
pub enum MoveStep {
    /// Both sides are directories: merge them entry by entry.
    Merge,
    /// Something is in the way and may not be replaced: leave the entry in
    /// the scratch tree and report it.
    Skip,
    /// Something is in the way and may be replaced: remove it, then move.
    Replace,
    /// Nothing is in the way: move.
    Place,
}

/// Decides what happens to one entry of the scratch tree.
pub fn move_step(
    source_is_dir: bool,
    dest_exists: bool,
    dest_is_dir: bool,
    merge_directories: bool,
    overwrite: bool,
) -> (r: MoveStep)
    ensures
        r == if source_is_dir && dest_exists && dest_is_dir && merge_directories {
            MoveStep::Merge
        } else if dest_exists && !overwrite {
            MoveStep::Skip
        } else if dest_exists {
            MoveStep::Replace
        } else {
            MoveStep::Place
        },
{
    if source_is_dir && dest_exists && dest_is_dir && merge_directories {
        MoveStep::Merge
    } else if dest_exists && !overwrite {
        MoveStep::Skip
    } else if dest_exists {
        MoveStep::Replace
    } else {
        MoveStep::Place
    }
}

/// One `- <path>` line per skipped path, joined by line breaks.
pub open spec fn listing(paths: Seq<Seq<char>>) -> Seq<char>
    decreases paths.len(),
{
    if paths.len() == 0 {
        Seq::empty()
    } else if paths.len() == 1 {
        "- "@ + paths[0]
    } else {
        listing(paths.drop_last()) + "\n- "@ + paths.last()
    }
}

/// What to tell the user once the files are moved: nothing when every
/// file moved (the scratch tree may then go), else the list of the paths left
/// behind (and the scratch tree stays).
pub fn skipped_report(skipped: &Vec<String>) -> (r: Option<String>)
    ensures
        skipped@.len() == 0 <==> r is None,
        r matches Some(t) ==> t@
            == "Existing files are in the way, please manually copy these over:\n"@ + listing(
            views_of(skipped@),
        ),
{
    if skipped.len() == 0 {
        return None;
    }
    let mut list = String::new();
    let mut i: usize = 0;
    while i < skipped.len()
        invariant
            i <= skipped@.len(),
            list@ == listing(views_of(skipped@).take(i as int)),
        decreases skipped@.len() - i,
    {
        proof {
            assert(views_of(skipped@).take(i as int + 1).drop_last() =~= views_of(skipped@).take(
                i as int,
            ));
        }
        if i == 0 {
            list.append("- ");
            proof {
                assert(views_of(skipped@).take(1) =~= seq![skipped@[0]@]);
            }
        } else {
            list.append("\n- ");
        }
        list.append(skipped[i].as_str());
        i = i + 1;
    }
    proof {
        assert(views_of(skipped@).take(skipped@.len() as int) =~= views_of(skipped@));
    }
    let mut r = "Existing files are in the way, please manually copy these over:\n".to_owned();
    r.append(list.as_str());
    Some(r)
}

} // verus!
