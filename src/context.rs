//! The execution context of one construct or patch run.

use vstd::prelude::*;

use crate::store::ValueStore;
use crate::text::same_text;
use crate::values::ValueMeta;

verus! {

/// The declaration of `id`: the first entry of `metas` named `id`.
pub open spec fn meta_for(metas: Seq<(String, ValueMeta)>, id: Seq<char>) -> Option<ValueMeta>
    decreases metas.len(),
{
    if metas.len() == 0 {
        None
    } else if metas[0].0@ == id {
        Some(metas[0].1)
    } else {
        meta_for(metas.drop_first(), id)
    }
}

/// Everything one run of a script sees: its scratch tree, the scaffold's own
/// files, where the result goes, how much to confirm, and the values it may
/// ask for. The confirmation and prompt callbacks belong to the caller.
pub struct Context {
    /// The scratch tree the script writes to.
    pub working_dir: String,
    /// Where the scaffold's own files live; only ever read.
    pub scaffold_dir: String,
    /// Where the result goes once the run succeeds.
    pub output: String,
    /// 0 asks before every risky action; 2 or more approves them all.
    pub confirm_all: u8,
    /// Whether existing files in `output` may be replaced.
    pub allow_overwrite: bool,
    /// The declared values.
    pub values_meta: Vec<(String, ValueMeta)>,
    /// The values known before the run or supplied during it.
    pub values: ValueStore,
}

impl Default for Context {
    /// An empty context: empty paths, confirmation asked for everything, no
    /// overwriting, and no values.
    fn default() -> (r: Context)
        ensures
            r.working_dir@ == Seq::<char>::empty(),
            r.scaffold_dir@ == Seq::<char>::empty(),
            r.output@ == Seq::<char>::empty(),
            r.confirm_all == 0,
            !r.allow_overwrite,
            r.values_meta@.len() == 0,
            forall|k: Seq<char>| r.values.get_spec(k) is None,
    {
        Context {
            working_dir: String::new(),
            scaffold_dir: String::new(),
            output: String::new(),
            confirm_all: 0,
            allow_overwrite: false,
            values_meta: Vec::new(),
            values: ValueStore::new(),
        }
    }
}

impl Context {
    pub open spec fn meta_spec(&self, id: Seq<char>) -> Option<ValueMeta> {
        meta_for(self.values_meta@, id)
    }

    /// Position in `values_meta` of the declaration of `id`.
    pub fn meta_index(&self, id: &str) -> (r: Option<usize>)
        ensures
            match r {
                Some(i) => i < self.values_meta@.len() && self.meta_spec(id@) == Some(
                    self.values_meta@[i as int].1,
                ),
                None => self.meta_spec(id@) is None,
            },
    {
        let mut i: usize = 0;
        proof {
            assert(self.values_meta@.subrange(0, self.values_meta@.len() as int)
                =~= self.values_meta@);
        }
        while i < self.values_meta.len()
            invariant
                i <= self.values_meta@.len(),
                meta_for(self.values_meta@, id@) == meta_for(
                    self.values_meta@.subrange(i as int, self.values_meta@.len() as int),
                    id@,
                ),
            decreases self.values_meta@.len() - i,
        {
            let ghost rest = self.values_meta@.subrange(i as int, self.values_meta@.len() as int);
            assert(rest[0] == self.values_meta@[i as int]);
            if same_text(self.values_meta[i].0.as_str(), id) {
                return Some(i);
            }
            assert(rest.drop_first() =~= self.values_meta@.subrange(
                i as int + 1,
                self.values_meta@.len() as int,
            ));
            i = i + 1;
        }
        None
    }
}

} // verus!
