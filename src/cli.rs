//! The command line: its commands, and how their arguments become values.

use vstd::prelude::*;

use crate::store::ValueStore;
use crate::text::{split_at_first, split_once_char, starts_with_text, views_of};

verus! {

/// The commands of the command line.
pub enum Commands {
    /// Show a scaffold, by name or path.
    Show { scaffold: String },
    /// List every scaffold on the search path.
    List,
    /// Construct a scaffold into `output` (the current directory by default).
    Construct {
        scaffold: String,
        output: Option<String>,
        confirm_all: u8,
        force: bool,
        values: Vec<String>,
    },
    /// Run the patch `<scaffold>:<patch>` in `output`.
    Patch { patch: String, output: Option<String>, confirm_all: u8, values: Vec<String> },
    /// Serve the tool protocol on standard input and output.
    Mcp,
}

/// The value that the `key=value` assignments `vals` give `k`: the last
/// assignment to it wins.
pub open spec fn assigned(vals: Seq<Seq<char>>, k: Seq<char>) -> Option<Seq<char>>
    decreases vals.len(),
{
    if vals.len() == 0 {
        None
    } else {
        match split_at_first(vals.last(), '=') {
            Some((a, b)) => if a == k {
                Some(b)
            } else {
                assigned(vals.drop_last(), k)
            },
            None => assigned(vals.drop_last(), k),
        }
    }
}

pub open spec fn well_formed_assignment(v: Seq<char>) -> bool {
    split_at_first(v, '=') is Some
}

/// Reads `--set key=value` arguments. The first argument without a `=` is
/// refused, named in the error.
pub fn parse_set_values(values: &Vec<String>) -> (r: Result<ValueStore, String>)
    ensures
        r is Ok <==> forall|i: int|
            0 <= i < values@.len() ==> well_formed_assignment(#[trigger] values@[i]@),
        r matches Ok(s) ==> forall|k: Seq<char>| s.get_spec(k) == assigned(views_of(values@), k),
        r matches Err(t) ==> exists|i: int|
            0 <= i < values@.len() && !well_formed_assignment(values@[i]@) && (forall|j: int|
                0 <= j < i ==> well_formed_assignment(#[trigger] values@[j]@)) && t@
                == "Invalid value format: "@ + values@[i]@,
{
    let mut store = ValueStore::new();
    let ghost vv = views_of(values@);
    let mut i: usize = 0;
    while i < values.len()
        invariant
            vv == views_of(values@),
            i <= values@.len(),
            forall|j: int| 0 <= j < i ==> well_formed_assignment(#[trigger] values@[j]@),
            forall|k: Seq<char>| store.get_spec(k) == assigned(vv.take(i as int), k),
        decreases values@.len() - i,
    {
        proof {
            assert(vv.take(i as int + 1).drop_last() =~= vv.take(i as int));
            assert(vv.take(i as int + 1).last() == values@[i as int]@);
        }
        match split_once_char(values[i].as_str(), '=') {
            Some((k, v)) => {
                store.insert(k.as_str(), v.as_str());
            },
            None => {
                let mut t = "Invalid value format: ".to_owned();
                t.append(values[i].as_str());
                return Err(t);
            },
        }
        i = i + 1;
    }
    proof {
        assert(vv.take(values@.len() as int) =~= vv);
    }
    Ok(store)
}

/// The log filter for a verbosity count: `-v` shows info, `-vv` debug,
/// `-vvv` and more trace; warnings always show.
pub fn log_filter(verbose: u8) -> (r: String)
    ensures
        r@ == if verbose == 0 {
            "warn"@
        } else if verbose == 1 {
            "info"@
        } else if verbose == 2 {
            "debug"@
        } else {
            "trace"@
        },
{
    if verbose == 0 {
        "warn".to_owned()
    } else if verbose == 1 {
        "info".to_owned()
    } else if verbose == 2 {
        "debug".to_owned()
    } else {
        "trace".to_owned()
    }
}

/// Where the cursor of a choice prompt starts: on the declared default,
/// which must be one of the choices.
pub fn default_cursor(choices: &Vec<String>, default: &Option<String>) -> (r: Result<
    Option<usize>,
    String,
>)
    ensures
        match default {
            None => r == Ok::<Option<usize>, String>(None),
            Some(d) => match r {
                Ok(Some(i)) => i < choices@.len() && choices@[i as int]@ == d@ && forall|j: int|
                    0 <= j < i ==> choices@[j]@ != d@,
                Ok(None) => false,
                Err(t) => t@ == "default not in choices"@ && forall|j: int|
                    0 <= j < choices@.len() ==> choices@[j]@ != d@,
            },
        },
{
    match default {
        None => Ok(None),
        Some(d) => {
            let mut i: usize = 0;
            while i < choices.len()
                invariant
                    *default == Some(*d),
                    i <= choices@.len(),
                    forall|j: int| 0 <= j < i ==> choices@[j]@ != d@,
                decreases choices@.len() - i,
            {
                if crate::text::same_text(choices[i].as_str(), d.as_str()) {
                    return Ok(Some(i));
                }
                i = i + 1;
            }
            Err("default not in choices".to_owned())
        },
    }
}

/// The lowercase form of `s` under Unicode's case mapping, which depends on
/// `s` alone.
pub uninterp spec fn lowercase_of(s: Seq<char>) -> Seq<char>;

/// Relies on `str::to_lowercase`: Unicode lowercase mapping, which
/// depends on the characters alone.
#[verifier::external_body]
fn lowercase(s: &str) -> (r: String)
    ensures
        r@ == lowercase_of(s@),
{
    s.to_lowercase()
}

/// The prefix of environment variables that supply values.
pub open spec fn env_prefix() -> Seq<char> {
    "KENCHIKU_VAL_"@
}

/// The value that the environment `vars` supplies for `k`: variables named
/// with the prefix supply the value named by the rest of their name,
/// lowercased; a later variable wins.
pub open spec fn env_assigned(vars: Seq<(Seq<char>, Seq<char>)>, k: Seq<char>) -> Option<Seq<char>>
    decreases vars.len(),
{
    if vars.len() == 0 {
        None
    } else {
        let (name, value) = vars.last();
        if env_prefix().is_prefix_of(name) && lowercase_of(
            name.subrange(env_prefix().len() as int, name.len() as int),
        ) == k {
            Some(value)
        } else {
            env_assigned(vars.drop_last(), k)
        }
    }
}

pub open spec fn var_views(v: Seq<(String, String)>) -> Seq<(Seq<char>, Seq<char>)> {
    v.map_values(|p: (String, String)| (p.0@, p.1@))
}

/// The values supplied through the environment variables `vars`.
pub fn get_env_values(vars: &Vec<(String, String)>) -> (r: ValueStore)
    ensures
        forall|k: Seq<char>| r.get_spec(k) == env_assigned(var_views(vars@), k),
{
    let prefix = "KENCHIKU_VAL_";
    let plen = prefix.unicode_len();
    let mut store = ValueStore::new();
    let ghost vv = var_views(vars@);
    let mut i: usize = 0;
    while i < vars.len()
        invariant
            vv == var_views(vars@),
            plen == prefix@.len(),
            prefix@ == env_prefix(),
            i <= vars@.len(),
            forall|k: Seq<char>| store.get_spec(k) == env_assigned(vv.take(i as int), k),
        decreases vars@.len() - i,
    {
        proof {
            assert(vv.take(i as int + 1).drop_last() =~= vv.take(i as int));
            assert(vv.take(i as int + 1).last() == (vars@[i as int].0@, vars@[i as int].1@));
        }
        let name = vars[i].0.as_str();
        if starts_with_text(name, prefix) {
            let rest = name.substring_char(plen, name.unicode_len());
            let key = lowercase(rest);
            store.insert(key.as_str(), vars[i].1.as_str());
        }
        i = i + 1;
    }
    proof {
        assert(vv.take(vars@.len() as int) =~= vv);
    }
    store
}

} // verus!
