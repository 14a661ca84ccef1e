//! The text that `show` and `list` print for a scaffold and its patches.

use vstd::prelude::*;

use crate::values::ValueMeta;

verus! {

pub open spec fn spaces(n: nat) -> Seq<char> {
    Seq::new(n, |i: int| ' ')
}

/// One line per choice, each `<indent>    - <choice>`.
pub open spec fn choice_lines(pad: Seq<char>, choices: Seq<Seq<char>>) -> Seq<char>
    decreases choices.len(),
{
    if choices.len() == 0 {
        Seq::empty()
    } else {
        choice_lines(pad, choices.drop_last()) + pad + "    - "@ + choices.last() + "\n"@
    }
}

/// The lines describing the declared value `name`, indented by `indent`.
pub open spec fn value_text(name: Seq<char>, meta: ValueMeta, indent: nat) -> Seq<char> {
    let pad = spaces(indent);
    pad + "- Name: "@ + name + "\n"@ + pad + "  Description: "@ + meta.description@ + "\n"@ + pad
        + "  Type: "@ + meta.value_type@ + "\n"@ + match meta.default {
        Some(d) => pad + "  Default: \""@ + d@ + "\"\n"@,
        None => Seq::empty(),
    } + if meta.value_type@ == "enum"@ && meta.choices is Some {
        pad + "  Choices:\n"@ + choice_lines(pad, meta.choices->0@.map_values(|c: String| c@))
    } else {
        Seq::empty()
    }
}

/// The lines of every value of `values`, in order.
pub open spec fn values_text(values: Seq<(String, ValueMeta)>, indent: nat) -> Seq<char>
    decreases values.len(),
{
    if values.len() == 0 {
        Seq::empty()
    } else {
        values_text(values.drop_last(), indent) + value_text(
            values.last().0@,
            values.last().1,
            indent,
        )
    }
}

/// What `show` and `list` know of a patch.
pub struct PatchListing {
    pub name: String,
    pub description: String,
    pub values: Vec<(String, ValueMeta)>,
}

/// The lines describing a patch; nested under its scaffold they are
/// indented, and values are listed only with details.
pub open spec fn patch_text(p: PatchListing, with_details: bool, nested: bool) -> Seq<char> {
    let prefix = if nested {
        "  - "@
    } else {
        Seq::empty()
    };
    let pad = spaces(
        if nested {
            4
        } else {
            0
        },
    );
    prefix + "Name: "@ + p.name@ + "\n"@ + pad + "Description: "@ + p.description@ + "\n"@
        + if with_details {
        pad + "Values:\n"@ + values_text(
            p.values@,
            if nested {
                6
            } else {
                2
            },
        )
    } else {
        Seq::empty()
    }
}

pub open spec fn patches_text(patches: Seq<PatchListing>, with_details: bool) -> Seq<char>
    decreases patches.len(),
{
    if patches.len() == 0 {
        Seq::empty()
    } else {
        patches_text(patches.drop_last(), with_details) + patch_text(
            patches.last(),
            with_details,
            true,
        )
    }
}

/// The lines describing a scaffold: its name and description, its values
/// (with details), and its patches.
pub open spec fn scaffold_text(
    name: Seq<char>,
    description: Seq<char>,
    values: Seq<(String, ValueMeta)>,
    patches: Seq<PatchListing>,
    with_details: bool,
) -> Seq<char> {
    "Name: "@ + name + "\n"@ + "Description: "@ + description + "\n"@ + if with_details {
        "Values:\n"@ + values_text(values, 2)
    } else {
        Seq::empty()
    } + "Patches:\n"@ + patches_text(patches, with_details)
}

fn pad_of(n: usize) -> (r: String)
    ensures
        r@ == spaces(n as nat),
{
    let mut r = String::new();
    let mut i: usize = 0;
    while i < n
        invariant
            i <= n,
            r@ == spaces(i as nat),
        decreases n - i,
    {
        r.append(" ");
        proof {
            reveal_strlit(" ");
            assert(r@ =~= spaces((i + 1) as nat));
        }
        i = i + 1;
    }
    r
}

/// The lines describing the declared value `name`.
pub fn render_value(name: &str, meta: &ValueMeta, indent: usize) -> (r: String)
    ensures
        r@ == value_text(name@, *meta, indent as nat),
{
    let pad = pad_of(indent);
    let mut r = pad.clone();
    r.append("- Name: ");
    r.append(name);
    r.append("\n");
    r.append(pad.as_str());
    r.append("  Description: ");
    r.append(meta.description.as_str());
    r.append("\n");
    r.append(pad.as_str());
    r.append("  Type: ");
    r.append(meta.value_type.as_str());
    r.append("\n");
    let ghost head = r@;
    match &meta.default {
        Some(d) => {
            r.append(pad.as_str());
            r.append("  Default: \"");
            r.append(d.as_str());
            r.append("\"\n");
        },
        None => {},
    }
    let ghost mid = r@;
    if crate::text::same_text(meta.value_type.as_str(), "enum") {
        match &meta.choices {
            Some(cs) => {
                r.append(pad.as_str());
                r.append("  Choices:\n");
                let ghost cv = cs@.map_values(|c: String| c@);
                let ghost start = r@;
                let mut i: usize = 0;
                while i < cs.len()
                    invariant
                        i <= cs@.len(),
                        cv == cs@.map_values(|c: String| c@),
                        pad@ == spaces(indent as nat),
                        r@ == start + choice_lines(pad@, cv.take(i as int)),
                    decreases cs@.len() - i,
                {
                    proof {
                        assert(cv.take(i as int + 1).drop_last() =~= cv.take(i as int));
                    }
                    r.append(pad.as_str());
                    r.append("    - ");
                    r.append(cs[i].as_str());
                    r.append("\n");
                    proof {
                        assert(r@ =~= start + choice_lines(pad@, cv.take(i as int + 1)));
                    }
                    i = i + 1;
                }
                proof {
                    assert(cv.take(cs@.len() as int) =~= cv);
                }
            },
            None => {},
        }
    }
    proof {
        assert(r@ =~= value_text(name@, *meta, indent as nat));
    }
    r
}

fn render_values(values: &Vec<(String, ValueMeta)>, indent: usize) -> (r: String)
    ensures
        r@ == values_text(values@, indent as nat),
{
    let mut r = String::new();
    let mut i: usize = 0;
    while i < values.len()
        invariant
            i <= values@.len(),
            r@ == values_text(values@.take(i as int), indent as nat),
        decreases values@.len() - i,
    {
        proof {
            assert(values@.take(i as int + 1).drop_last() =~= values@.take(i as int));
        }
        let line = render_value(values[i].0.as_str(), &values[i].1, indent);
        r.append(line.as_str());
        i = i + 1;
    }
    proof {
        assert(values@.take(values@.len() as int) =~= values@);
    }
    r
}

/// The lines describing a patch.
pub fn render_patch(p: &PatchListing, with_details: bool, nested: bool) -> (r: String)
    ensures
        r@ == patch_text(*p, with_details, nested),
{
    let pad = pad_of(
        if nested {
            4
        } else {
            0
        },
    );
    let mut r = String::new();
    if nested {
        r.append("  - ");
    }
    r.append("Name: ");
    r.append(p.name.as_str());
    r.append("\n");
    r.append(pad.as_str());
    r.append("Description: ");
    r.append(p.description.as_str());
    r.append("\n");
    if with_details {
        r.append(pad.as_str());
        r.append("Values:\n");
        let vs = render_values(
            &p.values,
            if nested {
                6
            } else {
                2
            },
        );
        r.append(vs.as_str());
    }
    proof {
        assert(r@ =~= patch_text(*p, with_details, nested));
    }
    r
}

/// The lines describing a scaffold and its patches.
pub fn render_scaffold(
    name: &str,
    description: &str,
    values: &Vec<(String, ValueMeta)>,
    patches: &Vec<PatchListing>,
    with_details: bool,
) -> (r: String)
    ensures
        r@ == scaffold_text(name@, description@, values@, patches@, with_details),
{
    let mut r = "Name: ".to_owned();
    r.append(name);
    r.append("\n");
    r.append("Description: ");
    r.append(description);
    r.append("\n");
    if with_details {
        r.append("Values:\n");
        let vs = render_values(values, 2);
        r.append(vs.as_str());
    }
    r.append("Patches:\n");
    let ghost start = r@;
    let mut i: usize = 0;
    while i < patches.len()
        invariant
            i <= patches@.len(),
            r@ == start + patches_text(patches@.take(i as int), with_details),
        decreases patches@.len() - i,
    {
        proof {
            assert(patches@.take(i as int + 1).drop_last() =~= patches@.take(i as int));
        }
        let text = render_patch(&patches[i], with_details, true);
        r.append(text.as_str());
        proof {
            assert(r@ =~= start + patches_text(patches@.take(i as int + 1), with_details));
        }
        i = i + 1;
    }
    proof {
        assert(patches@.take(patches@.len() as int) =~= patches@);
        assert(r@ =~= scaffold_text(name@, description@, values@, patches@, with_details));
    }
    r
}

} // verus!
