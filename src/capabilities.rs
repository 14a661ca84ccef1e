//! The operations a scaffold script is given, each bound to the run's
//! `Context`: the decisions and text they make. The interpreter bindings
//! that hand them to the script live with the caller.

use vstd::prelude::*;

use crate::context::Context;
use crate::paths::{normalize_path, normalized_path};
use crate::text::same_text;

verus! {

/// Whether the regex engine accepts `pattern` (its syntax, and the size of
/// what it compiles to, depend on the pattern alone).
pub uninterp spec fn pattern_compiles(pattern: Seq<char>) -> bool;

/// `content` with the first `limit` matches of `pattern` (all of them when
/// `limit` is 0) replaced by `replacement`, `$n` and `$name` expanded.
pub uninterp spec fn replaced_text(
    content: Seq<char>,
    pattern: Seq<char>,
    limit: nat,
    replacement: Seq<char>,
) -> Seq<char>;

/// The groups of the leftmost match of `pattern` in `text`, if there is a
/// match: the text of each group by index, group 0 being the whole match.
pub uninterp spec fn capture_texts(text: Seq<char>, pattern: Seq<char>) -> Option<
    Seq<Option<Seq<char>>>,
>;

/// The name of each capture group of `pattern`, by index.
pub uninterp spec fn capture_names_of(pattern: Seq<char>) -> Seq<Option<Seq<char>>>;

pub open spec fn optional_views(v: Seq<Option<String>>) -> Seq<Option<Seq<char>>> {
    v.map_values(
        |o: Option<String>|
            match o {
                Some(s) => Some(s@),
                None => None,
            },
    )
}

/// Relies on `regex::Regex::new`, which fails on a pattern the engine
/// refuses, and `regex::Regex::replacen`, which replaces the first `limit`
/// matches (every match when `limit` is 0).
#[verifier::external_body]
fn regex_replacen(content: &str, pattern: &str, limit: usize, replacement: &str) -> (r: Result<
    String,
    String,
>)
    ensures
        r is Ok == pattern_compiles(pattern@),
        r matches Ok(t) ==> t@ == replaced_text(content@, pattern@, limit as nat, replacement@),
{
    match regex::Regex::new(pattern) {
        Ok(re) => Ok(re.replacen(content, limit, replacement).into_owned()),
        Err(e) => Err(e.to_string()),
    }
}

/// Relies on `regex::Regex::new`, `regex::Regex::captures` (the groups
/// of the leftmost match, by index) and `regex::Regex::capture_names` (the
/// name of each group, by index).
#[verifier::external_body]
fn regex_captures(text: &str, pattern: &str) -> (r: Result<
    (Option<Vec<Option<String>>>, Vec<Option<String>>),
    String,
>)
    ensures
        r is Ok == pattern_compiles(pattern@),
        r matches Ok((c, n)) ==> optional_views(n@) == capture_names_of(pattern@) && match c {
            Some(g) => capture_texts(text@, pattern@) == Some(optional_views(g@)),
            None => capture_texts(text@, pattern@) is None,
        },
{
    let re = regex::Regex::new(pattern).map_err(|e| e.to_string())?;
    let groups = re.captures(text).map(
        |c| c.iter().map(|m| m.map(|m| m.as_str().to_owned())).collect(),
    );
    let names = re.capture_names().map(|n| n.map(|n| n.to_owned())).collect();
    Ok((groups, names))
}

/// A pattern the regex engine refused, with the engine's explanation.
pub struct PatternError {
    pub pattern: String,
    pub detail: String,
}

impl PatternError {
    /// The error as text: `Invalid regex pattern '<pattern>': <detail>`.
    pub fn message(&self) -> (r: String)
        ensures
            r@ == "Invalid regex pattern '"@ + self.pattern@ + "': "@ + self.detail@,
    {
        let mut r = "Invalid regex pattern '".to_owned();
        r.append(self.pattern.as_str());
        r.append("': ");
        r.append(self.detail.as_str());
        r
    }
}

/// Why a filesystem capability refused a call.
#[derive(Clone, Copy, Debug, PartialEq, Eq, Structural)]
pub enum FsError {
    /// `fs.read` was given a source other than `workdir` or `scaffold`.
    InvalidReadSource,
}

impl FsError {
    pub fn message(&self) -> (r: String)
        ensures
            r@ == "Invalid read source, must be one of workdir,scaffold"@,
    {
        "Invalid read source, must be one of workdir,scaffold".to_owned()
    }
}

/// The filesystem capability: `fs.exists`, `fs.read`, `fs.mkdir`,
/// `fs.write`, all confined to a root.
pub struct LuaFS;

impl LuaFS {
    /// The path in the scratch tree that `path` names, for `exists`,
    /// `mkdir` and `write`.
    pub fn target(context: &Context, path: &str) -> (r: String)
        ensures
            r@ == normalized_path(context.working_dir@, path@),
    {
        normalize_path(context.working_dir.as_str(), path)
    }

    /// The path that `fs.read(path, opts)` reads. Without options it reads
    /// from the scaffold's own files; `source` picks `workdir` or
    /// `scaffold`, and anything else (an options table without a source
    /// included) is refused.
    pub fn read_target(context: &Context, path: &str, source: &Option<String>) -> (r: Result<
        String,
        FsError,
    >)
        ensures
            match source {
                None => r matches Ok(p) && p@ == normalized_path(context.scaffold_dir@, path@),
                Some(s) => if s@ == "workdir"@ {
                    r matches Ok(p) && p@ == normalized_path(context.working_dir@, path@)
                } else if s@ == "scaffold"@ {
                    r matches Ok(p) && p@ == normalized_path(context.scaffold_dir@, path@)
                } else {
                    r == Err::<String, FsError>(FsError::InvalidReadSource)
                },
            },
    {
        match source {
            None => Ok(normalize_path(context.scaffold_dir.as_str(), path)),
            Some(s) => {
                if same_text(s.as_str(), "workdir") {
                    Ok(normalize_path(context.working_dir.as_str(), path))
                } else if same_text(s.as_str(), "scaffold") {
                    Ok(normalize_path(context.scaffold_dir.as_str(), path))
                } else {
                    Err(FsError::InvalidReadSource)
                }
            },
        }
    }
}

/// The text that `bytes` decode to as UTF-8, with each invalid sequence
/// replaced by U+FFFD.
pub uninterp spec fn lossy_text(bytes: Seq<u8>) -> Seq<char>;

/// Relies on `String::from_utf8_lossy`, whose result depends on the bytes
/// alone.
#[verifier::external_body]
fn utf8_lossy(bytes: &[u8]) -> (r: String)
    ensures
        r@ == lossy_text(bytes@),
        bytes@.len() == 0 ==> r@.len() == 0,
{
    String::from_utf8_lossy(bytes).into_owned()
}

/// What a finished shell command left behind.
pub struct ProcessOutput {
    pub stdout: Vec<u8>,
    pub stderr: Vec<u8>,
    /// `None` when the command was ended by a signal.
    pub exit_code: Option<i32>,
}

/// What `exec.run` hands the script.
pub struct ExecResult {
    pub stdout: String,
    pub stderr: String,
    pub exit_code: Option<i32>,
}

/// The shell capability: `exec.run`.
pub struct LuaExec;

impl LuaExec {
    /// Whether `exec.run` must ask before running: below level 2 it does.
    pub fn needs_confirmation(context: &Context) -> (r: bool)
        ensures
            r == (context.confirm_all < 2),
    {
        context.confirm_all < 2
    }

    /// The question put to the user before a command runs.
    pub fn confirmation_prompt(context: &Context, command: &str) -> (r: String)
        ensures
            r@ == "[sys] Execute command '"@ + command@ + "' in "@ + context.working_dir@ + "?"@,
    {
        let mut r = "[sys] Execute command '".to_owned();
        r.append(command);
        r.append("' in ");
        r.append(context.working_dir.as_str());
        r.append("?");
        r
    }

    /// The result of `exec.run` once the shell was started (or failed to
    /// start). A command that ran is a success whatever its exit code: the
    /// code is data for the script. Only a shell that could not start is an
    /// error.
    pub fn outcome(spawned: Result<ProcessOutput, String>) -> (r: Result<ExecResult, String>)
        ensures
            match spawned {
                Ok(out) => r matches Ok(res) && res.exit_code == out.exit_code && res.stdout@
                    == lossy_text(out.stdout@) && res.stderr@ == lossy_text(out.stderr@) && (
                out.stdout@.len() == 0 ==> res.stdout@.len() == 0) && (out.stderr@.len() == 0
                    ==> res.stderr@.len() == 0),
                Err(e) => r == Err::<ExecResult, String>(e),
            },
    {
        match spawned {
            Ok(out) => Ok(
                ExecResult {
                    stdout: utf8_lossy(out.stdout.as_slice()),
                    stderr: utf8_lossy(out.stderr.as_slice()),
                    exit_code: out.exit_code,
                },
            ),
            Err(e) => Err(e),
        }
    }

    /// Whether the command may run, given the user's answer (ignored where
    /// no confirmation is needed). A refusal is the error `command denied by
    /// user`; nothing runs then.
    pub fn permission(context: &Context, approved: bool) -> (r: Result<(), String>)
        ensures
            r is Ok == (context.confirm_all >= 2 || approved),
            r matches Err(t) ==> t@ == "command denied by user"@,
    {
        if context.confirm_all >= 2 || approved {
            Ok(())
        } else {
            Err("command denied by user".to_owned())
        }
    }
}

/// What a `re.match` result is keyed by: the number of a group (0 for the
/// whole match; the script sees it one higher, as tables count from 1), or
/// its name.
pub enum MatchKey {
    Index(usize),
    Name(String),
}

pub enum KeyModel {
    Index(nat),
    Name(Seq<char>),
}

pub open spec fn key_model(k: MatchKey) -> KeyModel {
    match k {
        MatchKey::Index(i) => KeyModel::Index(i as nat),
        MatchKey::Name(n) => KeyModel::Name(n@),
    }
}

pub open spec fn entry_views(v: Seq<(MatchKey, String)>) -> Seq<(KeyModel, Seq<char>)> {
    v.map_values(|e: (MatchKey, String)| (key_model(e.0), e.1@))
}

/// One entry per group that took part in the match, keyed by its number, in
/// order.
pub open spec fn indexed_entries(groups: Seq<Option<Seq<char>>>) -> Seq<(KeyModel, Seq<char>)>
    decreases groups.len(),
{
    if groups.len() == 0 {
        Seq::empty()
    } else {
        let prev = indexed_entries(groups.drop_last());
        match groups.last() {
            Some(t) => prev.push((KeyModel::Index((groups.len() - 1) as nat), t)),
            None => prev,
        }
    }
}

/// One entry per named group that took part in the match, keyed by name.
pub open spec fn named_entries(groups: Seq<Option<Seq<char>>>, names: Seq<Option<Seq<char>>>) -> Seq<
    (KeyModel, Seq<char>),
>
    decreases names.len(),
{
    if names.len() == 0 {
        Seq::empty()
    } else {
        let prev = named_entries(groups, names.drop_last());
        let i = names.len() - 1;
        if i < groups.len() && names.last() is Some && groups[i] is Some {
            prev.push((KeyModel::Name(names.last()->0), groups[i]->0))
        } else {
            prev
        }
    }
}

/// The regex capability: `re.match` and `re.replace`.
pub struct LuaRe;

impl LuaRe {
    /// The entries of the table `re.match` returns for a match with these
    /// groups and group names: every group that matched by index, then by
    /// name.
    pub fn match_entries(groups: &Vec<Option<String>>, names: &Vec<Option<String>>) -> (r: Vec<
        (MatchKey, String),
    >)
        ensures
            entry_views(r@) == indexed_entries(optional_views(groups@)) + named_entries(
                optional_views(groups@),
                optional_views(names@),
            ),
    {
        let ghost g = optional_views(groups@);
        let mut r: Vec<(MatchKey, String)> = Vec::new();
        let mut i: usize = 0;
        while i < groups.len()
            invariant
                g == optional_views(groups@),
                i <= groups@.len(),
                entry_views(r@) == indexed_entries(g.take(i as int)),
            decreases groups@.len() - i,
        {
            let ghost before = r@;
            proof {
                assert(g.take(i as int + 1).drop_last() =~= g.take(i as int));
            }
            match &groups[i] {
                Some(t) => {
                    r.push((MatchKey::Index(i), t.clone()));
                    proof {
                        assert(entry_views(r@) =~= entry_views(before).push(
                            (KeyModel::Index(i as nat), t@),
                        ));
                    }
                },
                None => {},
            }
            i = i + 1;
        }
        proof {
            assert(g.take(groups@.len() as int) =~= g);
        }
        let ghost head = r@;
        let ghost nm = optional_views(names@);
        let mut j: usize = 0;
        while j < names.len()
            invariant
                g == optional_views(groups@),
                nm == optional_views(names@),
                j <= names@.len(),
                entry_views(head) == indexed_entries(g),
                entry_views(r@) == entry_views(head) + named_entries(g, nm.take(j as int)),
            decreases names@.len() - j,
        {
            let ghost before = r@;
            proof {
                assert(nm.take(j as int + 1).drop_last() =~= nm.take(j as int));
            }
            if j < groups.len() {
                match (&names[j], &groups[j]) {
                    (Some(n), Some(t)) => {
                        r.push((MatchKey::Name(n.clone()), t.clone()));
                        proof {
                            assert(entry_views(r@) =~= entry_views(before).push(
                                (KeyModel::Name(n@), t@),
                            ));
                        }
                    },
                    _ => {},
                }
            }
            j = j + 1;
        }
        proof {
            assert(nm.take(names@.len() as int) =~= nm);
        }
        r
    }

    /// `re.match(text, pattern)`: the entries of the match table, or `None`
    /// when the pattern does not match.
    pub fn find(text: &str, pattern: &str) -> (r: Result<Option<Vec<(MatchKey, String)>>, String>)
        ensures
            r is Ok == pattern_compiles(pattern@),
            r matches Err(t) ==> "Invalid regex: "@.is_prefix_of(t@),
            r matches Ok(m) ==> match capture_texts(text@, pattern@) {
                None => m is None,
                Some(g) => m matches Some(v) && entry_views(v@) == indexed_entries(g) + named_entries(
                    g,
                    capture_names_of(pattern@),
                ),
            },
    {
        match regex_captures(text, pattern) {
            Err(e) => Err(invalid_regex(e.as_str())),
            Ok((None, _)) => Ok(None),
            Ok((Some(groups), names)) => Ok(Some(Self::match_entries(&groups, &names))),
        }
    }

    /// `re.replace(content, pattern, replacement, {limit})`: the first
    /// `limit` matches replaced (all of them when `limit` is 0, the default).
    pub fn replace(content: &str, pattern: &str, replacement: &str, limit: usize) -> (r: Result<
        String,
        PatternError,
    >)
        ensures
            r is Ok == pattern_compiles(pattern@),
            r matches Ok(t) ==> t@ == replaced_text(content@, pattern@, limit as nat, replacement@),
            r matches Err(e) ==> e.pattern@ == pattern@,
    {
        match regex_replacen(content, pattern, limit, replacement) {
            Ok(t) => Ok(t),
            Err(detail) => Err(PatternError { pattern: pattern.to_owned(), detail }),
        }
    }
}

fn invalid_regex(detail: &str) -> (r: String)
    ensures
        r@ == "Invalid regex: "@ + detail@,
        "Invalid regex: "@.is_prefix_of(r@),
{
    let mut r = "Invalid regex: ".to_owned();
    r.append(detail);
    proof {
        assert(r@.subrange(0, "Invalid regex: "@.len() as int) =~= "Invalid regex: "@);
    }
    r
}

/// The templating capability: `tmpl.patch`, `tmpl.template` and
/// `tmpl.template_file`.
pub struct LuaTmpl;

impl LuaTmpl {
    /// `tmpl.patch(content, pattern, replacement, {all})`: the first match
    /// replaced, or every match where `all` is set.
    pub fn patch(content: &str, pattern: &str, replacement: &str, all: bool) -> (r: Result<
        String,
        PatternError,
    >)
        ensures
            r is Ok == pattern_compiles(pattern@),
            r matches Ok(t) ==> t@ == replaced_text(
                content@,
                pattern@,
                if all {
                    0
                } else {
                    1
                },
                replacement@,
            ),
            r matches Err(e) ==> e.pattern@ == pattern@,
    {
        let limit: usize = if all {
            0
        } else {
            1
        };
        LuaRe::replace(content, pattern, replacement, limit)
    }
}

#[verifier::external_type_specification]
#[verifier::external_body]
pub struct ExJsonValue(serde_json::Value);

/// Whether `text` is exactly one JSON document.
pub uninterp spec fn json_parses(text: Seq<char>) -> bool;

/// Relies on `serde_json::from_str::<serde_json::Value>`, which fails
/// exactly on text that is not one JSON document.
#[verifier::external_body]
fn parse_json(text: &str) -> (r: Result<serde_json::Value, String>)
    ensures
        r is Ok == json_parses(text@),
{
    serde_json::from_str::<serde_json::Value>(text).map_err(|e| e.to_string())
}

/// The JSON capability: `json.encode` and `json.decode`.
pub struct LuaJson;

impl LuaJson {
    /// `json.decode(text)`: the document, or `failed to decode json: ...`
    /// with the parser's explanation.
    pub fn decode(text: &str) -> (r: Result<serde_json::Value, String>)
        ensures
            r is Ok == json_parses(text@),
            r matches Err(t) ==> "failed to decode json: "@.is_prefix_of(t@),
    {
        match parse_json(text) {
            Ok(v) => Ok(v),
            Err(detail) => {
                let mut t = "failed to decode json: ".to_owned();
                t.append(detail.as_str());
                proof {
                    assert(t@.subrange(0, "failed to decode json: "@.len() as int)
                        =~= "failed to decode json: "@);
                }
                Err(t)
            },
        }
    }
}

/// The diagnostics capability: `log.warn` and `print`, which never fail.
pub struct LuaLog;

} // verus!
