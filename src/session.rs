//! The interactive session: the bookkeeping that lets a remote caller supply
//! values to a script that is paused waiting for one, and the replies each
//! protocol call gets.
//!
//! The script runs on a worker of its own. Whenever it needs a value that is
//! not at hand, the worker reports a `Status::MissingValue` and waits; the
//! server keeps a `SessionSlot` that records the paused run until the caller
//! supplies values, the run ends, or the caller cancels it.

use vstd::prelude::*;

use crate::store::ValueStore;
use crate::text::{copy_strings, split_at_first, split_once_char, views_of};
use crate::values::{choice_views, optional_view, PromptRequest};

verus! {

/// A value that a paused run is waiting for, with the validator's complaint
/// about the last value supplied for it, if there was one.
pub struct MissingValueError {
    pub name: String,
    pub value_type: String,
    pub description: String,
    pub choices: Option<Vec<String>>,
    pub error: Option<String>,
}

/// What a worker reports while its run is paused.
pub enum Status {
    MissingValue(MissingValueError),
}

/// How a worker's run ended.
pub enum Outcome {
    /// The run succeeded with this message.
    Completed(String),
    /// The script failed with this error.
    Errored(String),
    /// The worker itself died.
    Crashed(String),
}

/// The next thing the server learns of a running worker.
pub enum WorkerEvent {
    Status(Status),
    Finished(Outcome),
}

pub open spec fn missing_text(name: Seq<char>, error: Option<Seq<char>>) -> Seq<char> {
    match error {
        Some(e) => "Missing value: "@ + name + " (Error: "@ + e + ")"@,
        None => "Missing value: "@ + name,
    }
}

/// `choices` joined with `, `.
pub open spec fn list_text(items: Seq<Seq<char>>) -> Seq<char>
    decreases items.len(),
{
    if items.len() == 0 {
        Seq::empty()
    } else if items.len() == 1 {
        items[0]
    } else {
        list_text(items.drop_last()) + ", "@ + items.last()
    }
}

pub open spec fn choices_text(choices: Option<Seq<Seq<char>>>) -> Seq<char> {
    match choices {
        Some(cs) => ". Choices: "@ + list_text(cs),
        None => Seq::empty(),
    }
}

impl MissingValueError {
    pub open spec fn message_spec(&self) -> Seq<char> {
        missing_text(self.name@, optional_view(self.error))
    }

    /// The one-line form: `Missing value: <name>`, with the validator's
    /// complaint appended when there is one.
    pub fn message(&self) -> (r: String)
        ensures
            r@ == self.message_spec(),
    {
        let mut r = String::new();
        r.append("Missing value: ");
        r.append(self.name.as_str());
        match &self.error {
            Some(e) => {
                r.append(" (Error: ");
                r.append(e.as_str());
                r.append(")");
            },
            None => {},
        }
        proof {
            assert(r@ =~= self.message_spec());
        }
        r
    }

    pub open spec fn first_reply_spec(&self) -> Seq<char> {
        "Missing value: "@ + self.name@ + ". Description: "@ + self.description@ + ". Type: "@
            + self.value_type@ + ". Please use `provide_values` to supply it."@
    }

    /// The reply to a construct or patch call whose run stopped for this
    /// value: its name, description and type.
    pub fn first_reply(&self) -> (r: String)
        ensures
            r@ == self.first_reply_spec(),
    {
        let mut r = "Missing value: ".to_owned();
        r.append(self.name.as_str());
        r.append(". Description: ");
        r.append(self.description.as_str());
        r.append(". Type: ");
        r.append(self.value_type.as_str());
        r.append(". Please use `provide_values` to supply it.");
        r
    }

    pub open spec fn reply_spec(&self) -> Seq<char> {
        self.message_spec() + ". Description: "@ + self.description@ + ". Type: "@
            + self.value_type@ + choices_text(choice_views(self.choices))
            + ". Please use `provide_values` to supply it."@
    }

    /// The reply to a `provide_values` call after which the run stopped for
    /// this value: with the validator's complaint and the choices, if any.
    pub fn reply(&self) -> (r: String)
        ensures
            r@ == self.reply_spec(),
    {
        let mut r = self.message();
        r.append(". Description: ");
        r.append(self.description.as_str());
        r.append(". Type: ");
        r.append(self.value_type.as_str());
        match &self.choices {
            Some(cs) => {
                r.append(". Choices: ");
                let listed = join_list(cs);
                r.append(listed.as_str());
            },
            None => {},
        }
        r.append(". Please use `provide_values` to supply it.");
        proof {
            assert(r@ =~= self.reply_spec());
        }
        r
    }
}

fn join_list(items: &Vec<String>) -> (r: String)
    ensures
        r@ == list_text(views_of(items@)),
{
    let mut r = String::new();
    let mut i: usize = 0;
    while i < items.len()
        invariant
            i <= items@.len(),
            r@ == list_text(views_of(items@).take(i as int)),
        decreases items@.len() - i,
    {
        proof {
            assert(views_of(items@).take(i as int + 1).drop_last() =~= views_of(items@).take(
                i as int,
            ));
        }
        if i > 0 {
            r.append(", ");
        }
        r.append(items[i].as_str());
        proof {
            if i == 0 {
                assert(views_of(items@).take(1) =~= seq![items@[0]@]);
            }
        }
        i = i + 1;
    }
    proof {
        assert(views_of(items@).take(items@.len() as int) =~= views_of(items@));
    }
    r
}

/// What the worker does next about a value it needs.
pub enum PromptAction {
    /// Hand this answer to the script.
    Answer(String),
    /// Report the missing value and wait for more values.
    Request(Status),
}

/// What a worker does with the value `stored` found for the name it needs,
/// given the validator's verdict on it: an accepted value is the answer;
/// anything else leads to a request, with the complaint attached.
pub enum Settled {
    Answer(Seq<char>),
    Request(Option<Seq<char>>),
}

pub open spec fn settled(stored: Option<Seq<char>>, verdict: Result<(), String>) -> Settled {
    match stored {
        None => Settled::Request(None),
        Some(v) => match verdict {
            Ok(()) => Settled::Answer(v),
            Err(e) => Settled::Request(Some(e@)),
        },
    }
}

/// The value left stored for the name after settling: a rejected value is
/// dropped.
pub open spec fn stored_after(stored: Option<Seq<char>>, verdict: Result<(), String>) -> Option<
    Seq<char>,
> {
    match stored {
        Some(v) => match verdict {
            Ok(()) => Some(v),
            Err(_) => None,
        },
        None => None,
    }
}

/// The worker's side of a session: the values supplied so far, which every
/// request for a value consults first.
pub struct ValueExchange {
    pub values: ValueStore,
}

impl ValueExchange {
    pub fn new(values: ValueStore) -> (r: ValueExchange)
        ensures
            r.values == values,
    {
        ValueExchange { values }
    }

    /// The value supplied for `name`, which the caller validates before
    /// calling `settle`.
    pub fn candidate(&self, name: &str) -> (r: Option<String>)
        ensures
            optional_view(r) == self.values.get_spec(name@),
    {
        self.values.get(name)
    }

    /// Decides what to do about `request` given the validator's verdict on
    /// the candidate value (ignored where there is none). A rejected value is
    /// dropped so that the caller is asked again for the same name, told why.
    pub fn settle(&mut self, request: &PromptRequest, verdict: Result<(), String>) -> (r:
        PromptAction)
        ensures
            final(self).values.get_spec(request.id@) == stored_after(
                old(self).values.get_spec(request.id@),
                verdict,
            ),
            forall|k: Seq<char>|
                k != request.id@ ==> final(self).values.get_spec(k) == old(self).values.get_spec(k),
            match settled(old(self).values.get_spec(request.id@), verdict) {
                Settled::Answer(v) => r matches PromptAction::Answer(a) && a@ == v,
                Settled::Request(err) => r matches PromptAction::Request(Status::MissingValue(m))
                    && m.name@ == request.id@ && m.value_type@ == request.value_type@
                    && m.description@ == request.description@ && choice_views(m.choices)
                    == choice_views(request.choices) && optional_view(m.error) == err,
            },
    {
        let found = self.values.get(request.id.as_str());
        match found {
            Some(v) => match verdict {
                Ok(()) => PromptAction::Answer(v),
                Err(e) => {
                    self.values.remove(request.id.as_str());
                    PromptAction::Request(Status::MissingValue(missing_for(request, Some(e))))
                },
            },
            None => PromptAction::Request(Status::MissingValue(missing_for(request, None))),
        }
    }

    /// Resumes after a request: with the values the caller supplied (which
    /// join those already known, newer ones winning), or with nothing when
    /// the session was cancelled and the channel closed, which ends the run
    /// with the error `Session cancelled`.
    pub fn resume(&mut self, received: Option<&ValueStore>) -> (r: Result<(), String>)
        ensures
            match received {
                Some(supplied) => r is Ok && forall|k: Seq<char>|
                    final(self).values.get_spec(k) == match supplied.get_spec(k) {
                        Some(v) => Some(v),
                        None => old(self).values.get_spec(k),
                    },
                None => (r matches Err(t) && t@ == "Session cancelled"@) && *final(self) == *old(
                    self,
                ),
            },
    {
        match received {
            Some(supplied) => {
                self.values.merge(supplied);
                Ok(())
            },
            None => Err("Session cancelled".to_owned()),
        }
    }
}

fn missing_for(request: &PromptRequest, error: Option<String>) -> (r: MissingValueError)
    ensures
        r.name@ == request.id@,
        r.value_type@ == request.value_type@,
        r.description@ == request.description@,
        choice_views(r.choices) == choice_views(request.choices),
        r.error == error,
{
    let choices = match &request.choices {
        Some(cs) => Some(copy_strings(cs)),
        None => None,
    };
    MissingValueError {
        name: request.id.clone(),
        value_type: request.value_type.clone(),
        description: request.description.clone(),
        choices,
        error,
    }
}

/// A session paused on a missing value: every value supplied so far, and
/// the value it waits for.
pub struct Session {
    pub values: ValueStore,
    pub missing_values: Vec<String>,
}

/// The server's one session slot: at most one run is paused at any time.
pub struct SessionSlot {
    pub active: Option<Session>,
}

pub open spec fn busy_text() -> Seq<char> {
    "A session is already active. Please complete or cancel it first."@
}

pub open spec fn idle_text() -> Seq<char> {
    "No active session."@
}

pub open spec fn cancelled_text() -> Seq<char> {
    "Session cancelled."@
}

pub open spec fn vanished_text() -> Seq<char> {
    "Session was cancelled while processing."@
}

/// The reply to a construct or patch call whose run ended before it needed
/// any value.
pub open spec fn start_finish_text(o: Outcome) -> Seq<char> {
    match o {
        Outcome::Completed(m) => m@,
        Outcome::Errored(e) => "Operation errored: "@ + e@,
        Outcome::Crashed(e) => "Operation failed: "@ + e@,
    }
}

/// The reply to a `provide_values` call after which the run ended.
pub open spec fn resume_finish_text(o: Outcome) -> Seq<char> {
    match o {
        Outcome::Completed(m) => m@,
        Outcome::Errored(e) => "Construction errored: "@ + e@,
        Outcome::Crashed(e) => "Construction failed: "@ + e@,
    }
}

fn prefixed(prefix: &str, text: &str) -> (r: String)
    ensures
        r@ == prefix@ + text@,
{
    let mut r = prefix.to_owned();
    r.append(text);
    r
}

fn start_finish_reply(o: &Outcome) -> (r: String)
    ensures
        r@ == start_finish_text(*o),
{
    match o {
        Outcome::Completed(m) => m.clone(),
        Outcome::Errored(e) => prefixed("Operation errored: ", e.as_str()),
        Outcome::Crashed(e) => prefixed("Operation failed: ", e.as_str()),
    }
}

fn resume_finish_reply(o: &Outcome) -> (r: String)
    ensures
        r@ == resume_finish_text(*o),
{
    match o {
        Outcome::Completed(m) => m.clone(),
        Outcome::Errored(e) => prefixed("Construction errored: ", e.as_str()),
        Outcome::Crashed(e) => prefixed("Construction failed: ", e.as_str()),
    }
}

impl SessionSlot {
    pub open spec fn is_active(&self) -> bool {
        self.active is Some
    }

    /// The names the paused run waits for.
    pub open spec fn missing_spec(&self) -> Seq<Seq<char>> {
        views_of(self.active->0.missing_values@)
    }

    /// The value supplied so far for `k` in the paused run.
    pub open spec fn value_spec(&self, k: Seq<char>) -> Option<Seq<char>> {
        self.active->0.values.get_spec(k)
    }

    pub fn new() -> (r: SessionSlot)
        ensures
            !r.is_active(),
    {
        SessionSlot { active: None }
    }

    pub fn is_busy(&self) -> (r: bool)
        ensures
            r == self.is_active(),
    {
        self.active.is_some()
    }

    /// Checks whether a construct or patch call may start a run. While a run is paused the call is
    /// turned away with a reply, and the slot is left as it is.
    pub fn refusal(&self) -> (r: Option<String>)
        ensures
            r is Some <==> self.is_active(),
            r matches Some(t) ==> t@ == busy_text(),
    {
        if self.active.is_some() {
            Some("A session is already active. Please complete or cancel it first.".to_owned())
        } else {
            None
        }
    }

    /// Records the first event of a newly started run that was given the
    /// values `supplied`: a missing value pauses the run in this slot; an
    /// ended run leaves the slot empty.
    pub fn open_with(&mut self, supplied: ValueStore, event: WorkerEvent) -> (r: String)
        requires
            !old(self).is_active(),
        ensures
            match event {
                WorkerEvent::Status(Status::MissingValue(m)) => final(self).is_active()
                    && final(self).missing_spec() == seq![m.name@] && (forall|k: Seq<char>|
                    final(self).value_spec(k) == supplied.get_spec(k)) && r@ == m.first_reply_spec(),
                WorkerEvent::Finished(o) => !final(self).is_active() && r@ == start_finish_text(o),
            },
    {
        match event {
            WorkerEvent::Status(Status::MissingValue(m)) => {
                let reply = m.first_reply();
                let mut missing: Vec<String> = Vec::new();
                missing.push(m.name);
                proof {
                    assert(views_of(missing@) =~= seq![m.name@]);
                }
                self.active = Some(Session { values: supplied, missing_values: missing });
                reply
            },
            WorkerEvent::Finished(o) => start_finish_reply(&o),
        }
    }

    /// Takes values supplied by the caller. Without a paused run the reply
    /// says so; otherwise the values join those of the run (and the caller
    /// hands them on to the worker) and `None` comes back.
    pub fn provide(&mut self, values: &ValueStore) -> (r: Option<String>)
        ensures
            !old(self).is_active() ==> (r matches Some(t) && t@ == idle_text()) && *final(self)
                == *old(self),
            old(self).is_active() ==> r is None && final(self).is_active()
                && final(self).missing_spec() == old(self).missing_spec() && forall|k: Seq<char>|
                final(self).value_spec(k) == match values.get_spec(k) {
                    Some(v) => Some(v),
                    None => old(self).value_spec(k),
                },
    {
        match &mut self.active {
            None => Some("No active session.".to_owned()),
            Some(state) => {
                state.values.merge(values);
                None
            },
        }
    }

    /// Records the event that followed a `provide`.
    pub fn after_provide(&mut self, event: WorkerEvent) -> (r: String)
        ensures
            match event {
                WorkerEvent::Status(Status::MissingValue(m)) => if old(self).is_active() {
                    final(self).is_active() && final(self).missing_spec() == seq![m.name@]
                        && (forall|k: Seq<char>|
                        final(self).value_spec(k) == old(self).value_spec(k)) && r@
                        == m.reply_spec()
                } else {
                    !final(self).is_active() && r@ == vanished_text()
                },
                WorkerEvent::Finished(o) => !final(self).is_active() && r@ == resume_finish_text(
                    o,
                ),
            },
    {
        match event {
            WorkerEvent::Status(Status::MissingValue(m)) => match &mut self.active {
                None => "Session was cancelled while processing.".to_owned(),
                Some(state) => {
                    let reply = m.reply();
                    let mut missing: Vec<String> = Vec::new();
                    missing.push(m.name);
                    proof {
                        assert(views_of(missing@) =~= seq![m.name@]);
                    }
                    state.missing_values = missing;
                    reply
                },
            },
            WorkerEvent::Finished(o) => {
                self.active = None;
                resume_finish_reply(&o)
            },
        }
    }

    /// Ends the paused run, if any. The caller drops the worker's inbound
    /// channel and waits for the worker before replying.
    pub fn cancel(&mut self) -> (r: String)
        ensures
            !final(self).is_active(),
            r@ == if old(self).is_active() {
                cancelled_text()
            } else {
                idle_text()
            },
    {
        match self.active.take() {
            Some(_) => "Session cancelled.".to_owned(),
            None => "No active session.".to_owned(),
        }
    }
}

/// The reply to a construct call whose run succeeded.
pub fn construct_success(scaffold: &str) -> (r: String)
    ensures
        r@ == "Scaffold '"@ + scaffold@ + "' constructed successfully."@,
{
    let mut r = prefixed("Scaffold '", scaffold);
    r.append("' constructed successfully.");
    r
}

/// The reply to a patch call whose run succeeded.
pub fn patch_success(scaffold: &str, patch: &str) -> (r: String)
    ensures
        r@ == "Patch '"@ + scaffold@ + ":"@ + patch@ + "' executed successfully."@,
{
    let mut r = prefixed("Patch '", scaffold);
    r.append(":");
    r.append(patch);
    r.append("' executed successfully.");
    r
}

/// The reply to a construct or patch call naming an unknown scaffold.
pub fn scaffold_not_found(scaffold: &str) -> (r: String)
    ensures
        r@ == "Scaffold '"@ + scaffold@ + "' not found."@,
{
    let mut r = prefixed("Scaffold '", scaffold);
    r.append("' not found.");
    r
}

/// The error of a patch call naming a patch the scaffold lacks.
pub fn patch_not_found(patch: &str, scaffold: &str) -> (r: String)
    ensures
        r@ == "Patch '"@ + patch@ + "' not found in scaffold '"@ + scaffold@ + "'."@,
{
    let mut r = prefixed("Patch '", patch);
    r.append("' not found in scaffold '");
    r.append(scaffold);
    r.append("'.");
    r
}

/// The reply to a `show` call naming no known scaffold or patch.
pub fn nothing_to_show() -> (r: String)
    ensures
        r@ == "No such scaffold or patch found"@,
{
    "No such scaffold or patch found".to_owned()
}

/// Splits `<scaffold>:<patch>` at its first `:`; a name without one is
/// refused with the reply that explains the format.
pub fn split_patch_name(name: &str) -> (r: Result<(String, String), String>)
    ensures
        match split_at_first(name@, ':') {
            Some((s, p)) => r matches Ok((a, b)) && a@ == s && b@ == p,
            None => r matches Err(t) && t@ == "Invalid patch name format. Use '<scaffold>:<patch>'."@,
        },
{
    match split_once_char(name, ':') {
        Some((a, b)) => Ok((a, b)),
        None => Err("Invalid patch name format. Use '<scaffold>:<patch>'.".to_owned()),
    }
}

/// Asking twice for a value that was supplied and accepted gives the same
/// answer both times: settling an accepted value leaves it stored.
pub proof fn lemma_accepted_value_is_stable(stored: Option<Seq<char>>)
    ensures
        stored_after(stored, Ok(())) == stored,
        settled(stored_after(stored, Ok(())), Ok(())) == settled(stored, Ok(())),
{
}

} // verus!
