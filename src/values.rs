//! The value resolver: what `values.get(id)` returns for a declared value,
//! from a supplied value or from an answer to a prompt, after coercion to the
//! declared type.

use vstd::prelude::*;

use crate::context::Context;
use crate::text::{contains_text, copy_strings, same_text, views_of};

verus! {

/// A value declared by a scaffold or patch: its type (`string`, `number`,
/// `bool`, `enum`, or anything else), a description, an optional default
/// offered when prompting, and the choices of an `enum`.
pub struct ValueMeta {
    pub value_type: String,
    pub description: String,
    pub default: Option<String>,
    pub choices: Option<Vec<String>>,
}

/// A value coerced to its declared type. `Nil` is what a value of an
/// unknown declared type resolves to.
pub enum TypedValue {
    Text(String),
    Number(i64),
    Bool(bool),
    Nil,
}

#[derive(Clone, Copy, Debug, PartialEq, Eq, Structural)]
pub enum ValueErrorKind {
    /// The script asked for a value that is not declared.
    Undefined,
    /// An `enum` value was declared without choices.
    NoChoices,
    /// An `enum` value is not one of the declared choices.
    InvalidChoice,
    /// A `number` value is not a base 10 integer that fits an `i64`.
    NotANumber,
    /// A `bool` value is neither `true` nor `false`.
    NotABool,
}

/// Why a value could not be resolved, for the value named `id`, whose
/// offending text (if any) is `value`.
pub struct ValueError {
    pub kind: ValueErrorKind,
    pub id: String,
    pub value: String,
}

/// What a coercion yields, over plain sequences.
pub enum Coercion {
    Text(Seq<char>),
    Number(int),
    Bool(bool),
    Nil,
    Fail(ValueErrorKind),
}

pub open spec fn is_digit(c: char) -> bool {
    '0' <= c && c <= '9'
}

pub open spec fn digit_value(c: char) -> nat {
    (c as u32 - '0' as u32) as nat
}

/// The number that a string of decimal digits denotes.
pub open spec fn digits_value(d: Seq<char>) -> nat
    decreases d.len(),
{
    if d.len() == 0 {
        0
    } else {
        digits_value(d.drop_last()) * 10 + digit_value(d.last())
    }
}

pub open spec fn all_digits(d: Seq<char>) -> bool {
    forall|i: int| 0 <= i < d.len() ==> is_digit(#[trigger] d[i])
}

/// Whether a number in text form is negative, and its digits after the
/// optional leading sign.
pub open spec fn sign_and_digits(s: Seq<char>) -> (bool, Seq<char>) {
    if s.len() > 0 && s[0] == '-' {
        (true, s.drop_first())
    } else if s.len() > 0 && s[0] == '+' {
        (false, s.drop_first())
    } else {
        (false, s)
    }
}

/// The integer that `s` denotes in base 10, if any: one or more digits
/// after an optional `+` or `-`, with a value that fits an `i64`.
pub open spec fn parsed_number(s: Seq<char>) -> Option<int> {
    let (negative, d) = sign_and_digits(s);
    let v: int = if negative {
        -(digits_value(d) as int)
    } else {
        digits_value(d) as int
    };
    if d.len() > 0 && all_digits(d) && i64::MIN <= v && v <= i64::MAX {
        Some(v)
    } else {
        None
    }
}

pub open spec fn parsed_bool(s: Seq<char>) -> Option<bool> {
    if s == "true"@ {
        Some(true)
    } else if s == "false"@ {
        Some(false)
    } else {
        None
    }
}

pub open spec fn choice_views(choices: Option<Vec<String>>) -> Option<Seq<Seq<char>>> {
    match choices {
        Some(v) => Some(views_of(v@)),
        None => None,
    }
}

/// What a value `v` of declared type `t` coerces to.
pub open spec fn coercion_of(t: Seq<char>, v: Seq<char>, choices: Option<Seq<Seq<char>>>) -> Coercion {
    if t == "string"@ {
        Coercion::Text(v)
    } else if t == "enum"@ {
        match choices {
            None => Coercion::Fail(ValueErrorKind::NoChoices),
            Some(cs) => if cs.contains(v) {
                Coercion::Text(v)
            } else {
                Coercion::Fail(ValueErrorKind::InvalidChoice)
            },
        }
    } else if t == "number"@ {
        match parsed_number(v) {
            Some(n) => Coercion::Number(n),
            None => Coercion::Fail(ValueErrorKind::NotANumber),
        }
    } else if t == "bool"@ {
        match parsed_bool(v) {
            Some(b) => Coercion::Bool(b),
            None => Coercion::Fail(ValueErrorKind::NotABool),
        }
    } else {
        Coercion::Nil
    }
}

/// The coercion that the exec outcome `r` stands for.
pub open spec fn outcome_of(r: Result<TypedValue, ValueError>) -> Coercion {
    match r {
        Ok(TypedValue::Text(s)) => Coercion::Text(s@),
        Ok(TypedValue::Number(n)) => Coercion::Number(n as int),
        Ok(TypedValue::Bool(b)) => Coercion::Bool(b),
        Ok(TypedValue::Nil) => Coercion::Nil,
        Err(e) => Coercion::Fail(e.kind),
    }
}

/// The coercion of `v` under the declaration `meta`.
pub open spec fn coercion_under(meta: ValueMeta, v: Seq<char>) -> Coercion {
    coercion_of(meta.value_type@, v, choice_views(meta.choices))
}

proof fn lemma_digits_prefix(d: Seq<char>, i: int)
    requires
        0 <= i <= d.len(),
    ensures
        digits_value(d.subrange(0, i)) <= digits_value(d),
    decreases d.len(),
{
    if i < d.len() {
        assert(d.drop_last().subrange(0, i) =~= d.subrange(0, i));
        lemma_digits_prefix(d.drop_last(), i);
        assert(digits_value(d.drop_last()) <= digits_value(d.drop_last()) * 10) by (nonlinear_arith);
    } else {
        assert(d.subrange(0, i) =~= d);
    }
}

/// Parses a base 10 integer with an optional sign, as
/// `str::parse::<i64>` does.
pub fn parse_number(s: &str) -> (r: Option<i64>)
    ensures
        match r {
            Some(n) => parsed_number(s@) == Some(n as int),
            None => parsed_number(s@) is None,
        },
{
    let n = s.unicode_len();
    let negative = n > 0 && s.get_char(0) == '-';
    let start: usize = if n > 0 && (s.get_char(0) == '+' || s.get_char(0) == '-') {
        1
    } else {
        0
    };
    let ghost d = sign_and_digits(s@).1;
    proof {
        assert(sign_and_digits(s@).0 == negative);
        if start == 1 {
            assert(d =~= s@.subrange(1, n as int));
        } else {
            assert(d =~= s@.subrange(0, n as int));
        }
    }
    if start >= n {
        return None;
    }
    let mut acc: u64 = 0;
    let mut i: usize = start;
    proof {
        assert(d.subrange(0, 0) =~= Seq::<char>::empty());
    }
    while i < n
        invariant
            n == s@.len(),
            start <= i <= n,
            d == s@.subrange(start as int, n as int),
            d == sign_and_digits(s@).1,
            negative == sign_and_digits(s@).0,
            acc as nat == digits_value(d.subrange(0, i - start)),
            all_digits(d.subrange(0, i - start)),
        decreases n - i,
    {
        let c = s.get_char(i);
        let ghost k = (i - start) as int;
        proof {
            assert(d[k] == c);
        }
        if c < '0' || c > '9' {
            proof {
                assert(!is_digit(d[k]));
                assert(!all_digits(d));
            }
            return None;
        }
        let digit = (c as u32 - '0' as u32) as u64;
        proof {
            let p = d.subrange(0, k + 1);
            assert(p.drop_last() =~= d.subrange(0, k));
            assert(p.last() == c);
            assert(digit as nat == digit_value(c));
            assert(digits_value(p) == acc * 10 + digit);
        }
        let scaled = acc.checked_mul(10);
        match scaled {
            None => {
                proof {
                    lemma_digits_prefix(d, k + 1);
                }
                return None;
            },
            Some(m) => {
                match m.checked_add(digit) {
                    None => {
                        proof {
                            lemma_digits_prefix(d, k + 1);
                        }
                        return None;
                    },
                    Some(next) => {
                        acc = next;
                    },
                }
            },
        }
        proof {
            assert forall|j: int| 0 <= j < k + 1 implies is_digit(#[trigger] d.subrange(0, k + 1)[j]) by {
                if j < k {
                    assert(d.subrange(0, k + 1)[j] == d.subrange(0, k)[j]);
                }
            }
        }
        i = i + 1;
    }
    proof {
        assert(d.subrange(0, n - start) =~= d);
    }
    if negative {
        if acc <= 9223372036854775807 {
            Some(-(acc as i64))
        } else if acc == 9223372036854775808 {
            Some(i64::MIN)
        } else {
            None
        }
    } else if acc <= 9223372036854775807 {
        Some(acc as i64)
    } else {
        None
    }
}

/// Parses `true` or `false`, as `str::parse::<bool>` does.
pub fn parse_bool(s: &str) -> (r: Option<bool>)
    ensures
        r == parsed_bool(s@),
{
    if same_text(s, "true") {
        Some(true)
    } else if same_text(s, "false") {
        Some(false)
    } else {
        None
    }
}

impl ValueError {
    pub fn new(kind: ValueErrorKind, id: &str, value: &str) -> (r: ValueError)
        ensures
            r.kind == kind,
            r.id@ == id@,
            r.value@ == value@,
    {
        ValueError { kind, id: id.to_owned(), value: value.to_owned() }
    }

    pub open spec fn message_spec(&self) -> Seq<char> {
        match self.kind {
            ValueErrorKind::Undefined => "No value named "@ + self.id@ + " defined"@,
            ValueErrorKind::NoChoices => "on value "@ + self.id@ + ": no choices on enum type value"@,
            ValueErrorKind::InvalidChoice => "on value "@ + self.id@ + ": Invalid choice for enum: "@
                + self.value@,
            ValueErrorKind::NotANumber => "on value "@ + self.id@
                + ": failed to parse value as a number"@,
            ValueErrorKind::NotABool => "on value "@ + self.id@ + ": failed to parse value as a bool"@,
        }
    }

    /// The error as a line of text.
    pub fn message(&self) -> (r: String)
        ensures
            r@ == self.message_spec(),
    {
        let mut r = String::new();
        match self.kind {
            ValueErrorKind::Undefined => {
                r.append("No value named ");
                r.append(self.id.as_str());
                r.append(" defined");
            },
            ValueErrorKind::NoChoices => {
                r.append("on value ");
                r.append(self.id.as_str());
                r.append(": no choices on enum type value");
            },
            ValueErrorKind::InvalidChoice => {
                r.append("on value ");
                r.append(self.id.as_str());
                r.append(": Invalid choice for enum: ");
                r.append(self.value.as_str());
            },
            ValueErrorKind::NotANumber => {
                r.append("on value ");
                r.append(self.id.as_str());
                r.append(": failed to parse value as a number");
            },
            ValueErrorKind::NotABool => {
                r.append("on value ");
                r.append(self.id.as_str());
                r.append(": failed to parse value as a bool");
            },
        }
        proof {
            assert(r@ =~= self.message_spec());
        }
        r
    }
}

/// Checks that `val` is one of the declared `choices` of the enum value `id`.
pub fn validate_enum_contains(choices: &Option<Vec<String>>, val: &str, id: &str) -> (r: Result<
    TypedValue,
    ValueError,
>)
    ensures
        outcome_of(r) == coercion_of("enum"@, val@, choice_views(*choices)),
        r matches Err(e) ==> e.id@ == id@ && e.value@ == val@,
{
    proof {
        reveal_strlit("enum");
        reveal_strlit("string");
        assert("enum"@ != "string"@) by {
            assert("enum"@.len() != "string"@.len());
        }
    }
    match choices {
        None => Err(ValueError::new(ValueErrorKind::NoChoices, id, val)),
        Some(cs) => {
            if contains_text(cs, val) {
                Ok(TypedValue::Text(val.to_owned()))
            } else {
                Err(ValueError::new(ValueErrorKind::InvalidChoice, id, val))
            }
        },
    }
}

/// Coerces `val` to the declared type `val_type` of the value `id`.
pub fn string_to_value_of_type(
    val_type: &str,
    val: &str,
    choices: &Option<Vec<String>>,
    id: &str,
) -> (r: Result<TypedValue, ValueError>)
    ensures
        outcome_of(r) == coercion_of(val_type@, val@, choice_views(*choices)),
        r matches Err(e) ==> e.id@ == id@ && e.value@ == val@,
{
    proof {
        reveal_strlit("enum");
        reveal_strlit("string");
        reveal_strlit("number");
        reveal_strlit("bool");
        assert("enum"@ != "string"@) by {
            assert("enum"@.len() != "string"@.len());
        }
        assert("number"@ != "string"@ && "number"@ != "enum"@) by {
            assert("number"@[0] != "string"@[0] && "number"@.len() != "enum"@.len());
        }
        assert("bool"@ != "string"@ && "bool"@ != "enum"@ && "bool"@ != "number"@) by {
            assert("bool"@[0] != "enum"@[0]);
            assert("bool"@.len() != "string"@.len() && "bool"@.len() != "number"@.len());
        }
    }
    if same_text(val_type, "string") {
        Ok(TypedValue::Text(val.to_owned()))
    } else if same_text(val_type, "enum") {
        validate_enum_contains(choices, val, id)
    } else if same_text(val_type, "number") {
        match parse_number(val) {
            Some(n) => Ok(TypedValue::Number(n)),
            None => Err(ValueError::new(ValueErrorKind::NotANumber, id, val)),
        }
    } else if same_text(val_type, "bool") {
        match parse_bool(val) {
            Some(b) => Ok(TypedValue::Bool(b)),
            None => Err(ValueError::new(ValueErrorKind::NotABool, id, val)),
        }
    } else {
        Ok(TypedValue::Nil)
    }
}

/// What a declared validator returned for a value.
pub enum ValidatorReply {
    /// `true`.
    Accept,
    /// `false`.
    Reject,
    /// A string: the reason the value is rejected.
    Message(String),
    /// Anything else.
    Other,
}

/// The verdict a validator's reply stands for: only `true` accepts.
pub fn validator_verdict(reply: ValidatorReply) -> (r: Result<(), String>)
    ensures
        match reply {
            ValidatorReply::Accept => r is Ok,
            ValidatorReply::Reject => r matches Err(t) && t@ == "validate function rejected value"@,
            ValidatorReply::Message(m) => r matches Err(t) && t@ == m@,
            ValidatorReply::Other => r matches Err(t) && t@ == "Invalid return value from validate fn"@,
        },
{
    match reply {
        ValidatorReply::Accept => Ok(()),
        ValidatorReply::Reject => Err("validate function rejected value".to_owned()),
        ValidatorReply::Message(m) => Err(m),
        ValidatorReply::Other => Err("Invalid return value from validate fn".to_owned()),
    }
}

/// The capability behind `values.get`.
pub struct LuaValues;

/// Where `values.get` takes a value from.
pub enum Step {
    /// The value is not declared: a fault of the scaffold.
    Undeclared,
    /// The supplied value `v` is used.
    Coerce(Seq<char>),
    /// Nothing usable is supplied: the caller is asked.
    Ask,
}

/// The order of precedence: a declaration is required; a supplied value
/// that the validator accepted is used; otherwise the caller is asked (with
/// the default, if any, offered). A supplied value that the validator
/// rejected counts as never supplied.
pub open spec fn resolution_step(meta: Option<ValueMeta>, stored: Option<Seq<char>>, accepted: bool) -> Step {
    match meta {
        None => Step::Undeclared,
        Some(_) => match stored {
            Some(v) => if accepted {
                Step::Coerce(v)
            } else {
                Step::Ask
            },
            None => Step::Ask,
        },
    }
}

/// What a prompt for the value `id` is told.
pub struct PromptRequest {
    pub id: String,
    pub value_type: String,
    pub description: String,
    pub choices: Option<Vec<String>>,
    pub default: Option<String>,
}

pub open spec fn optional_view(o: Option<String>) -> Option<Seq<char>> {
    match o {
        Some(s) => Some(s@),
        None => None,
    }
}

impl PromptRequest {
    /// This request asks for the value `id` declared by `meta`.
    pub open spec fn asks_for(&self, id: Seq<char>, meta: ValueMeta) -> bool {
        &&& self.id@ == id
        &&& self.value_type@ == meta.value_type@
        &&& self.description@ == meta.description@
        &&& choice_views(self.choices) == choice_views(meta.choices)
        &&& optional_view(self.default) == optional_view(meta.default)
    }
}

/// The outcome of one `values.get` request.
pub enum Resolution {
    Resolved(TypedValue),
    Failed(ValueError),
    Prompt(PromptRequest),
}

/// `r` is what `values.get(id)` yields under the declaration `meta`, the
/// supplied value `stored`, and the validator's verdict on it.
pub open spec fn resolves_as(
    r: Resolution,
    id: Seq<char>,
    meta: Option<ValueMeta>,
    stored: Option<Seq<char>>,
    accepted: bool,
) -> bool {
    match resolution_step(meta, stored, accepted) {
        Step::Undeclared => r matches Resolution::Failed(e) && e.kind == ValueErrorKind::Undefined
            && e.id@ == id,
        Step::Coerce(v) => match coercion_under(meta->0, v) {
            Coercion::Fail(k) => r matches Resolution::Failed(e) && e.kind == k && e.id@ == id
                && e.value@ == v,
            c => r matches Resolution::Resolved(t) && outcome_of(Ok(t)) == c,
        },
        Step::Ask => r matches Resolution::Prompt(p) && p.asks_for(id, meta->0),
    }
}

/// `r` is what an answer `answer` to a prompt for `id` yields.
pub open spec fn answer_yields(
    r: Result<TypedValue, ValueError>,
    id: Seq<char>,
    meta: Option<ValueMeta>,
    answer: Seq<char>,
) -> bool {
    match meta {
        None => r matches Err(e) && e.kind == ValueErrorKind::Undefined && e.id@ == id,
        Some(m) => outcome_of(r) == coercion_under(m, answer) && (r matches Err(e) ==> e.id@ == id
            && e.value@ == answer),
    }
}

fn copy_optional(o: &Option<String>) -> (r: Option<String>)
    ensures
        optional_view(r) == optional_view(*o),
{
    match o {
        Some(s) => Some(s.clone()),
        None => None,
    }
}

fn copy_choices(o: &Option<Vec<String>>) -> (r: Option<Vec<String>>)
    ensures
        choice_views(r) == choice_views(*o),
{
    match o {
        Some(v) => Some(copy_strings(v)),
        None => None,
    }
}

impl LuaValues {
    /// The value supplied for `id`, which the caller runs the declared
    /// validator (if any) on before calling `get`.
    pub fn supplied(context: &Context, id: &str) -> (r: Option<String>)
        ensures
            optional_view(r) == context.values.get_spec(id@),
    {
        context.values.get(id)
    }

    /// Resolves `values.get(id)`. `accepted` is the validator's verdict on
    /// the supplied value (true where none is declared).
    pub fn get(context: &Context, id: &str, accepted: bool) -> (r: Resolution)
        ensures
            resolves_as(r, id@, context.meta_spec(id@), context.values.get_spec(id@), accepted),
    {
        match context.meta_index(id) {
            None => Resolution::Failed(ValueError::new(ValueErrorKind::Undefined, id, "")),
            Some(i) => {
                let meta = &context.values_meta[i].1;
                let stored = context.values.get(id);
                match stored {
                    Some(v) => {
                        if accepted {
                            match string_to_value_of_type(
                                meta.value_type.as_str(),
                                v.as_str(),
                                &meta.choices,
                                id,
                            ) {
                                Ok(t) => Resolution::Resolved(t),
                                Err(e) => Resolution::Failed(e),
                            }
                        } else {
                            Resolution::Prompt(Self::prompt_for(id, meta))
                        }
                    },
                    None => Resolution::Prompt(Self::prompt_for(id, meta)),
                }
            },
        }
    }

    /// Coerces the answer to a prompt for `id`.
    pub fn answer(context: &Context, id: &str, answer: &str) -> (r: Result<TypedValue, ValueError>)
        ensures
            answer_yields(r, id@, context.meta_spec(id@), answer@),
    {
        match context.meta_index(id) {
            None => Err(ValueError::new(ValueErrorKind::Undefined, id, answer)),
            Some(i) => {
                let meta = &context.values_meta[i].1;
                string_to_value_of_type(meta.value_type.as_str(), answer, &meta.choices, id)
            },
        }
    }

    fn prompt_for(id: &str, meta: &ValueMeta) -> (r: PromptRequest)
        ensures
            r.asks_for(id@, *meta),
    {
        PromptRequest {
            id: id.to_owned(),
            value_type: meta.value_type.clone(),
            description: meta.description.clone(),
            choices: copy_choices(&meta.choices),
            default: copy_optional(&meta.default),
        }
    }
}

/// A value declared as `enum` only ever resolves to one of its choices,
/// whether it was supplied, defaulted, or answered: every source goes through
/// `coercion_under`, which yields either a member of the choices or a failure.
pub proof fn lemma_enum_stays_within_choices(meta: ValueMeta, v: Seq<char>)
    requires
        meta.value_type@ == "enum"@,
    ensures
        coercion_under(meta, v) is Fail || (coercion_under(meta, v) == Coercion::Text(v)
            && choice_views(meta.choices) is Some && choice_views(meta.choices)->0.contains(v)),
{
    reveal_strlit("enum");
    reveal_strlit("string");
    assert("enum"@ != "string"@) by {
        assert("enum"@.len() != "string"@.len());
    }
}

/// Asking twice for the same value, with nothing changed in between, gives
/// the same answer: the outcome of `values.get` is fixed by the declaration,
/// the supplied value and the validator's verdict.
pub proof fn lemma_get_is_repeatable(
    r1: Resolution,
    r2: Resolution,
    id: Seq<char>,
    meta: Option<ValueMeta>,
    stored: Option<Seq<char>>,
    accepted: bool,
)
    requires
        resolves_as(r1, id, meta, stored, accepted),
        resolves_as(r2, id, meta, stored, accepted),
    ensures
        r1 is Resolved <==> r2 is Resolved,
        r1 is Resolved ==> outcome_of(Ok(r1->Resolved_0)) == outcome_of(Ok(r2->Resolved_0)),
        r1 is Failed <==> r2 is Failed,
        r1 is Failed ==> r1->Failed_0.kind == r2->Failed_0.kind,
        r1 is Prompt <==> r2 is Prompt,
{
}

/// `values.get` on an `enum` value never yields anything outside its
/// choices, whether the value was supplied or came from a prompt (which
/// offers the default): what it resolves to is one of the choices.
pub proof fn lemma_enum_get_yields_choice(
    r: Resolution,
    id: Seq<char>,
    meta: ValueMeta,
    stored: Option<Seq<char>>,
    accepted: bool,
)
    requires
        meta.value_type@ == "enum"@,
        resolves_as(r, id, Some(meta), stored, accepted),
        r is Resolved,
    ensures
        r->Resolved_0 matches TypedValue::Text(s) && choice_views(meta.choices) is Some
            && choice_views(meta.choices)->0.contains(s@),
{
    let v = stored->0;
    lemma_enum_stays_within_choices(meta, v);
}

/// The same holds of an answer to a prompt for an `enum` value.
pub proof fn lemma_enum_answer_yields_choice(
    r: Result<TypedValue, ValueError>,
    id: Seq<char>,
    meta: ValueMeta,
    answer: Seq<char>,
)
    requires
        meta.value_type@ == "enum"@,
        answer_yields(r, id, Some(meta), answer),
        r is Ok,
    ensures
        r->Ok_0 matches TypedValue::Text(s) && choice_views(meta.choices) is Some
            && choice_views(meta.choices)->0.contains(s@),
{
    lemma_enum_stays_within_choices(meta, answer);
}

/// A supplied value that the validator accepts takes precedence over the
/// declared default: the result is the coercion of the supplied value, and
/// two declarations that differ only in their default resolve it alike.
pub proof fn lemma_supplied_beats_default(m1: ValueMeta, m2: ValueMeta, v: Seq<char>)
    requires
        m1.value_type@ == m2.value_type@,
        choice_views(m1.choices) == choice_views(m2.choices),
    ensures
        resolution_step(Some(m1), Some(v), true) == Step::Coerce(v),
        resolution_step(Some(m2), Some(v), true) == Step::Coerce(v),
        coercion_under(m1, v) == coercion_under(m2, v),
{
}

} // verus!
