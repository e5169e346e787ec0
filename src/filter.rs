use vstd::prelude::*;
use crate::level::{parsed_level, rank, Level};
use crate::payload::{heading, heading_exec, EventRecord, Field};

verus! {

/// How a rule treats a text that its pattern occurs in.
#[derive(Clone, Copy, Debug, PartialEq, Eq, Structural)]
pub enum Polarity {
    /// Rejects every text that the pattern does not occur in.
    Subtractive,
    /// Rejects every text that the pattern occurs in.
    Additive,
}

/// A pattern, matched as a substring, and what a match means.
#[derive(Clone, Debug)]
pub struct FilterRule {
    pub pattern: String,
    pub polarity: Polarity,
}

/// The rule groups an event passes through. An absent group never rejects.
#[derive(Clone, Debug)]
pub struct FilterChain {
    /// Applied to the event's target.
    pub target: Option<FilterRule>,
    /// Applied to the event's heading text.
    pub message: Option<FilterRule>,
    /// Applied to the key of each field of the event.
    pub field: Option<FilterRule>,
    /// Least severity accepted.
    pub level: Option<Level>,
    /// Fields whose key holds this text are left out of the formatted message.
    pub field_exclusion: Option<String>,
}

/// Whether `pat` occurs in `text` as a run of consecutive characters.
pub open spec fn contains(text: Seq<char>, pat: Seq<char>) -> bool {
    exists|i: int|
        0 <= i && i + pat.len() <= text.len() && #[trigger] text.subrange(i, i + pat.len()) == pat
}

/// Relies on str::contains: whether the pattern occurs in the text.
#[verifier::external_body]
pub(crate) fn has_substring(text: &str, pat: &str) -> (r: bool)
    ensures
        r == contains(text@, pat@),
{
    text.contains(pat)
}

pub open spec fn rule_rejects(rule: FilterRule, text: Seq<char>) -> bool {
    match rule.polarity {
        Polarity::Subtractive => !contains(text, rule.pattern@),
        Polarity::Additive => contains(text, rule.pattern@),
    }
}

pub open spec fn group_rejects(group: Option<FilterRule>, text: Seq<char>) -> bool {
    match group {
        Some(rule) => rule_rejects(rule, text),
        None => false,
    }
}

/// A field group rejects an event as soon as it rejects one field key.
pub open spec fn field_group_rejects(group: Option<FilterRule>, fields: Seq<Field>) -> bool {
    exists|i: int| 0 <= i < fields.len() && group_rejects(group, #[trigger] fields[i].key@)
}

pub open spec fn level_rejects(threshold: Option<Level>, level: Level) -> bool {
    match threshold {
        Some(t) => rank(level) < rank(t),
        None => false,
    }
}

/// Whether some rule group of the chain rejects the event.
pub open spec fn rejects(chain: FilterChain, ev: EventRecord) -> bool {
    ||| group_rejects(chain.target, ev.target@)
    ||| group_rejects(chain.message, heading(ev.fields@))
    ||| field_group_rejects(chain.field, ev.fields@)
    ||| level_rejects(chain.level, ev.level)
}

pub open spec fn no_groups(chain: FilterChain) -> bool {
    &&& chain.target.is_none()
    &&& chain.message.is_none()
    &&& chain.field.is_none()
    &&& chain.level.is_none()
}

impl FilterRule {
    fn rejects(&self, text: &str) -> (r: bool)
        ensures
            r == rule_rejects(*self, text@),
    {
        let found = has_substring(text, self.pattern.as_str());
        match self.polarity {
            Polarity::Subtractive => !found,
            Polarity::Additive => found,
        }
    }
}

fn group_rejects_exec(group: &Option<FilterRule>, text: &str) -> (r: bool)
    ensures
        r == group_rejects(*group, text@),
{
    match group {
        Some(rule) => rule.rejects(text),
        None => false,
    }
}

impl FilterChain {
    /// A chain without any rule group: it accepts every event.
    pub fn new() -> (r: Self)
        ensures
            no_groups(r),
            r.field_exclusion.is_none(),
    {
        FilterChain { target: None, message: None, field: None, level: None, field_exclusion: None }
    }

    /// The same chain with its level group set to the level named `name`
    /// (ASCII case ignored); `None` when `name` names no level.
    pub fn with_level(self, name: &str) -> (r: Option<FilterChain>)
        ensures
            parsed_level(name@).is_none() ==> r.is_none(),
            parsed_level(name@).is_some() ==> r == Some(FilterChain { level: parsed_level(name@), ..self }),
    {
        match Level::parse(name) {
            Some(l) => Some(FilterChain { level: Some(l), ..self }),
            None => None,
        }
    }

    /// Whether every rule group accepts the event. Groups are tried in the
    /// order target, message, field keys, level; the first rejection decides.
    pub fn accepts(&self, ev: &EventRecord) -> (r: bool)
        ensures
            r == !rejects(*self, *ev),
    {
        if group_rejects_exec(&self.target, ev.target.as_str()) {
            return false;
        }
        let head = heading_exec(&ev.fields);
        if group_rejects_exec(&self.message, head.as_str()) {
            return false;
        }
        let mut i: usize = 0;
        while i < ev.fields.len()
            invariant
                0 <= i <= ev.fields@.len(),
                forall|j: int| 0 <= j < i ==> !group_rejects(self.field, #[trigger] ev.fields@[j].key@),
            decreases ev.fields@.len() - i,
        {
            if group_rejects_exec(&self.field, ev.fields[i].key.as_str()) {
                return false;
            }
            i = i + 1;
        }
        match self.level {
            Some(t) => ev.level.is_at_least(t),
            None => true,
        }
    }
}

/// A chain whose groups are all absent accepts every event.
pub proof fn lemma_absent_groups_accept(chain: FilterChain, ev: EventRecord)
    requires
        no_groups(chain),
    ensures
        !rejects(chain, ev),
{
}

/// An event is refused exactly when one of the configured groups refuses it;
/// a group that is absent refuses nothing.
pub proof fn lemma_rejection_by_group(chain: FilterChain, ev: EventRecord)
    ensures
        rejects(chain, ev) <==> (chain.target.is_some() && group_rejects(chain.target, ev.target@))
            || (chain.message.is_some() && group_rejects(chain.message, heading(ev.fields@)))
            || (chain.field.is_some() && field_group_rejects(chain.field, ev.fields@))
            || (chain.level.is_some() && level_rejects(chain.level, ev.level)),
{
}

} // verus!
