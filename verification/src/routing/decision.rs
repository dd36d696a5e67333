//! The outcome of matching a packet against the rules.
use super::action::RoutingAction;
use crate::text::{decimal, usize_to_text};
use std::time::Instant;
use vstd::prelude::*;

verus! {

#[verifier::external_type_specification]
#[verifier::external_body]
pub struct ExInstant(Instant);

/// Trusted: `<Instant as Clone>::clone`. `Instant` is `Copy`, and std
/// documents that `Clone` on a `Copy` type duplicates the value.
pub assume_specification[ <Instant as Clone>::clone ](i: &Instant) -> (r: Instant)
    ensures
        r == *i,
;

/// Trusted: std's `Instant::now`. Nothing is promised of the reading.
#[verifier::external_body]
fn instant_now() -> Instant {
    Instant::now()
}

/// The action chosen for a packet and the rule that chose it.
#[derive(Debug, Clone)]
pub struct RoutingDecision {
    pub action: RoutingAction,
    /// The matching rule's id; `None` for the default action.
    pub rule_id: Option<u32>,
    /// The matching rule's name; `None` for the default action.
    pub rule_name: Option<String>,
    /// When the decision was made.
    pub timestamp: Instant,
    /// Whether no rule matched.
    pub is_default: bool,
}

/// The text of a decision: "default -> ACTION", or
/// "rule 'NAME' (id=ID) -> ACTION", with "unknown" and 0 for a missing name or id.
pub open spec fn spec_decision_text(d: RoutingDecision) -> Seq<char> {
    if d.is_default {
        "default -> "@ + d.action.spec_name()
    } else {
        "rule '"@ + (match d.rule_name {
            Some(n) => n@,
            None => "unknown"@,
        }) + "' (id="@ + decimal((match d.rule_id {
            Some(i) => i,
            None => 0,
        }) as nat) + ") -> "@ + d.action.spec_name()
    }
}

impl RoutingDecision {
    /// The decision to take the default action.
    pub fn default_action(action: RoutingAction) -> (r: Self)
        ensures
            r.action == action,
            r.rule_id is None,
            r.rule_name is None,
            r.is_default,
    {
        RoutingDecision { action, rule_id: None, rule_name: None, timestamp: instant_now(), is_default: true }
    }

    /// The decision made by a rule.
    pub fn from_rule(rule_id: u32, rule_name: String, action: RoutingAction) -> (r: Self)
        ensures
            r.action == action,
            r.rule_id == Some(rule_id),
            r.rule_name == Some(rule_name),
            !r.is_default,
    {
        RoutingDecision {
            action,
            rule_id: Some(rule_id),
            rule_name: Some(rule_name),
            timestamp: instant_now(),
            is_default: false,
        }
    }

    pub fn is_drop(&self) -> (r: bool)
        ensures
            r == (self.action == RoutingAction::Drop),
    {
        self.action == RoutingAction::Drop
    }

    pub fn rule_id(&self) -> (r: Option<u32>)
        ensures
            r == self.rule_id,
    {
        self.rule_id
    }

    /// The decision as text.
    pub fn to_string(&self) -> (s: String)
        ensures
            s@ == spec_decision_text(*self),
    {
        let action = self.action.to_string();
        if self.is_default {
            let mut s = "default -> ".to_string();
            s.append(action.as_str());
            s
        } else {
            let mut s = "rule '".to_string();
            match &self.rule_name {
                Some(n) => s.append(n.as_str()),
                None => s.append("unknown"),
            }
            s.append("' (id=");
            let id: u32 = match self.rule_id {
                Some(i) => i,
                None => 0,
            };
            let id_text = usize_to_text(id as usize);
            s.append(id_text.as_str());
            s.append(") -> ");
            s.append(action.as_str());
            s
        }
    }
}

} // verus!
