//! The routing engine: rules in priority order and the first-match decision.
use super::action::RoutingAction;
use super::config::{spec_assigned, spec_rule_error, ConfigError, RuleConfig};
use super::context::PacketContext;
use super::decision::RoutingDecision;
use super::matcher::{spec_rule_matches, Matcher};
use super::rule::RoutingRule;
use vstd::prelude::*;

verus! {

/// `a` is tried before `b`: higher priority first, then lower id.
pub open spec fn rule_before(a: RoutingRule, b: RoutingRule) -> bool {
    a.priority > b.priority || (a.priority == b.priority && a.id < b.id)
}

/// Neither rule is tried before the other.
pub open spec fn same_rank(a: RoutingRule, b: RoutingRule) -> bool {
    a.priority == b.priority && a.id == b.id
}

/// No rule comes after one that should be tried after it.
pub open spec fn sorted_rules(s: Seq<RoutingRule>) -> bool {
    forall|i: int, j: int| 0 <= i < j < s.len() ==> !rule_before(#[trigger] s[j], #[trigger] s[i])
}

/// `p` maps each position of `r` to the position in `a` that the rule came
/// from: `r` is `a` rearranged, in rank order, with rules of the same rank
/// kept in their order in `a`.
pub open spec fn is_stable_sorting(p: Seq<int>, r: Seq<RoutingRule>, a: Seq<RoutingRule>) -> bool {
    &&& p.len() == r.len()
    &&& r.len() == a.len()
    &&& forall|k: int| 0 <= k < r.len() ==> 0 <= #[trigger] p[k] < a.len() && r[k] == a[p[k]]
    &&& forall|k1: int, k2: int| 0 <= k1 < k2 < r.len() ==> #[trigger] p[k1] != #[trigger] p[k2]
    &&& sorted_rules(r)
    &&& forall|k1: int, k2: int|
        0 <= k1 < k2 < r.len() && same_rank(#[trigger] r[k1], #[trigger] r[k2]) ==> p[k1] < p[k2]
}

/// `r` is a stable sort of `a` by rank.
pub open spec fn is_stable_sort_of(r: Seq<RoutingRule>, a: Seq<RoutingRule>) -> bool {
    exists|p: Seq<int>| is_stable_sorting(p, r, a)
}

/// The rules of a configuration with their ids assigned.
pub open spec fn assigned_rules(rules: Seq<RoutingRule>) -> Seq<RoutingRule> {
    Seq::new(rules.len(), |i: int| spec_assigned(rules[i], i))
}

/// Rule `i` is the first of `rules` that applies to the packet.
pub open spec fn first_match(rules: Seq<RoutingRule>, packet: PacketContext, i: int) -> bool {
    &&& 0 <= i < rules.len()
    &&& spec_rule_matches(rules[i], packet)
    &&& forall|j: int| 0 <= j < i ==> !spec_rule_matches(#[trigger] rules[j], packet)
}

fn before(a: &RoutingRule, b: &RoutingRule) -> (r: bool)
    ensures
        r == rule_before(*a, *b),
{
    a.priority > b.priority || (a.priority == b.priority && a.id < b.id)
}

/// Sorts rules by rank (priority descending, then id ascending), keeping
/// rules of the same rank in their given order.
fn sort_rules(rules: Vec<RoutingRule>) -> (r: Vec<RoutingRule>)
    ensures
        is_stable_sort_of(r@, rules@),
{
    let ghost a = rules@;
    let n = rules.len();
    let mut rest = rules;
    let mut out: Vec<RoutingRule> = Vec::new();
    let ghost mut p: Seq<int> = Seq::empty();
    while rest.len() > 0
        invariant
            n == a.len(),
            rest@ == a.take(rest@.len() as int),
            rest@.len() <= n,
            out@.len() + rest@.len() == n,
            p.len() == out@.len(),
            forall|k: int| 0 <= k < out@.len() ==> rest@.len() <= #[trigger] p[k] < n && out@[k] == a[p[k]],
            forall|k1: int, k2: int| 0 <= k1 < k2 < out@.len() ==> #[trigger] p[k1] != #[trigger] p[k2],
            sorted_rules(out@),
            forall|k1: int, k2: int|
                0 <= k1 < k2 < out@.len() && same_rank(#[trigger] out@[k1], #[trigger] out@[k2]) ==> p[k1] < p[k2],
        decreases rest@.len(),
    {
        let ghost t = rest@.len() - 1;
        let x = rest.pop().unwrap();
        assert(x == a[t]);
        assert(rest@ =~= a.take(t));
        let mut pos: usize = 0;
        while pos < out.len() && before(&out[pos], &x)
            invariant
                pos <= out@.len(),
                forall|q: int| 0 <= q < pos ==> rule_before(#[trigger] out@[q], x),
            decreases out@.len() - pos,
        {
            pos = pos + 1;
        }
        let ghost old_out = out@;
        let ghost old_p = p;
        proof {
            // every rule from `pos` on ranks no earlier than `x`
            assert forall|q: int| pos <= q < old_out.len() implies !rule_before(#[trigger] old_out[q], x) by {
                assert(!rule_before(old_out[pos as int], x));
                assert(!rule_before(old_out[q], old_out[pos as int]) || q == pos);
            }
        }
        out.insert(pos, x);
        proof {
            p = old_p.insert(pos as int, t);
            assert(out@ == old_out.insert(pos as int, x));
            assert forall|k: int| 0 <= k < out@.len() implies rest@.len() <= #[trigger] p[k] < n && out@[k] == a[p[k]] by {
                if k < pos {
                    assert(p[k] == old_p[k]);
                } else if k > pos {
                    assert(p[k] == old_p[k - 1]);
                }
            }
            assert forall|k1: int, k2: int| 0 <= k1 < k2 < out@.len() implies #[trigger] p[k1] != #[trigger] p[k2] by {
                if k1 != pos && k2 != pos {
                    let j1 = if k1 < pos { k1 } else { k1 - 1 };
                    let j2 = if k2 < pos { k2 } else { k2 - 1 };
                    assert(p[k1] == old_p[j1] && p[k2] == old_p[j2]);
                } else if k1 == pos {
                    assert(p[k2] == old_p[k2 - 1]);
                } else {
                    assert(p[k1] == old_p[k1]);
                }
            }
            assert forall|i: int, j: int| 0 <= i < j < out@.len() implies !rule_before(#[trigger] out@[j], #[trigger] out@[i]) by {
                if i != pos && j != pos {
                    let j1 = if i < pos { i } else { i - 1 };
                    let j2 = if j < pos { j } else { j - 1 };
                    assert(out@[i] == old_out[j1] && out@[j] == old_out[j2]);
                } else if i == pos {
                    assert(out@[j] == old_out[j - 1]);
                } else {
                    assert(out@[i] == old_out[i]);
                    assert(rule_before(old_out[i], x));
                }
            }
            assert forall|k1: int, k2: int|
                0 <= k1 < k2 < out@.len() && same_rank(#[trigger] out@[k1], #[trigger] out@[k2]) implies p[k1] < p[k2] by {
                if k1 != pos && k2 != pos {
                    let j1 = if k1 < pos { k1 } else { k1 - 1 };
                    let j2 = if k2 < pos { k2 } else { k2 - 1 };
                    assert(out@[k1] == old_out[j1] && out@[k2] == old_out[j2]);
                    assert(p[k1] == old_p[j1] && p[k2] == old_p[j2]);
                } else if k1 == pos {
                    assert(p[k2] == old_p[k2 - 1]);
                } else {
                    assert(out@[k1] == old_out[k1]);
                    assert(rule_before(old_out[k1], x));
                }
            }
        }
    }
    assert(a.take(0) =~= Seq::<RoutingRule>::empty());
    assert(is_stable_sorting(p, out@, a));
    out
}

/// `r` is the engine's decision for the packet: the first rule (in rank
/// order) that applies, or the default action when none does.
pub open spec fn is_decision_for(e: RoutingEngine, packet: PacketContext, r: RoutingDecision) -> bool {
    &&& r.is_default <==> (forall|i: int| 0 <= i < e.spec_rules().len()
        ==> !spec_rule_matches(#[trigger] e.spec_rules()[i], packet))
    &&& r.is_default ==> r.action == e.spec_default_action() && r.rule_id is None && r.rule_name is None
    &&& !r.is_default ==> exists|i: int| #[trigger] first_match(e.spec_rules(), packet, i)
        && r.action == e.spec_rules()[i].action
        && r.rule_id == Some(e.spec_rules()[i].id)
        && (r.rule_name matches Some(name) && name@ == e.spec_rules()[i].name@)
}

/// The action the engine takes for a packet.
pub open spec fn spec_engine_action(e: RoutingEngine, packet: PacketContext) -> RoutingAction {
    if exists|i: int| #[trigger] first_match(e.spec_rules(), packet, i) {
        e.spec_rules()[choose|i: int| #[trigger] first_match(e.spec_rules(), packet, i)].action
    } else {
        e.spec_default_action()
    }
}

/// At most one rule is the first that applies.
pub proof fn lemma_first_match_unique(rules: Seq<RoutingRule>, packet: PacketContext, i: int, j: int)
    requires
        first_match(rules, packet, i),
        first_match(rules, packet, j),
    ensures
        i == j,
{
    if i < j {
        assert(!spec_rule_matches(rules[i], packet));
    } else if j < i {
        assert(!spec_rule_matches(rules[j], packet));
    }
}

/// A decision's action is the engine's action for the packet.
pub proof fn lemma_decision_action(e: RoutingEngine, packet: PacketContext, r: RoutingDecision)
    requires
        is_decision_for(e, packet, r),
    ensures
        r.action == spec_engine_action(e, packet),
{
    if r.is_default {
        if exists|i: int| #[trigger] first_match(e.spec_rules(), packet, i) {
            let i = choose|i: int| #[trigger] first_match(e.spec_rules(), packet, i);
            assert(spec_rule_matches(e.spec_rules()[i], packet));
        }
    } else {
        let i = choose|i: int| #[trigger] first_match(e.spec_rules(), packet, i)
            && r.action == e.spec_rules()[i].action;
        let k = choose|k: int| #[trigger] first_match(e.spec_rules(), packet, k);
        lemma_first_match_unique(e.spec_rules(), packet, i, k);
    }
}

/// The engine: rules in the order they are tried, and the default action.
pub struct RoutingEngine {
    default_action: RoutingAction,
    rules: Vec<RoutingRule>,
}

impl RoutingEngine {
    /// The rules in the order they are tried.
    pub closed spec fn spec_rules(&self) -> Seq<RoutingRule> {
        self.rules@
    }

    /// The action when no rule matches.
    pub closed spec fn spec_default_action(&self) -> RoutingAction {
        self.default_action
    }

    /// The rules are in rank order; every engine keeps them so.
    #[verifier::type_invariant]
    pub open spec fn wf(&self) -> bool {
        sorted_rules(self.spec_rules())
    }

    /// An engine for a configuration: ids are assigned, then the rules are
    /// stably sorted by rank. It is never refused.
    pub fn from_config(config: RuleConfig) -> (r: Result<Self, ConfigError>)
        requires
            config.rules@.len() < u32::MAX,
        ensures
            r matches Ok(e) && e.wf() && e.spec_default_action() == config.default_action
                && is_stable_sort_of(e.spec_rules(), assigned_rules(config.rules@)),
    {
        let ghost given = config.rules@;
        let config = config.assign_ids();
        assert(config.rules@ =~= assigned_rules(given));
        let rules = sort_rules(config.rules);
        let e = RoutingEngine { default_action: config.default_action, rules };
        proof {
            let p = choose|p: Seq<int>| is_stable_sorting(p, e.rules@, assigned_rules(given));
            assert(is_stable_sorting(p, e.rules@, assigned_rules(given)));
        }
        Ok(e)
    }

    /// The decision for a packet: the first rule (in rank order) that applies,
    /// or the default action when none does.
    pub fn match_packet(&self, packet: &PacketContext) -> (r: RoutingDecision)
        ensures
            is_decision_for(*self, *packet, r),
    {
        let n = self.rules.len();
        let mut i: usize = 0;
        while i < n
            invariant
                n == self.rules@.len(),
                i <= n,
                forall|j: int| 0 <= j < i ==> !spec_rule_matches(#[trigger] self.rules@[j], *packet),
            decreases n - i,
        {
            let rule = &self.rules[i];
            if Matcher::matches(rule, packet) {
                let d = RoutingDecision::from_rule(rule.id, rule.name.clone(), rule.action);
                assert(spec_rule_matches(self.spec_rules()[i as int], *packet));
                assert(first_match(self.spec_rules(), *packet, i as int));
                return d;
            }
            i = i + 1;
        }
        RoutingDecision::default_action(self.default_action)
    }

    pub fn rule_count(&self) -> (r: usize)
        ensures
            r == self.spec_rules().len(),
    {
        self.rules.len()
    }

    pub fn default_action(&self) -> (r: RoutingAction)
        ensures
            r == self.spec_default_action(),
    {
        self.default_action
    }
}

/// The rule an engine picks for a packet outranks every other rule that
/// applies: none that applies has a higher priority, or the same priority
/// and a lower id.
pub proof fn lemma_first_match_outranks(engine: RoutingEngine, packet: PacketContext, i: int, q: int)
    requires
        engine.wf(),
        first_match(engine.spec_rules(), packet, i),
        0 <= q < engine.spec_rules().len(),
        spec_rule_matches(engine.spec_rules()[q], packet),
    ensures
        !rule_before(engine.spec_rules()[q], engine.spec_rules()[i]),
{
    let s = engine.spec_rules();
    if q < i {
        assert(!spec_rule_matches(s[q], packet));
    } else if q > i {
        assert(!rule_before(s[q], s[i]));
    }
}

/// Some position of `p` holds `j`.
pub open spec fn takes_value(p: Seq<int>, j: int) -> bool {
    exists|k: int| 0 <= k < p.len() && p[k] == j
}

/// A map of `0..n` into itself that takes no value twice takes every value.
proof fn lemma_injection_onto(p: Seq<int>, n: int)
    requires
        p.len() == n,
        forall|k: int| 0 <= k < n ==> 0 <= #[trigger] p[k] < n,
        forall|k1: int, k2: int| 0 <= k1 < k2 < n ==> #[trigger] p[k1] != #[trigger] p[k2],
    ensures
        forall|j: int| 0 <= j < n ==> #[trigger] takes_value(p, j),
{
    broadcast use vstd::seq_lib::group_seq_properties;
    assert(p.no_duplicates()) by {
        assert forall|i: int, j: int| 0 <= i < p.len() && 0 <= j < p.len() && i != j implies p[i] != p[j] by {
            if i < j {
                assert(p[i] != p[j]);
            } else {
                assert(p[j] != p[i]);
            }
        }
    }
    p.unique_seq_to_set();
    vstd::set_lib::lemma_int_range(0, n);
    let range = vstd::set_lib::set_int_range(0, n);
    assert(p.to_set().subset_of(range)) by {
        assert forall|x: int| p.to_set().contains(x) implies range.contains(x) by {
            assert(p.contains(x));
            let k = choose|k: int| 0 <= k < p.len() && p[k] == x;
            assert(0 <= p[k] < n);
        }
    }
    vstd::set_lib::lemma_subset_equality(p.to_set(), range);
    assert forall|j: int| 0 <= j < n implies #[trigger] takes_value(p, j) by {
        assert(range.contains(j));
        assert(p.to_set().contains(j));
        assert(p.contains(j));
    }
}

/// Rule `k` of `rules` is the one a packet's decision comes from: it
/// applies, and every other rule that applies has a lower priority, or the
/// same priority and a higher id, or the same priority and id and a later
/// position.
pub open spec fn is_best_match(rules: Seq<RoutingRule>, packet: PacketContext, k: int) -> bool {
    &&& 0 <= k < rules.len()
    &&& spec_rule_matches(rules[k], packet)
    &&& forall|j: int| 0 <= j < rules.len() && j != k && spec_rule_matches(#[trigger] rules[j], packet)
        ==> rule_before(rules[k], rules[j]) || (same_rank(rules[k], rules[j]) && k < j)
}

/// `e` is the engine of `config`, as `from_config` makes it.
pub open spec fn engine_of(e: RoutingEngine, config: RuleConfig) -> bool {
    &&& e.spec_default_action() == config.default_action
    &&& is_stable_sort_of(e.spec_rules(), assigned_rules(config.rules@))
}

/// The decision of the engine of a configuration, when some rule applies,
/// is that of the rule with the highest priority among those that apply,
/// ties going to the lowest id, then to the earliest rule (ids assigned).
pub proof fn lemma_decision_is_best_match(
    e: RoutingEngine,
    config: RuleConfig,
    packet: PacketContext,
    r: RoutingDecision,
)
    requires
        engine_of(e, config),
        is_decision_for(e, packet, r),
        exists|j: int| 0 <= j < config.rules@.len() && spec_rule_matches(#[trigger] config.rules@[j], packet),
    ensures
        exists|k: int| #[trigger] is_best_match(assigned_rules(config.rules@), packet, k)
            && !r.is_default
            && r.action == assigned_rules(config.rules@)[k].action
            && r.rule_id == Some(assigned_rules(config.rules@)[k].id)
            && (r.rule_name matches Some(name) && name@ == assigned_rules(config.rules@)[k].name@),
{
    let a = assigned_rules(config.rules@);
    let s = e.spec_rules();
    let p = choose|p: Seq<int>| is_stable_sorting(p, s, a);
    let n = a.len() as int;
    lemma_injection_onto(p, n);
    let j0 = choose|j: int| 0 <= j < config.rules@.len() && spec_rule_matches(#[trigger] config.rules@[j], packet);
    assert(spec_rule_matches(a[j0], packet));
    assert(takes_value(p, j0));
    let i0 = choose|k: int| 0 <= k < p.len() && p[k] == j0;
    assert(s[i0] == a[j0]);
    assert(spec_rule_matches(s[i0], packet));
    assert(!r.is_default);
    let i = choose|i: int| #[trigger] first_match(s, packet, i) && r.action == s[i].action
        && r.rule_id == Some(s[i].id) && (r.rule_name matches Some(name) && name@ == s[i].name@);
    let k = p[i];
    assert(a[k] == s[i]);
    assert forall|j: int| 0 <= j < a.len() && j != k && spec_rule_matches(#[trigger] a[j], packet)
        implies rule_before(a[k], a[j]) || (same_rank(a[k], a[j]) && k < j) by {
        assert(takes_value(p, j));
        let i2 = choose|k2: int| 0 <= k2 < p.len() && p[k2] == j;
        assert(s[i2] == a[j]);
        assert(i2 != i);
        if i2 < i {
            assert(!spec_rule_matches(s[i2], packet));
        }
        assert(i < i2);
        assert(!rule_before(s[i2], s[i]));
        if same_rank(s[i], s[i2]) {
            assert(p[i] < p[i2]);
        }
    }
    assert(is_best_match(a, packet, k));
}

/// The engine of a configuration in which no rule applies to a packet takes
/// the configuration's default action for it, with no rule named.
pub proof fn lemma_no_match_default(e: RoutingEngine, config: RuleConfig, packet: PacketContext, r: RoutingDecision)
    requires
        engine_of(e, config),
        is_decision_for(e, packet, r),
        forall|j: int| 0 <= j < config.rules@.len() ==> !spec_rule_matches(#[trigger] config.rules@[j], packet),
    ensures
        r.is_default,
        r.action == config.default_action,
        r.rule_id is None,
        r.rule_name is None,
{
    let a = assigned_rules(config.rules@);
    let s = e.spec_rules();
    let p = choose|p: Seq<int>| is_stable_sorting(p, s, a);
    assert forall|i: int| 0 <= i < s.len() implies !spec_rule_matches(#[trigger] s[i], packet) by {
        assert(s[i] == a[p[i]]);
        assert(!spec_rule_matches(config.rules@[p[i]], packet));
    }
}

/// Two decisions with the same action, rule id, rule name and default flag.
pub open spec fn same_decision(r1: RoutingDecision, r2: RoutingDecision) -> bool {
    &&& r1.action == r2.action
    &&& r1.rule_id == r2.rule_id
    &&& r1.is_default == r2.is_default
    &&& match (r1.rule_name, r2.rule_name) {
        (Some(n1), Some(n2)) => n1@ == n2@,
        (None, None) => true,
        _ => false,
    }
}

/// `b` holds the rules of `a` in another order: `q` maps each position of
/// `b` to the position in `a` of the same rule, taking no position twice.
pub open spec fn is_reordering(q: Seq<int>, b: Seq<RoutingRule>, a: Seq<RoutingRule>) -> bool {
    &&& q.len() == b.len()
    &&& b.len() == a.len()
    &&& forall|k: int| 0 <= k < b.len() ==> 0 <= #[trigger] q[k] < a.len() && b[k] == a[q[k]]
    &&& forall|k1: int, k2: int| 0 <= k1 < k2 < b.len() ==> #[trigger] q[k1] != #[trigger] q[k2]
}

/// Every rule has a non-zero id of its own.
pub open spec fn distinct_nonzero_ids(rules: Seq<RoutingRule>) -> bool {
    &&& forall|i: int| 0 <= i < rules.len() ==> #[trigger] rules[i].id != 0
    &&& forall|i: int, j: int| 0 <= i < j < rules.len() ==> #[trigger] rules[i].id != #[trigger] rules[j].id
}

proof fn lemma_assigned_unchanged(rules: Seq<RoutingRule>)
    requires
        forall|i: int| 0 <= i < rules.len() ==> #[trigger] rules[i].id != 0,
    ensures
        assigned_rules(rules) == rules,
{
    assert(assigned_rules(rules) =~= rules);
}

/// When every rule has a non-zero id of its own, the order of the rules in
/// a configuration does not matter: the engines of two configurations with
/// the same default action and the same rules in any order decide every
/// packet alike.
pub proof fn lemma_rule_order_irrelevant(
    e1: RoutingEngine,
    c1: RuleConfig,
    e2: RoutingEngine,
    c2: RuleConfig,
    q: Seq<int>,
    packet: PacketContext,
    r1: RoutingDecision,
    r2: RoutingDecision,
)
    requires
        engine_of(e1, c1),
        engine_of(e2, c2),
        c1.default_action == c2.default_action,
        is_reordering(q, c2.rules@, c1.rules@),
        distinct_nonzero_ids(c1.rules@),
        is_decision_for(e1, packet, r1),
        is_decision_for(e2, packet, r2),
    ensures
        same_decision(r1, r2),
{
    let a1 = c1.rules@;
    let a2 = c2.rules@;
    let n = a1.len() as int;
    lemma_injection_onto(q, n);
    lemma_assigned_unchanged(a1);
    assert forall|i: int| 0 <= i < a2.len() implies #[trigger] a2[i].id != 0 by {
        assert(a2[i] == a1[q[i]]);
    }
    lemma_assigned_unchanged(a2);
    if exists|j: int| 0 <= j < a1.len() && spec_rule_matches(#[trigger] a1[j], packet) {
        let j = choose|j: int| 0 <= j < a1.len() && spec_rule_matches(#[trigger] a1[j], packet);
        assert(takes_value(q, j));
        let j2 = choose|k: int| 0 <= k < q.len() && q[k] == j;
        assert(a2[j2] == a1[j]);
        assert(spec_rule_matches(a2[j2], packet));
        lemma_decision_is_best_match(e1, c1, packet, r1);
        lemma_decision_is_best_match(e2, c2, packet, r2);
        let k1 = choose|k: int| #[trigger] is_best_match(a1, packet, k) && !r1.is_default
            && r1.action == a1[k].action && r1.rule_id == Some(a1[k].id)
            && (r1.rule_name matches Some(name) && name@ == a1[k].name@);
        let k2 = choose|k: int| #[trigger] is_best_match(a2, packet, k) && !r2.is_default
            && r2.action == a2[k].action && r2.rule_id == Some(a2[k].id)
            && (r2.rule_name matches Some(name) && name@ == a2[k].name@);
        let m = q[k2];
        assert(a2[k2] == a1[m]);
        if m != k1 {
            assert(spec_rule_matches(a1[m], packet));
            assert(rule_before(a1[k1], a1[m]) || (same_rank(a1[k1], a1[m]) && k1 < m));
            if same_rank(a1[k1], a1[m]) {
                if k1 < m {
                    assert(a1[k1].id != a1[m].id);
                } else {
                    assert(a1[m].id != a1[k1].id);
                }
            }
            assert(takes_value(q, k1));
            let kk = choose|k: int| 0 <= k < q.len() && q[k] == k1;
            assert(a2[kk] == a1[k1]);
            assert(kk != k2);
            assert(spec_rule_matches(a2[kk], packet));
            assert(rule_before(a2[k2], a2[kk]) || (same_rank(a2[k2], a2[kk]) && k2 < kk));
            assert(false);
        }
    } else {
        assert forall|j: int| 0 <= j < a2.len() implies !spec_rule_matches(#[trigger] a2[j], packet) by {
            assert(a2[j] == a1[q[j]]);
        }
        lemma_no_match_default(e1, c1, packet, r1);
        lemma_no_match_default(e2, c2, packet, r2);
    }
}

/// Where two stable sorts by rank of the same rules put position `k`, they
/// put the same rule of the input.
proof fn lemma_sort_positions_agree(
    p1: Seq<int>,
    p2: Seq<int>,
    r1: Seq<RoutingRule>,
    r2: Seq<RoutingRule>,
    a: Seq<RoutingRule>,
    k: int,
)
    requires
        is_stable_sorting(p1, r1, a),
        is_stable_sorting(p2, r2, a),
        0 <= k < a.len(),
    ensures
        p1[k] == p2[k],
    decreases k,
{
    let n = a.len() as int;
    let x = p1[k];
    let y = p2[k];
    if x != y {
        lemma_injection_onto(p1, n);
        lemma_injection_onto(p2, n);
        if rule_before(a[x], a[y]) || (same_rank(a[x], a[y]) && x < y) {
            assert(takes_value(p2, x));
            let k2 = choose|j: int| 0 <= j < p2.len() && p2[j] == x;
            if k2 < k {
                lemma_sort_positions_agree(p1, p2, r1, r2, a, k2);
                assert(p1[k2] != p1[k]);
            } else {
                assert(k2 != k);
                assert(r2[k] == a[y] && r2[k2] == a[x]);
                assert(!rule_before(r2[k2], r2[k]));
                if same_rank(r2[k], r2[k2]) {
                    assert(p2[k] < p2[k2]);
                }
            }
        } else {
            assert(takes_value(p1, y));
            let k1 = choose|j: int| 0 <= j < p1.len() && p1[j] == y;
            if k1 < k {
                lemma_sort_positions_agree(p1, p2, r1, r2, a, k1);
                assert(p2[k1] != p2[k]);
            } else {
                assert(k1 != k);
                assert(r1[k] == a[x] && r1[k1] == a[y]);
                assert(!rule_before(r1[k1], r1[k]));
                if same_rank(r1[k], r1[k1]) {
                    assert(p1[k] < p1[k1]);
                }
            }
        }
    }
}

/// A stable sort by rank is unique: two stable sorts of the same rules are
/// the same sequence.
pub proof fn lemma_stable_sort_unique(r1: Seq<RoutingRule>, r2: Seq<RoutingRule>, a: Seq<RoutingRule>)
    requires
        is_stable_sort_of(r1, a),
        is_stable_sort_of(r2, a),
    ensures
        r1 == r2,
{
    let p1 = choose|p: Seq<int>| is_stable_sorting(p, r1, a);
    let p2 = choose|p: Seq<int>| is_stable_sorting(p, r2, a);
    assert forall|k: int| 0 <= k < r1.len() implies r1[k] == r2[k] by {
        lemma_sort_positions_agree(p1, p2, r1, r2, a, k);
    }
    assert(r1 =~= r2);
}

/// Two engines of the same configuration (the one `from_config` makes and
/// the one a successful `reload_config` puts in place) have the same rules in
/// the same order and the same default action, and decide every packet alike.
pub proof fn lemma_same_config_same_decisions(
    e1: RoutingEngine,
    e2: RoutingEngine,
    config: RuleConfig,
    packet: PacketContext,
    r1: RoutingDecision,
    r2: RoutingDecision,
)
    requires
        engine_of(e1, config),
        engine_of(e2, config),
        is_decision_for(e1, packet, r1),
        is_decision_for(e2, packet, r2),
    ensures
        e1.spec_rules() == e2.spec_rules(),
        e1.spec_default_action() == e2.spec_default_action(),
        same_decision(r1, r2),
{
    lemma_stable_sort_unique(e1.spec_rules(), e2.spec_rules(), assigned_rules(config.rules@));
    let s = e1.spec_rules();
    if !r1.is_default {
        let i = choose|i: int| #[trigger] first_match(s, packet, i) && r1.action == s[i].action
            && r1.rule_id == Some(s[i].id) && (r1.rule_name matches Some(name) && name@ == s[i].name@);
        let j = choose|j: int| #[trigger] first_match(s, packet, j) && r2.action == s[j].action
            && r2.rule_id == Some(s[j].id) && (r2.rule_name matches Some(name) && name@ == s[j].name@);
        lemma_first_match_unique(s, packet, i, j);
    }
}

/// An engine that can be replaced while the program runs. Sharing it
/// between threads is left to its owner.
pub struct HotReloadableEngine {
    engine: RoutingEngine,
}

impl View for HotReloadableEngine {
    type V = RoutingEngine;

    /// The engine in place.
    closed spec fn view(&self) -> RoutingEngine {
        self.engine
    }
}

impl HotReloadableEngine {
    /// Puts an engine in place.
    pub fn new(engine: RoutingEngine) -> (r: Self)
        ensures
            r@ == engine,
    {
        HotReloadableEngine { engine }
    }

    /// The decision of the engine in place.
    pub fn match_packet(&self, packet: &PacketContext) -> (r: RoutingDecision)
        ensures
            is_decision_for(self@, *packet, r),
    {
        self.engine.match_packet(packet)
    }

    /// Puts another engine in place.
    pub fn replace(&mut self, engine: RoutingEngine)
        ensures
            final(self)@ == engine,
    {
        self.engine = engine;
    }

    /// Puts the engine of a configuration in place, unless the configuration
    /// is refused: then the engine in place stays, and the error is that of
    /// the first invalid rule.
    pub fn reload_config(&mut self, config: RuleConfig) -> (r: Result<(), ConfigError>)
        requires
            config.rules@.len() < u32::MAX,
        ensures
            r is Ok <==> (forall|i: int| 0 <= i < config.rules@.len() ==> #[trigger] spec_rule_error(config.rules@[i], i as usize) is None),
            r matches Err(e) ==> final(self)@ == old(self)@ && exists|i: int| 0 <= i < config.rules@.len()
                && spec_rule_error(config.rules@[i], i as usize) == Some(e@)
                && (forall|j: int| 0 <= j < i ==> #[trigger] spec_rule_error(config.rules@[j], j as usize) is None),
            r is Ok ==> final(self)@.spec_default_action() == config.default_action
                && is_stable_sort_of(final(self)@.spec_rules(), assigned_rules(config.rules@)),
    {
        match config.validate() {
            Err(e) => Err(e),
            Ok(()) => {
                let ghost rules = config.rules@;
                let ghost default = config.default_action;
                match RoutingEngine::from_config(config) {
                    Ok(engine) => {
                        self.engine = engine;
                        assert(self@.spec_default_action() == default);
                        assert(is_stable_sort_of(self@.spec_rules(), assigned_rules(rules)));
                        Ok(())
                    },
                    Err(e) => Err(e),
                }
            },
        }
    }

    /// The number of rules of the engine in place.
    pub fn rule_count(&self) -> (r: usize)
        ensures
            r == self@.spec_rules().len(),
    {
        self.engine.rule_count()
    }

    /// The default action of the engine in place.
    pub fn default_action(&self) -> (r: RoutingAction)
        ensures
            r == self@.spec_default_action(),
    {
        self.engine.default_action()
    }
}

} // verus!
