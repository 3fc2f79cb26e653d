//! Multi-party treaties: clauses with diplomatic capacity costs, the
//! treaty lifecycle (proposed, negotiating, active, abrogated, expired)
//! and the registry that holds them.
use vstd::prelude::*;
use crate::text::{clone_names, contains_name, names_contain, push_zero_padded, str_eq, zero_padded};

verus! {

/// A clause within a treaty, each with distinct economic effects.
#[derive(Debug, PartialEq, Eq, Hash)]
pub enum TreatyClause {
    /// Merge market demand/supply between participants.
    CustomsUnion,
    /// Zero border enforcement, boost migration between participants.
    SchengenFreeMovement,
    /// Bypass foreign ownership caps for cross-border purchases.
    FinancialMarketIntegration,
    /// Mutual defense pact trigger.
    MutualDefense,
    /// Tariff reduction between participants.
    TradePreference,
    /// Grants access to a specific commodity market.
    ResourceAccess {
        /// The commodity this treaty grants access to.
        commodity: String,
    },
}

impl TreatyClause {
    /// The human-readable label of the clause.
    pub open spec fn label(self) -> Seq<char> {
        match self {
            TreatyClause::CustomsUnion => "Customs Union"@,
            TreatyClause::SchengenFreeMovement => "Schengen Free Movement"@,
            TreatyClause::FinancialMarketIntegration => "Financial Market Integration"@,
            TreatyClause::MutualDefense => "Mutual Defense"@,
            TreatyClause::TradePreference => "Trade Preference"@,
            TreatyClause::ResourceAccess { .. } => "Resource Access"@,
        }
    }

    /// The diplomatic capacity a clause of this kind costs.
    pub open spec fn capacity_cost(self) -> nat {
        match self {
            TreatyClause::CustomsUnion => 3,
            TreatyClause::SchengenFreeMovement => 4,
            TreatyClause::FinancialMarketIntegration => 3,
            TreatyClause::MutualDefense => 2,
            TreatyClause::TradePreference => 1,
            TreatyClause::ResourceAccess { .. } => 2,
        }
    }

    /// Human-readable label for UI display.
    pub fn as_str(&self) -> (r: &'static str)
        ensures
            r@ == self.label(),
    {
        match self {
            TreatyClause::CustomsUnion => "Customs Union",
            TreatyClause::SchengenFreeMovement => "Schengen Free Movement",
            TreatyClause::FinancialMarketIntegration => "Financial Market Integration",
            TreatyClause::MutualDefense => "Mutual Defense",
            TreatyClause::TradePreference => "Trade Preference",
            TreatyClause::ResourceAccess { .. } => "Resource Access",
        }
    }

    /// Returns the base diplomatic capacity cost for this clause type.
    pub fn base_capacity_cost(&self) -> (r: u32)
        ensures
            r == self.capacity_cost(),
    {
        match self {
            TreatyClause::CustomsUnion => 3,
            TreatyClause::SchengenFreeMovement => 4,
            TreatyClause::FinancialMarketIntegration => 3,
            TreatyClause::MutualDefense => 2,
            TreatyClause::TradePreference => 1,
            TreatyClause::ResourceAccess { .. } => 2,
        }
    }
}

/// Every clause costs at least one and at most four units of diplomatic
/// capacity.
pub proof fn law_clause_cost_bounds(c: TreatyClause)
    ensures
        1 <= c.capacity_cost() <= 4,
{
}

/// The lifecycle status of a treaty.
#[derive(Debug, Clone, Copy, PartialEq, Eq, Hash, Structural)]
pub enum TreatyStatus {
    /// Proposed but not yet accepted by all parties.
    Proposed,
    /// Negotiations are ongoing.
    Negotiating,
    /// In force; clauses are actively applied.
    Active,
    /// Temporarily suspended.
    Suspended,
    /// Unilaterally abrogated by one party.
    Abrogated,
    /// Expired naturally after its duration.
    Expired,
}

impl Default for TreatyStatus {
    fn default() -> (r: Self)
        ensures
            r == TreatyStatus::Proposed,
    {
        TreatyStatus::Proposed
    }
}

impl TreatyStatus {
    /// The human-readable label of the status.
    pub open spec fn label(self) -> Seq<char> {
        match self {
            TreatyStatus::Proposed => "Proposed"@,
            TreatyStatus::Negotiating => "Negotiating"@,
            TreatyStatus::Active => "Active"@,
            TreatyStatus::Suspended => "Suspended"@,
            TreatyStatus::Abrogated => "Abrogated"@,
            TreatyStatus::Expired => "Expired"@,
        }
    }

    /// Returns a human-readable label for UI display.
    pub fn as_str(&self) -> (r: &'static str)
        ensures
            r@ == self.label(),
    {
        match self {
            TreatyStatus::Proposed => "Proposed",
            TreatyStatus::Negotiating => "Negotiating",
            TreatyStatus::Active => "Active",
            TreatyStatus::Suspended => "Suspended",
            TreatyStatus::Abrogated => "Abrogated",
            TreatyStatus::Expired => "Expired",
        }
    }
}

impl Clone for TreatyClause {
    fn clone(&self) -> (r: Self)
        ensures
            r == *self,
    {
        match self {
            TreatyClause::CustomsUnion => TreatyClause::CustomsUnion,
            TreatyClause::SchengenFreeMovement => TreatyClause::SchengenFreeMovement,
            TreatyClause::FinancialMarketIntegration => TreatyClause::FinancialMarketIntegration,
            TreatyClause::MutualDefense => TreatyClause::MutualDefense,
            TreatyClause::TradePreference => TreatyClause::TradePreference,
            TreatyClause::ResourceAccess { commodity } => TreatyClause::ResourceAccess { commodity: commodity.clone() },
        }
    }
}

/// Whether two clauses are equal: the same kind and, for resource access,
/// the same commodity.
pub open spec fn same_clause(a: TreatyClause, b: TreatyClause) -> bool {
    match (a, b) {
        (TreatyClause::CustomsUnion, TreatyClause::CustomsUnion) => true,
        (TreatyClause::SchengenFreeMovement, TreatyClause::SchengenFreeMovement) => true,
        (TreatyClause::FinancialMarketIntegration, TreatyClause::FinancialMarketIntegration) => true,
        (TreatyClause::MutualDefense, TreatyClause::MutualDefense) => true,
        (TreatyClause::TradePreference, TreatyClause::TradePreference) => true,
        (TreatyClause::ResourceAccess { commodity: x }, TreatyClause::ResourceAccess { commodity: y }) => x@ == y@,
        _ => false,
    }
}

/// Whether two clauses are equal (`<TreatyClause as PartialEq>::eq`).
pub fn clause_eq(a: &TreatyClause, b: &TreatyClause) -> (r: bool)
    ensures
        r == same_clause(*a, *b),
{
    match (a, b) {
        (TreatyClause::CustomsUnion, TreatyClause::CustomsUnion) => true,
        (TreatyClause::SchengenFreeMovement, TreatyClause::SchengenFreeMovement) => true,
        (TreatyClause::FinancialMarketIntegration, TreatyClause::FinancialMarketIntegration) => true,
        (TreatyClause::MutualDefense, TreatyClause::MutualDefense) => true,
        (TreatyClause::TradePreference, TreatyClause::TradePreference) => true,
        (TreatyClause::ResourceAccess { commodity: x }, TreatyClause::ResourceAccess { commodity: y }) => str_eq(
            x.as_str(),
            y.as_str(),
        ),
        _ => false,
    }
}

/// The total diplomatic capacity cost of a list of clauses.
pub open spec fn clause_cost_sum(clauses: Seq<TreatyClause>) -> nat
    decreases clauses.len(),
{
    if clauses.len() == 0 {
        0
    } else {
        clause_cost_sum(clauses.drop_last()) + clauses.last().capacity_cost()
    }
}

proof fn lemma_clause_cost_sum_prefix(clauses: Seq<TreatyClause>, k: int)
    requires
        0 <= k <= clauses.len(),
    ensures
        clause_cost_sum(clauses.take(k)) <= clause_cost_sum(clauses),
    decreases clauses.len() - k,
{
    if k < clauses.len() {
        lemma_clause_cost_sum_prefix(clauses, k + 1);
        assert(clauses.take(k + 1).drop_last() =~= clauses.take(k));
    } else {
        assert(clauses.take(k) =~= clauses);
    }
}

/// A copy of a list of clauses.
fn clone_clauses(clauses: &Vec<TreatyClause>) -> (r: Vec<TreatyClause>)
    ensures
        r@ == clauses@,
{
    let mut r: Vec<TreatyClause> = Vec::new();
    let mut k: usize = 0;
    while k < clauses.len()
        invariant
            k <= clauses.len(),
            r@ == clauses@.take(k as int),
        decreases clauses.len() - k,
    {
        r.push(clauses[k].clone());
        k = k + 1;
        assert(r@ =~= clauses@.take(k as int));
    }
    assert(clauses@.take(k as int) =~= clauses@);
    r
}

/// Negotiation progress of a treaty that is ready to sign, in millionths.
pub const NEGOTIATION_COMPLETE: u32 = 1_000_000;

/// A multi-party treaty with clauses, negotiation progress and lifecycle.
#[derive(Debug, PartialEq)]
pub struct Treaty {
    /// Unique treaty ID (e.g., "TREATY-000001").
    pub id: String,
    /// Human-readable treaty name.
    pub name: String,
    /// All participant country names.
    pub participants: Vec<String>,
    /// Active clauses in this treaty.
    pub clauses: Vec<TreatyClause>,
    /// Current lifecycle status.
    pub status: TreatyStatus,
    /// Negotiation progress in millionths (0 to `NEGOTIATION_COMPLETE`).
    pub negotiation_progress: u32,
    /// Diplomatic capacity cost (determined by the clauses).
    pub diplomatic_capacity_cost: u32,
    /// Turn when the treaty was proposed.
    pub initiated_turn: u32,
    /// Turn when the treaty was signed (if Active/Expired/Abrogated).
    pub signed_turn: Option<u32>,
    /// Duration in turns after which the treaty expires naturally.
    pub duration_turns: u32,
    /// Country that initiated the treaty proposal.
    pub initiator: String,
}

/// Whether `a` is a copy of `b`: equal fields and equal lists.
pub open spec fn same_treaty(a: Treaty, b: Treaty) -> bool {
    &&& a.id == b.id
    &&& a.name == b.name
    &&& a.participants@ == b.participants@
    &&& a.clauses@ == b.clauses@
    &&& a.status == b.status
    &&& a.negotiation_progress == b.negotiation_progress
    &&& a.diplomatic_capacity_cost == b.diplomatic_capacity_cost
    &&& a.initiated_turn == b.initiated_turn
    &&& a.signed_turn == b.signed_turn
    &&& a.duration_turns == b.duration_turns
    &&& a.initiator == b.initiator
}

impl Clone for Treaty {
    fn clone(&self) -> (r: Self)
        ensures
            same_treaty(r, *self),
    {
        Treaty {
            id: self.id.clone(),
            name: self.name.clone(),
            participants: clone_names(&self.participants),
            clauses: clone_clauses(&self.clauses),
            status: self.status,
            negotiation_progress: self.negotiation_progress,
            diplomatic_capacity_cost: self.diplomatic_capacity_cost,
            initiated_turn: self.initiated_turn,
            signed_turn: self.signed_turn,
            duration_turns: self.duration_turns,
            initiator: self.initiator.clone(),
        }
    }
}

impl Treaty {
    /// Whether the treaty is in force.
    pub open spec fn active(self) -> bool {
        self.status == TreatyStatus::Active
    }

    /// Whether the treaty has run its course by `turn`: it was signed and
    /// its duration has passed.
    pub open spec fn expired_at(self, turn: int) -> bool {
        self.signed_turn matches Some(s) && turn >= s + self.duration_turns
    }

    /// Whether `a` and `b` are both participants.
    pub open spec fn between(self, a: Seq<char>, b: Seq<char>) -> bool {
        names_contain(self.participants@, a) && names_contain(self.participants@, b)
    }

    /// Whether the treaty has a clause equal to `clause`.
    pub open spec fn holds_clause(self, clause: TreatyClause) -> bool {
        exists|j: int| 0 <= j < self.clauses@.len() && same_clause(#[trigger] self.clauses@[j], clause)
    }

    /// Creates a new proposed treaty whose capacity cost is the sum of its
    /// clauses' costs.
    pub fn new(
        id: String,
        name: String,
        participants: Vec<String>,
        clauses: Vec<TreatyClause>,
        initiated_turn: u32,
        duration_turns: u32,
        initiator: String,
    ) -> (r: Self)
        requires
            clause_cost_sum(clauses@) <= u32::MAX,
        ensures
            r.id == id,
            r.name == name,
            r.participants@ == participants@,
            r.clauses@ == clauses@,
            r.status == TreatyStatus::Proposed,
            r.negotiation_progress == 0,
            r.diplomatic_capacity_cost == clause_cost_sum(clauses@),
            r.initiated_turn == initiated_turn,
            r.signed_turn is None,
            r.duration_turns == duration_turns,
            r.initiator == initiator,
    {
        let mut base_cost: u32 = 0;
        let mut k: usize = 0;
        while k < clauses.len()
            invariant
                k <= clauses.len(),
                clause_cost_sum(clauses@) <= u32::MAX,
                base_cost == clause_cost_sum(clauses@.take(k as int)),
            decreases clauses.len() - k,
        {
            proof {
                assert(clauses@.take(k as int + 1).drop_last() =~= clauses@.take(k as int));
                lemma_clause_cost_sum_prefix(clauses@, k as int + 1);
            }
            base_cost = base_cost + clauses[k].base_capacity_cost();
            k = k + 1;
        }
        assert(clauses@.take(k as int) =~= clauses@);
        Treaty {
            id,
            name,
            participants,
            clauses,
            status: TreatyStatus::Proposed,
            negotiation_progress: 0,
            diplomatic_capacity_cost: base_cost,
            initiated_turn,
            signed_turn: None,
            duration_turns,
            initiator,
        }
    }

    /// Returns true if both countries are participants in this treaty.
    pub fn has_participants(&self, a: &str, b: &str) -> (r: bool)
        ensures
            r == self.between(a@, b@),
    {
        contains_name(&self.participants, a) && contains_name(&self.participants, b)
    }

    /// Returns true if this treaty has the given clause.
    pub fn has_clause(&self, clause: &TreatyClause) -> (r: bool)
        ensures
            r == self.holds_clause(*clause),
    {
        let mut k: usize = 0;
        while k < self.clauses.len()
            invariant
                k <= self.clauses.len(),
                forall|j: int| 0 <= j < k ==> !same_clause(#[trigger] self.clauses@[j], *clause),
            decreases self.clauses.len() - k,
        {
            if clause_eq(&self.clauses[k], clause) {
                return true;
            }
            k = k + 1;
        }
        false
    }

    /// Returns true if the treaty is currently active.
    pub fn is_active(&self) -> (r: bool)
        ensures
            r == self.active(),
    {
        self.status == TreatyStatus::Active
    }

    /// The number of turns since signing (if signed), never negative.
    pub fn turns_since_signing(&self, current_turn: u32) -> (r: Option<u32>)
        ensures
            r == (match self.signed_turn {
                Some(t) => Some(if current_turn >= t { (current_turn - t) as u32 } else { 0u32 }),
                None => None::<u32>,
            }),
    {
        match self.signed_turn {
            Some(t) => Some(current_turn.saturating_sub(t)),
            None => None,
        }
    }

    /// Returns true if the treaty has expired naturally.
    pub fn is_expired(&self, current_turn: u32) -> (r: bool)
        requires
            self.signed_turn matches Some(s) ==> s + self.duration_turns <= u32::MAX,
        ensures
            r == self.expired_at(current_turn as int),
    {
        match self.signed_turn {
            Some(signed) => current_turn >= signed + self.duration_turns,
            None => false,
        }
    }
}

/// The index of the first treaty at or after `k` whose ID is `id`.
pub open spec fn first_treaty_from(ts: Seq<Treaty>, id: Seq<char>, k: int) -> Option<int>
    decreases ts.len() - k,
{
    if k < 0 || k >= ts.len() {
        None
    } else if ts[k].id@ == id {
        Some(k)
    } else {
        first_treaty_from(ts, id, k + 1)
    }
}

/// The index of the first treaty whose ID is `id`.
pub open spec fn first_treaty(ts: Seq<Treaty>, id: Seq<char>) -> Option<int> {
    first_treaty_from(ts, id, 0)
}

proof fn lemma_first_treaty_bounds(ts: Seq<Treaty>, id: Seq<char>, k: int)
    requires
        0 <= k,
    ensures
        first_treaty_from(ts, id, k) matches Some(i) ==> k <= i < ts.len() && ts[i].id@ == id,
    decreases ts.len() - k,
{
    if k < ts.len() && ts[k].id@ != id {
        lemma_first_treaty_bounds(ts, id, k + 1);
    }
}

/// Finds the first treaty whose ID is `id`.
fn find_treaty(ts: &Vec<Treaty>, id: &str) -> (r: Option<usize>)
    ensures
        r matches Some(i) ==> first_treaty(ts@, id@) == Some(i as int) && i < ts@.len(),
        r is None ==> first_treaty(ts@, id@) is None,
{
    proof {
        lemma_first_treaty_bounds(ts@, id@, 0);
    }
    let mut k: usize = 0;
    while k < ts.len()
        invariant
            k <= ts.len(),
            first_treaty(ts@, id@) == first_treaty_from(ts@, id@, k as int),
        decreases ts.len() - k,
    {
        if str_eq(ts[k].id.as_str(), id) {
            assert(first_treaty_from(ts@, id@, k as int) == Some(k as int));
            return Some(k);
        }
        k = k + 1;
    }
    None
}

/// `t` signed at `turn`: active, complete, and with `default_duration`
/// as its duration if it had none.
pub open spec fn signed(t: Treaty, turn: u32, default_duration: u32) -> Treaty {
    Treaty {
        status: TreatyStatus::Active,
        signed_turn: Some(turn),
        negotiation_progress: NEGOTIATION_COMPLETE,
        duration_turns: if t.duration_turns == 0 { default_duration } else { t.duration_turns },
        ..t
    }
}

/// Whether a treaty can still be signed: proposed or under negotiation.
pub open spec fn signable(t: Treaty) -> bool {
    t.status == TreatyStatus::Proposed || t.status == TreatyStatus::Negotiating
}

/// Registry tracking all treaties and the next ID counter.
#[derive(Debug, Clone, PartialEq)]
pub struct TreatyRegistry {
    /// All treaties (active, pending, expired, abrogated).
    pub treaties: Vec<Treaty>,
    /// Next auto-increment ID counter.
    pub next_id: u64,
}

impl Default for TreatyRegistry {
    fn default() -> (r: Self)
        ensures
            r.treaties@ == Seq::<Treaty>::empty(),
            r.next_id == 0,
    {
        TreatyRegistry { treaties: Vec::new(), next_id: 0 }
    }
}

impl TreatyRegistry {
    /// Generates the next treaty ID, `TREATY-` followed by the new counter
    /// value padded to six digits.
    pub fn next_treaty_id(&mut self) -> (r: String)
        requires
            old(self).next_id < u64::MAX,
        ensures
            final(self).next_id == old(self).next_id + 1,
            final(self).treaties == old(self).treaties,
            r@ == "TREATY-"@ + zero_padded(final(self).next_id as nat, 6),
    {
        self.next_id = self.next_id + 1;
        let mut s = String::from_str("TREATY-");
        push_zero_padded(&mut s, self.next_id, 6);
        s
    }

    /// Returns all active treaties, in registry order.
    pub fn active_treaties(&self) -> (r: Vec<&Treaty>)
        ensures
            r@.map_values(|t: &Treaty| *t) == self.treaties@.filter(|t: Treaty| t.active()),
    {
        let ghost pred = |t: Treaty| t.active();
        let mut r: Vec<&Treaty> = Vec::new();
        let mut k: usize = 0;
        while k < self.treaties.len()
            invariant
                k <= self.treaties.len(),
                r@.map_values(|t: &Treaty| *t) == self.treaties@.take(k as int).filter(pred),
                pred == (|t: Treaty| t.active()),
            decreases self.treaties.len() - k,
        {
            proof {
                assert(self.treaties@.take(k as int + 1).drop_last() =~= self.treaties@.take(k as int));
                reveal(Seq::filter);
            }
            let t = &self.treaties[k];
            if t.is_active() {
                r.push(t);
            }
            k = k + 1;
            assert(r@.map_values(|t: &Treaty| *t) =~= self.treaties@.take(k as int).filter(pred));
        }
        assert(self.treaties@.take(k as int) =~= self.treaties@);
        r
    }

    /// Returns all treaties involving `country`, in registry order.
    pub fn treaties_for_country(&self, country: &str) -> (r: Vec<&Treaty>)
        ensures
            r@.map_values(|t: &Treaty| *t) == self.treaties@.filter(|t: Treaty| names_contain(t.participants@, country@)),
    {
        let ghost pred = |t: Treaty| names_contain(t.participants@, country@);
        let mut r: Vec<&Treaty> = Vec::new();
        let mut k: usize = 0;
        while k < self.treaties.len()
            invariant
                k <= self.treaties.len(),
                r@.map_values(|t: &Treaty| *t) == self.treaties@.take(k as int).filter(pred),
                pred == (|t: Treaty| names_contain(t.participants@, country@)),
            decreases self.treaties.len() - k,
        {
            proof {
                assert(self.treaties@.take(k as int + 1).drop_last() =~= self.treaties@.take(k as int));
                reveal(Seq::filter);
            }
            let t = &self.treaties[k];
            if contains_name(&t.participants, country) {
                r.push(t);
            }
            k = k + 1;
            assert(r@.map_values(|t: &Treaty| *t) =~= self.treaties@.take(k as int).filter(pred));
        }
        assert(self.treaties@.take(k as int) =~= self.treaties@);
        r
    }

    /// Returns the active treaties that both `a` and `b` take part in, in
    /// registry order.
    pub fn active_treaties_between(&self, a: &str, b: &str) -> (r: Vec<&Treaty>)
        ensures
            r@.map_values(|t: &Treaty| *t) == self.treaties@.filter(|t: Treaty| t.active() && t.between(a@, b@)),
    {
        let ghost pred = |t: Treaty| t.active() && t.between(a@, b@);
        let mut r: Vec<&Treaty> = Vec::new();
        let mut k: usize = 0;
        while k < self.treaties.len()
            invariant
                k <= self.treaties.len(),
                r@.map_values(|t: &Treaty| *t) == self.treaties@.take(k as int).filter(pred),
                pred == (|t: Treaty| t.active() && t.between(a@, b@)),
            decreases self.treaties.len() - k,
        {
            proof {
                assert(self.treaties@.take(k as int + 1).drop_last() =~= self.treaties@.take(k as int));
                reveal(Seq::filter);
            }
            let t = &self.treaties[k];
            if t.is_active() && t.has_participants(a, b) {
                r.push(t);
            }
            k = k + 1;
            assert(r@.map_values(|t: &Treaty| *t) =~= self.treaties@.take(k as int).filter(pred));
        }
        assert(self.treaties@.take(k as int) =~= self.treaties@);
        r
    }

    /// Whether `a` and `b` share an active treaty with a clause equal to
    /// `clause`.
    pub open spec fn shares_clause(self, a: Seq<char>, b: Seq<char>, clause: TreatyClause) -> bool {
        exists|i: int|
            0 <= i < self.treaties@.len() && #[trigger] self.treaties@[i].active() && self.treaties@[i].between(a, b)
                && self.treaties@[i].holds_clause(clause)
    }

    /// Checks whether two countries share an active treaty with the given
    /// clause.
    pub fn has_active_clause_between(&self, a: &str, b: &str, clause: &TreatyClause) -> (r: bool)
        ensures
            r == self.shares_clause(a@, b@, *clause),
    {
        let between = self.active_treaties_between(a, b);
        let ghost pred = |t: Treaty| t.active() && t.between(a@, b@);
        let ghost f = self.treaties@.filter(pred);
        proof {
            broadcast use vstd::seq_lib::group_filter_ensures;
            assert forall|k: int| 0 <= k < f.len() implies pred(#[trigger] f[k]) by {
                self.treaties@.lemma_filter_pred(pred, k);
            }
        }
        let mut j: usize = 0;
        while j < between.len()
            invariant
                j <= between@.len(),
                between@.map_values(|t: &Treaty| *t) == f,
                f == self.treaties@.filter(pred),
                pred == (|t: Treaty| t.active() && t.between(a@, b@)),
                forall|k: int| 0 <= k < f.len() ==> pred(#[trigger] f[k]),
                forall|k: int| 0 <= k < j ==> !(#[trigger] f[k]).holds_clause(*clause),
            decreases between@.len() - j,
        {
            assert(f[j as int] == *between@[j as int]);
            if between[j].has_clause(clause) {
                proof {
                    let t = f[j as int];
                    assert(pred(t));
                    assert(f.contains(t));
                    self.treaties@.lemma_filter_contains_rev(pred, t);
                    let i = choose|i: int| 0 <= i < self.treaties@.len() && self.treaties@[i] == t;
                    assert(self.treaties@[i].active() && self.treaties@[i].between(a@, b@)
                        && self.treaties@[i].holds_clause(*clause));
                }
                return true;
            }
            j = j + 1;
        }
        proof {
            if self.shares_clause(a@, b@, *clause) {
                let i = choose|i: int|
                    0 <= i < self.treaties@.len() && #[trigger] self.treaties@[i].active()
                        && self.treaties@[i].between(a@, b@) && self.treaties@[i].holds_clause(*clause);
                let t = self.treaties@[i];
                assert(pred(t));
                assert(self.treaties@.contains(t));
                assert(f.contains(t));
                let k = choose|k: int| 0 <= k < f.len() && f[k] == t;
                assert(between@.map_values(|t: &Treaty| *t).len() == between@.len());
            }
        }
        false
    }

    /// Signs the first treaty whose ID is `treaty_id` immediately,
    /// bypassing negotiation, provided it is proposed or under
    /// negotiation; a treaty without a duration gets
    /// `default_duration_turns`. Returns whether it was signed.
    pub fn sign_treaty(&mut self, treaty_id: &str, current_turn: u32, default_duration_turns: u32) -> (r: bool)
        ensures
            r == (first_treaty(old(self).treaties@, treaty_id@) matches Some(i) && signable(old(self).treaties@[i])),
            r ==> {
                let i = first_treaty(old(self).treaties@, treaty_id@)->0;
                final(self).treaties@ == old(self).treaties@.update(
                    i, signed(old(self).treaties@[i], current_turn, default_duration_turns))
            },
            !r ==> final(self).treaties@ == old(self).treaties@,
            r ==> {
                let i = first_treaty(old(self).treaties@, treaty_id@)->0;
                let before = old(self).treaties@[i];
                let after = final(self).treaties@[i];
                &&& after.status == TreatyStatus::Active
                &&& after.signed_turn == Some(current_turn)
                &&& before.duration_turns > 0 ==> after.duration_turns == before.duration_turns
                &&& before.duration_turns == 0 ==> after.duration_turns == default_duration_turns
            },
            final(self).next_id == old(self).next_id,
    {
        match find_treaty(&self.treaties, treaty_id) {
            Some(i) => {
                let status = self.treaties[i].status;
                if status == TreatyStatus::Proposed || status == TreatyStatus::Negotiating {
                    self.treaties[i].status = TreatyStatus::Active;
                    self.treaties[i].signed_turn = Some(current_turn);
                    self.treaties[i].negotiation_progress = NEGOTIATION_COMPLETE;
                    if self.treaties[i].duration_turns == 0 {
                        self.treaties[i].duration_turns = default_duration_turns;
                    }
                    true
                } else {
                    false
                }
            },
            None => false,
        }
    }

    /// Abrogates the first treaty whose ID is `treaty_id`, provided it is
    /// active; returns a copy of the abrogated treaty.
    pub fn abrogate_treaty(&mut self, treaty_id: &str) -> (r: Option<Treaty>)
        ensures
            r is Some == (first_treaty(old(self).treaties@, treaty_id@) matches Some(i) && old(self).treaties@[i].active()),
            r matches Some(t) ==> {
                let i = first_treaty(old(self).treaties@, treaty_id@)->0;
                &&& final(self).treaties@ == old(self).treaties@.update(
                    i, Treaty { status: TreatyStatus::Abrogated, ..old(self).treaties@[i] })
                &&& same_treaty(t, final(self).treaties@[i])
            },
            r is None ==> final(self).treaties@ == old(self).treaties@,
            final(self).next_id == old(self).next_id,
    {
        match find_treaty(&self.treaties, treaty_id) {
            Some(i) => {
                if self.treaties[i].status == TreatyStatus::Active {
                    self.treaties[i].status = TreatyStatus::Abrogated;
                    Some(self.treaties[i].clone())
                } else {
                    None
                }
            },
            None => None,
        }
    }

    /// Marks as expired every active treaty whose duration has passed at
    /// `current_turn`.
    pub fn expire_finished_treaties(&mut self, current_turn: u32)
        requires
            forall|i: int|
                0 <= i < old(self).treaties@.len() && (#[trigger] old(self).treaties@[i]).active()
                    ==> (old(self).treaties@[i].signed_turn matches Some(s) ==> s + old(self).treaties@[i].duration_turns <= u32::MAX),
        ensures
            final(self).next_id == old(self).next_id,
            final(self).treaties@.len() == old(self).treaties@.len(),
            forall|i: int| 0 <= i < old(self).treaties@.len() ==> #[trigger] final(self).treaties@[i] == if old(
                self,
            ).treaties@[i].active() && old(self).treaties@[i].expired_at(current_turn as int) {
                Treaty { status: TreatyStatus::Expired, ..old(self).treaties@[i] }
            } else {
                old(self).treaties@[i]
            },
    {
        let ghost orig = self.treaties@;
        let mut k: usize = 0;
        while k < self.treaties.len()
            invariant
                k <= self.treaties@.len(),
                self.treaties@.len() == orig.len(),
                orig == old(self).treaties@,
                self.next_id == old(self).next_id,
                forall|i: int|
                    0 <= i < orig.len() && (#[trigger] orig[i]).active()
                        ==> (orig[i].signed_turn matches Some(s) ==> s + orig[i].duration_turns <= u32::MAX),
                forall|i: int| k <= i < orig.len() ==> #[trigger] self.treaties@[i] == orig[i],
                forall|i: int| 0 <= i < k ==> #[trigger] self.treaties@[i] == if orig[i].active() && orig[i].expired_at(current_turn as int) {
                    Treaty { status: TreatyStatus::Expired, ..orig[i] }
                } else {
                    orig[i]
                },
            decreases orig.len() - k,
        {
            if self.treaties[k].is_active() && self.treaties[k].is_expired(current_turn) {
                self.treaties[k].status = TreatyStatus::Expired;
            }
            k = k + 1;
        }
    }
}

/// A treaty's capacity cost lies between one and four units per clause.
pub proof fn law_treaty_cost_bounds(clauses: Seq<TreatyClause>)
    ensures
        clauses.len() <= clause_cost_sum(clauses) <= 4 * clauses.len(),
    decreases clauses.len(),
{
    if clauses.len() > 0 {
        law_treaty_cost_bounds(clauses.drop_last());
        law_clause_cost_bounds(clauses.last());
    }
}

/// Signing makes a treaty active from the signing turn; with a positive
/// default duration it has not expired at that turn.
pub proof fn law_signed_treaty_in_force(t: Treaty, turn: u32, default_duration: u32)
    requires
        signable(t),
        default_duration > 0,
    ensures
        signed(t, turn, default_duration).active(),
        signed(t, turn, default_duration).signed_turn == Some(turn),
        !signed(t, turn, default_duration).expired_at(turn as int),
        !signable(signed(t, turn, default_duration)),
{
}

/// Signing keeps a treaty's own duration: a treaty negotiated with a
/// duration keeps it, whatever the default, and only a treaty without one
/// takes the default duration.
pub proof fn law_signing_keeps_duration(t: Treaty, turn: u32, default_duration: u32)
    ensures
        t.duration_turns > 0 ==> signed(t, turn, default_duration).duration_turns == t.duration_turns,
        t.duration_turns == 0 ==> signed(t, turn, default_duration).duration_turns == default_duration,
        signed(t, turn, default_duration).id == t.id,
        signed(t, turn, default_duration).participants == t.participants,
{
}

/// Only proposed or negotiating treaties can be signed: an active,
/// suspended, abrogated or expired treaty never is.
pub proof fn law_finished_treaties_cannot_be_signed(t: Treaty)
    requires
        t.status == TreatyStatus::Active || t.status == TreatyStatus::Suspended
            || t.status == TreatyStatus::Abrogated || t.status == TreatyStatus::Expired,
    ensures
        !signable(t),
{
}

/// After expiring finished treaties at `turn`, no active treaty has run
/// its course at `turn`, and treaties that were not active are unchanged.
pub proof fn law_expiry_leaves_no_overdue_treaty(before: Seq<Treaty>, after: Seq<Treaty>, turn: int)
    requires
        after.len() == before.len(),
        forall|i: int| 0 <= i < before.len() ==> #[trigger] after[i] == if before[i].active() && before[i].expired_at(turn) {
            Treaty { status: TreatyStatus::Expired, ..before[i] }
        } else {
            before[i]
        },
    ensures
        forall|i: int| 0 <= i < after.len() && (#[trigger] after[i]).active() ==> !after[i].expired_at(turn),
        forall|i: int| 0 <= i < before.len() && !(#[trigger] before[i]).active() ==> after[i] == before[i],
{
    assert forall|i: int| 0 <= i < after.len() && (#[trigger] after[i]).active() implies !after[i].expired_at(turn) by {
        assert(after[i] == before[i]);
    }
    assert forall|i: int| 0 <= i < before.len() && !(#[trigger] before[i]).active() implies after[i] == before[i] by {
        assert(after[i] == before[i]);
    }
}

} // verus!
