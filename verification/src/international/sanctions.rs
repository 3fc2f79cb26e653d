//! Economic sanctions enacted by international organizations.
//!
//! - `TradeEmbargo` blocks the target from the global market,
//! - `AssetFreeze` freezes the target's foreign brokerage accounts,
//! - `FinancialIsolation` blocks aid and investment flows,
//! - `FullEmbargo` combines all three.
//!
//! A sanction is active from its enactment until it is lifted or until
//! `enacted_turn + duration_turns` is reached.
use vstd::prelude::*;
use crate::text::{str_eq, push_zero_padded, zero_padded};

verus! {

/// Type of economic sanction.
#[derive(Debug, Clone, Copy, PartialEq, Eq, Hash, Structural)]
pub enum SanctionType {
    /// Blocks the target from the global market.
    TradeEmbargo,
    /// Freezes the target's foreign brokerage accounts.
    AssetFreeze,
    /// Blocks the target from receiving aid or foreign investment.
    FinancialIsolation,
    /// All three combined: full economic blockade.
    FullEmbargo,
}

impl SanctionType {
    /// Whether this type blocks trade.
    pub open spec fn blocks_trade(self) -> bool {
        self is TradeEmbargo || self is FullEmbargo
    }

    /// Whether this type freezes assets.
    pub open spec fn freezes_assets(self) -> bool {
        self is AssetFreeze || self is FullEmbargo
    }

    /// Whether this type isolates financially.
    pub open spec fn isolates_financially(self) -> bool {
        self is FinancialIsolation || self is FullEmbargo
    }

    /// The human-readable label of this sanction type.
    pub open spec fn label(self) -> Seq<char> {
        match self {
            SanctionType::TradeEmbargo => "Trade Embargo"@,
            SanctionType::AssetFreeze => "Asset Freeze"@,
            SanctionType::FinancialIsolation => "Financial Isolation"@,
            SanctionType::FullEmbargo => "Full Embargo"@,
        }
    }

    /// Returns a human-readable label.
    pub fn as_str(&self) -> (r: &'static str)
        ensures
            r@ == self.label(),
    {
        match self {
            SanctionType::TradeEmbargo => "Trade Embargo",
            SanctionType::AssetFreeze => "Asset Freeze",
            SanctionType::FinancialIsolation => "Financial Isolation",
            SanctionType::FullEmbargo => "Full Embargo",
        }
    }

    /// Returns true if this sanction type includes a trade embargo.
    pub fn includes_trade_embargo(&self) -> (r: bool)
        ensures
            r == self.blocks_trade(),
    {
        matches!(self, SanctionType::TradeEmbargo | SanctionType::FullEmbargo)
    }

    /// Returns true if this sanction type includes an asset freeze.
    pub fn includes_asset_freeze(&self) -> (r: bool)
        ensures
            r == self.freezes_assets(),
    {
        matches!(self, SanctionType::AssetFreeze | SanctionType::FullEmbargo)
    }

    /// Returns true if this sanction type includes financial isolation.
    pub fn includes_financial_isolation(&self) -> (r: bool)
        ensures
            r == self.isolates_financially(),
    {
        matches!(self, SanctionType::FinancialIsolation | SanctionType::FullEmbargo)
    }
}

impl Default for SanctionType {
    fn default() -> (r: Self)
        ensures
            r == SanctionType::FullEmbargo,
    {
        SanctionType::FullEmbargo
    }
}

/// An active or expired sanction against a country.
#[derive(Debug, Clone, PartialEq)]
pub struct Sanction {
    /// Unique sanction ID.
    pub id: String,
    /// Country being sanctioned.
    pub target_country: String,
    /// Organization that enacted the sanction.
    pub sanctioning_org: String,
    /// Type of sanction.
    pub sanction_type: SanctionType,
    /// Turn the sanction was enacted.
    pub enacted_turn: u32,
    /// Duration in turns (the sanction expires at `enacted_turn + duration_turns`).
    pub duration_turns: u32,
    /// Reason for the sanction.
    pub reason: String,
    /// Whether the sanction has been lifted (manually or by expiry).
    pub lifted: bool,
}

impl Sanction {
    /// The turn at which the sanction expires.
    pub open spec fn expiry(self) -> int {
        self.enacted_turn + self.duration_turns
    }

    /// Whether the sanction is in force at `turn`: not lifted and not yet
    /// expired.
    pub open spec fn in_force_at(self, turn: int) -> bool {
        !self.lifted && turn < self.expiry()
    }

    /// Creates a new (not lifted) sanction.
    pub fn new(
        id: String,
        target_country: String,
        sanctioning_org: String,
        sanction_type: SanctionType,
        enacted_turn: u32,
        duration_turns: u32,
        reason: String,
    ) -> (r: Self)
        ensures
            r == (Sanction {
                id,
                target_country,
                sanctioning_org,
                sanction_type,
                enacted_turn,
                duration_turns,
                reason,
                lifted: false,
            }),
    {
        Sanction {
            id,
            target_country,
            sanctioning_org,
            sanction_type,
            enacted_turn,
            duration_turns,
            reason,
            lifted: false,
        }
    }

    /// Returns the turn when the sanction expires.
    pub fn expires_at(&self) -> (r: u32)
        requires
            self.expiry() <= u32::MAX,
        ensures
            r == self.expiry(),
    {
        self.enacted_turn + self.duration_turns
    }

    /// Returns true if the sanction has not been lifted.
    pub fn is_active(&self) -> (r: bool)
        ensures
            r == !self.lifted,
    {
        !self.lifted
    }

    /// Returns true if the sanction is not lifted and has not expired at
    /// `current_turn`.
    pub fn is_active_at(&self, current_turn: u32) -> (r: bool)
        ensures
            r == self.in_force_at(current_turn as int),
    {
        !self.lifted && (current_turn as u64) < (self.enacted_turn as u64) + (self.duration_turns as u64)
    }

    /// Lifts the sanction manually.
    pub fn lift(&mut self)
        ensures
            *final(self) == (Sanction { lifted: true, ..*old(self) }),
    {
        self.lifted = true;
    }
}

/// Whether `s` is in force against `country` at `turn`.
pub open spec fn in_force_against(s: Sanction, country: Seq<char>, turn: int) -> bool {
    s.target_country@ == country && s.in_force_at(turn)
}

/// The sanctions of `s` that are in force against `country` at `turn`,
/// in registry order.
pub open spec fn in_force_against_seq(s: Seq<Sanction>, country: Seq<char>, turn: int) -> Seq<Sanction>
    decreases s.len(),
{
    if s.len() == 0 {
        Seq::empty()
    } else {
        let rest = in_force_against_seq(s.drop_last(), country, turn);
        if in_force_against(s.last(), country, turn) {
            rest.push(s.last())
        } else {
            rest
        }
    }
}

/// The sanctions of `s` that are in force at `turn`, in registry order.
pub open spec fn in_force_seq(s: Seq<Sanction>, turn: int) -> Seq<Sanction>
    decreases s.len(),
{
    if s.len() == 0 {
        Seq::empty()
    } else {
        let rest = in_force_seq(s.drop_last(), turn);
        if s.last().in_force_at(turn) {
            rest.push(s.last())
        } else {
            rest
        }
    }
}

/// Registry tracking all active and expired sanctions.
#[derive(Debug, Clone, PartialEq)]
pub struct SanctionRegistry {
    /// All sanctions (active, expired, lifted).
    pub sanctions: Vec<Sanction>,
    /// Next auto-increment ID counter.
    pub next_id: u64,
}

impl Default for SanctionRegistry {
    fn default() -> (r: Self)
        ensures
            r.sanctions@ == Seq::<Sanction>::empty(),
            r.next_id == 0,
    {
        SanctionRegistry { sanctions: Vec::new(), next_id: 0 }
    }
}

impl SanctionRegistry {
    /// Whether some sanction of a type satisfying `kind` is in force
    /// against `country` at `turn`.
    pub open spec fn has_in_force(self, country: Seq<char>, turn: int, kind: spec_fn(SanctionType) -> bool) -> bool {
        exists|i: int|
            0 <= i < self.sanctions@.len() && #[trigger] in_force_against(self.sanctions@[i], country, turn)
                && kind(self.sanctions@[i].sanction_type)
    }

    /// Generates the next sanction ID, `SANCTION-` followed by the new
    /// counter value padded to six digits.
    pub fn next_sanction_id(&mut self) -> (r: String)
        requires
            old(self).next_id < u64::MAX,
        ensures
            final(self).next_id == old(self).next_id + 1,
            final(self).sanctions == old(self).sanctions,
            r@ == "SANCTION-"@ + zero_padded(final(self).next_id as nat, 6),
    {
        self.next_id = self.next_id + 1;
        let mut s = String::from_str("SANCTION-");
        push_zero_padded(&mut s, self.next_id, 6);
        s
    }

    /// Returns all sanctions in force against `country` at `current_turn`.
    pub fn active_sanctions_against(&self, country: &str, current_turn: u32) -> (r: Vec<&Sanction>)
        ensures
            r@.map_values(|s: &Sanction| *s) == in_force_against_seq(self.sanctions@, country@, current_turn as int),
    {
        let mut r: Vec<&Sanction> = Vec::new();
        let mut i: usize = 0;
        while i < self.sanctions.len()
            invariant
                i <= self.sanctions@.len(),
                r@.map_values(|s: &Sanction| *s) == in_force_against_seq(self.sanctions@.take(i as int), country@, current_turn as int),
            decreases self.sanctions@.len() - i,
        {
            let s = &self.sanctions[i];
            proof {
                assert(self.sanctions@.take(i as int + 1).drop_last() =~= self.sanctions@.take(i as int));
            }
            if str_eq(s.target_country.as_str(), country) && s.is_active_at(current_turn) {
                r.push(s);
            }
            i = i + 1;
            assert(r@.map_values(|s: &Sanction| *s) =~= in_force_against_seq(self.sanctions@.take(i as int), country@, current_turn as int));
        }
        assert(self.sanctions@.take(i as int) =~= self.sanctions@);
        r
    }

    /// Returns true if `country` is under an active trade embargo.
    pub fn has_trade_embargo(&self, country: &str, current_turn: u32) -> (r: bool)
        ensures
            r == self.has_in_force(country@, current_turn as int, |t: SanctionType| t.blocks_trade()),
    {
        let active = self.active_sanctions_against(country, current_turn);
        let ghost f = in_force_against_seq(self.sanctions@, country@, current_turn as int);
        let ghost kind = |t: SanctionType| t.blocks_trade();
        let mut found = false;
        let mut j: usize = 0;
        while j < active.len()
            invariant
                kind == (|t: SanctionType| t.blocks_trade()),
                j <= active@.len(),
                active@.map_values(|s: &Sanction| *s) == f,
                found == exists|k: int| 0 <= k < j && kind(#[trigger] f[k].sanction_type),
            decreases active@.len() - j,
        {
            assert(f[j as int] == *active@[j as int]);
            let b = active[j].sanction_type.includes_trade_embargo();
            if b {
                found = true;
            }
            proof {
                assert(kind(f[j as int].sanction_type) == b);
            }
            j = j + 1;
        }
        proof {
            self.lemma_has_in_force(country@, current_turn as int, kind);
        }
        found
    }

    /// Returns true if `country` is under an active asset freeze.
    pub fn has_asset_freeze(&self, country: &str, current_turn: u32) -> (r: bool)
        ensures
            r == self.has_in_force(country@, current_turn as int, |t: SanctionType| t.freezes_assets()),
    {
        let active = self.active_sanctions_against(country, current_turn);
        let ghost f = in_force_against_seq(self.sanctions@, country@, current_turn as int);
        let ghost kind = |t: SanctionType| t.freezes_assets();
        let mut found = false;
        let mut j: usize = 0;
        while j < active.len()
            invariant
                kind == (|t: SanctionType| t.freezes_assets()),
                j <= active@.len(),
                active@.map_values(|s: &Sanction| *s) == f,
                found == exists|k: int| 0 <= k < j && kind(#[trigger] f[k].sanction_type),
            decreases active@.len() - j,
        {
            assert(f[j as int] == *active@[j as int]);
            let b = active[j].sanction_type.includes_asset_freeze();
            if b {
                found = true;
            }
            proof {
                assert(kind(f[j as int].sanction_type) == b);
            }
            j = j + 1;
        }
        proof {
            self.lemma_has_in_force(country@, current_turn as int, kind);
        }
        found
    }

    /// Returns true if `country` is under active financial isolation.
    pub fn has_financial_isolation(&self, country: &str, current_turn: u32) -> (r: bool)
        ensures
            r == self.has_in_force(country@, current_turn as int, |t: SanctionType| t.isolates_financially()),
    {
        let active = self.active_sanctions_against(country, current_turn);
        let ghost f = in_force_against_seq(self.sanctions@, country@, current_turn as int);
        let ghost kind = |t: SanctionType| t.isolates_financially();
        let mut found = false;
        let mut j: usize = 0;
        while j < active.len()
            invariant
                kind == (|t: SanctionType| t.isolates_financially()),
                j <= active@.len(),
                active@.map_values(|s: &Sanction| *s) == f,
                found == exists|k: int| 0 <= k < j && kind(#[trigger] f[k].sanction_type),
            decreases active@.len() - j,
        {
            assert(f[j as int] == *active@[j as int]);
            let b = active[j].sanction_type.includes_financial_isolation();
            if b {
                found = true;
            }
            proof {
                assert(kind(f[j as int].sanction_type) == b);
            }
            j = j + 1;
        }
        proof {
            self.lemma_has_in_force(country@, current_turn as int, kind);
        }
        found
    }

    /// Returns true if `country` is under any active sanction.
    pub fn is_sanctioned(&self, country: &str, current_turn: u32) -> (r: bool)
        ensures
            r == self.has_in_force(country@, current_turn as int, |t: SanctionType| true),
    {
        let active = self.active_sanctions_against(country, current_turn);
        proof {
            let f = in_force_against_seq(self.sanctions@, country@, current_turn as int);
            self.lemma_has_in_force(country@, current_turn as int, |t: SanctionType| true);
            assert(active@.map_values(|s: &Sanction| *s).len() == active@.len());
            if f.len() > 0 {
                assert((|t: SanctionType| true)(f[0].sanction_type));
            }
        }
        !active.is_empty()
    }

    /// Enacts a new sanction (appends it to the registry).
    pub fn enact_sanction(&mut self, sanction: Sanction)
        ensures
            final(self).sanctions@ == old(self).sanctions@.push(sanction),
            final(self).next_id == old(self).next_id,
    {
        self.sanctions.push(sanction);
    }

    /// Lifts the first sanction whose ID is `sanction_id`; returns whether
    /// one was found.
    pub fn lift_sanction(&mut self, sanction_id: &str) -> (r: bool)
        ensures
            final(self).next_id == old(self).next_id,
            r == exists|i: int| 0 <= i < old(self).sanctions@.len() && #[trigger] old(self).sanctions@[i].id@ == sanction_id@,
            !r ==> final(self).sanctions@ == old(self).sanctions@,
            r ==> exists|k: int|
                0 <= k < old(self).sanctions@.len() && old(self).sanctions@[k].id@ == sanction_id@
                && (forall|j: int| 0 <= j < k ==> #[trigger] old(self).sanctions@[j].id@ != sanction_id@)
                && final(self).sanctions@ == old(self).sanctions@.update(k, Sanction { lifted: true, ..old(self).sanctions@[k] }),
    {
        let mut i: usize = 0;
        while i < self.sanctions.len()
            invariant
                i <= self.sanctions@.len(),
                self.sanctions@ == old(self).sanctions@,
                self.next_id == old(self).next_id,
                forall|j: int| 0 <= j < i ==> #[trigger] self.sanctions@[j].id@ != sanction_id@,
            decreases self.sanctions@.len() - i,
        {
            if str_eq(self.sanctions[i].id.as_str(), sanction_id) {
                self.sanctions[i].lift();
                assert(self.sanctions@ =~= old(self).sanctions@.update(i as int, Sanction { lifted: true, ..old(self).sanctions@[i as int] }));
                return true;
            }
            i = i + 1;
        }
        false
    }

    /// Marks as lifted every sanction whose duration has run out at
    /// `current_turn`.
    pub fn expire_finished_sanctions(&mut self, current_turn: u32)
        ensures
            final(self).next_id == old(self).next_id,
            final(self).sanctions@.len() == old(self).sanctions@.len(),
            forall|i: int| 0 <= i < old(self).sanctions@.len() ==> #[trigger] final(self).sanctions@[i] == (Sanction {
                lifted: old(self).sanctions@[i].lifted || current_turn >= old(self).sanctions@[i].expiry(),
                ..old(self).sanctions@[i]
            }),
    {
        let mut i: usize = 0;
        while i < self.sanctions.len()
            invariant
                i <= self.sanctions@.len(),
                self.sanctions@.len() == old(self).sanctions@.len(),
                self.next_id == old(self).next_id,
                forall|j: int| 0 <= j < i ==> #[trigger] self.sanctions@[j] == (Sanction {
                    lifted: old(self).sanctions@[j].lifted || current_turn >= old(self).sanctions@[j].expiry(),
                    ..old(self).sanctions@[j]
                }),
                forall|j: int| i <= j < self.sanctions@.len() ==> #[trigger] self.sanctions@[j] == old(self).sanctions@[j],
            decreases self.sanctions@.len() - i,
        {
            let expired = !self.sanctions[i].lifted
                && (current_turn as u64) >= (self.sanctions[i].enacted_turn as u64) + (self.sanctions[i].duration_turns as u64);
            if expired {
                self.sanctions[i].lifted = true;
            }
            i = i + 1;
        }
    }

    /// Returns all sanctions in force at `current_turn`.
    pub fn active_sanctions(&self, current_turn: u32) -> (r: Vec<&Sanction>)
        ensures
            r@.map_values(|s: &Sanction| *s) == in_force_seq(self.sanctions@, current_turn as int),
    {
        let mut r: Vec<&Sanction> = Vec::new();
        let mut i: usize = 0;
        while i < self.sanctions.len()
            invariant
                i <= self.sanctions@.len(),
                r@.map_values(|s: &Sanction| *s) == in_force_seq(self.sanctions@.take(i as int), current_turn as int),
            decreases self.sanctions@.len() - i,
        {
            let s = &self.sanctions[i];
            proof {
                assert(self.sanctions@.take(i as int + 1).drop_last() =~= self.sanctions@.take(i as int));
            }
            if s.is_active_at(current_turn) {
                r.push(s);
            }
            i = i + 1;
            assert(r@.map_values(|s: &Sanction| *s) =~= in_force_seq(self.sanctions@.take(i as int), current_turn as int));
        }
        assert(self.sanctions@.take(i as int) =~= self.sanctions@);
        r
    }

    /// The filtered sequence holds exactly the sanctions in force against
    /// `country`; `has_in_force` is the same as some element of it
    /// satisfying `kind`.
    pub proof fn lemma_has_in_force(self, country: Seq<char>, turn: int, kind: spec_fn(SanctionType) -> bool)
        ensures
            self.has_in_force(country, turn, kind) <==> exists|k: int|
                0 <= k < in_force_against_seq(self.sanctions@, country, turn).len()
                && kind(#[trigger] in_force_against_seq(self.sanctions@, country, turn)[k].sanction_type),
    {
        let s = self.sanctions@;
        let f = in_force_against_seq(s, country, turn);
        lemma_in_force_against_members(s, country, turn);
        if self.has_in_force(country, turn, kind) {
            let i = choose|i: int| 0 <= i < s.len() && #[trigger] in_force_against(s[i], country, turn) && kind(s[i].sanction_type);
            assert(s.contains(s[i]));
            assert(f.contains(s[i]));
            let k = choose|k: int| 0 <= k < f.len() && f[k] == s[i];
            assert(kind(f[k].sanction_type));
        }
        if exists|k: int| 0 <= k < f.len() && kind(#[trigger] f[k].sanction_type) {
            let k = choose|k: int| 0 <= k < f.len() && kind(#[trigger] f[k].sanction_type);
            assert(f.contains(f[k]));
            let i = choose|i: int| 0 <= i < s.len() && s[i] == f[k];
            assert(in_force_against(s[i], country, turn) && kind(s[i].sanction_type));
        }
    }
}

/// Membership in `in_force_against_seq`: an element belongs to it exactly
/// when it belongs to the registry and is in force against `country`.
pub proof fn lemma_in_force_against_members(s: Seq<Sanction>, country: Seq<char>, turn: int)
    ensures
        forall|x: Sanction| #[trigger] in_force_against_seq(s, country, turn).contains(x)
            <==> (s.contains(x) && in_force_against(x, country, turn)),
    decreases s.len(),
{
    if s.len() > 0 {
        let init = s.drop_last();
        lemma_in_force_against_members(init, country, turn);
        assert(s =~= init.push(s.last()));
        assert forall|x: Sanction| #[trigger] in_force_against_seq(s, country, turn).contains(x)
            <==> (s.contains(x) && in_force_against(x, country, turn)) by {
            let rest = in_force_against_seq(init, country, turn);
            if s.contains(x) && in_force_against(x, country, turn) {
                let i = choose|i: int| 0 <= i < s.len() && s[i] == x;
                if i < s.len() - 1 {
                    assert(init[i] == x);
                    assert(init.contains(x));
                    assert(rest.contains(x));
                    let k = choose|k: int| 0 <= k < rest.len() && rest[k] == x;
                    if in_force_against(s.last(), country, turn) {
                        assert(rest.push(s.last())[k] == x);
                    }
                } else {
                    assert(rest.push(s.last())[rest.len() as int] == x);
                }
            }
            if in_force_against_seq(s, country, turn).contains(x) {
                if in_force_against(s.last(), country, turn) {
                    let f = rest.push(s.last());
                    let k = choose|k: int| 0 <= k < f.len() && f[k] == x;
                    if k < rest.len() {
                        assert(rest[k] == x);
                        assert(rest.contains(x));
                        let i = choose|i: int| 0 <= i < init.len() && init[i] == x;
                        assert(s[i] == x);
                    } else {
                        assert(s[s.len() - 1] == x);
                    }
                } else {
                    assert(rest.contains(x));
                    let i = choose|i: int| 0 <= i < init.len() && init[i] == x;
                    assert(s[i] == x);
                }
            }
        }
    }
}

/// A full embargo is exactly the sanction type that blocks trade, freezes
/// assets and isolates financially at once.
pub proof fn law_full_embargo_is_all_three(t: SanctionType)
    ensures
        (t.blocks_trade() && t.freezes_assets() && t.isolates_financially()) <==> t == SanctionType::FullEmbargo,
{
}

/// Any embargo, freeze or isolation in force makes the country sanctioned.
pub proof fn law_specific_sanction_implies_sanctioned(
    r: SanctionRegistry,
    country: Seq<char>,
    turn: int,
    kind: spec_fn(SanctionType) -> bool,
)
    requires
        r.has_in_force(country, turn, kind),
    ensures
        r.has_in_force(country, turn, |t: SanctionType| true),
{
    let i = choose|i: int|
        0 <= i < r.sanctions@.len() && #[trigger] in_force_against(r.sanctions@[i], country, turn)
            && kind(r.sanctions@[i].sanction_type);
    assert((|t: SanctionType| true)(r.sanctions@[i].sanction_type));
}

/// Enacting a sanction that is not lifted puts its target under it, with
/// each of its effects, at every turn before it expires.
pub proof fn law_enacted_sanction_in_force(before: SanctionRegistry, after: SanctionRegistry, s: Sanction, turn: int)
    requires
        after.sanctions@ == before.sanctions@.push(s),
        !s.lifted,
        turn < s.expiry(),
    ensures
        after.has_in_force(s.target_country@, turn, |t: SanctionType| true),
        s.sanction_type.blocks_trade() ==> after.has_in_force(s.target_country@, turn, |t: SanctionType| t.blocks_trade()),
        s.sanction_type.freezes_assets() ==> after.has_in_force(s.target_country@, turn, |t: SanctionType| t.freezes_assets()),
        s.sanction_type.isolates_financially() ==> after.has_in_force(
            s.target_country@,
            turn,
            |t: SanctionType| t.isolates_financially(),
        ),
{
    let i = before.sanctions@.len() as int;
    assert(after.sanctions@[i] == s);
    assert(in_force_against(after.sanctions@[i], s.target_country@, turn));
    assert((|t: SanctionType| true)(after.sanctions@[i].sanction_type));
}

/// Lifting a sanction takes it out of force at every turn and never puts
/// any country under a new sanction.
pub proof fn law_lift_only_removes(
    before: SanctionRegistry,
    after: SanctionRegistry,
    k: int,
    country: Seq<char>,
    turn: int,
    kind: spec_fn(SanctionType) -> bool,
)
    requires
        0 <= k < before.sanctions@.len(),
        after.sanctions@ == before.sanctions@.update(k, Sanction { lifted: true, ..before.sanctions@[k] }),
    ensures
        !after.sanctions@[k].in_force_at(turn),
        after.has_in_force(country, turn, kind) ==> before.has_in_force(country, turn, kind),
{
    if after.has_in_force(country, turn, kind) {
        let i = choose|i: int|
            0 <= i < after.sanctions@.len() && #[trigger] in_force_against(after.sanctions@[i], country, turn)
                && kind(after.sanctions@[i].sanction_type);
        assert(i != k);
        assert(before.sanctions@[i] == after.sanctions@[i]);
        assert(in_force_against(before.sanctions@[i], country, turn));
    }
}

/// Expiring finished sanctions at `turn` does not change which sanctions
/// are in force at `turn`, and afterwards every sanction that is not lifted
/// expires after `turn`.
pub proof fn law_expiry_keeps_current_turn(
    before: SanctionRegistry,
    after: SanctionRegistry,
    turn: int,
    country: Seq<char>,
    kind: spec_fn(SanctionType) -> bool,
)
    requires
        after.sanctions@.len() == before.sanctions@.len(),
        forall|i: int| 0 <= i < before.sanctions@.len() ==> #[trigger] after.sanctions@[i] == (Sanction {
            lifted: before.sanctions@[i].lifted || turn >= before.sanctions@[i].expiry(),
            ..before.sanctions@[i]
        }),
    ensures
        after.has_in_force(country, turn, kind) == before.has_in_force(country, turn, kind),
        forall|i: int| 0 <= i < after.sanctions@.len() && !#[trigger] after.sanctions@[i].lifted ==> turn < after.sanctions@[i].expiry(),
{
    if after.has_in_force(country, turn, kind) {
        let i = choose|i: int|
            0 <= i < after.sanctions@.len() && #[trigger] in_force_against(after.sanctions@[i], country, turn)
                && kind(after.sanctions@[i].sanction_type);
        assert(in_force_against(before.sanctions@[i], country, turn));
    }
    if before.has_in_force(country, turn, kind) {
        let i = choose|i: int|
            0 <= i < before.sanctions@.len() && #[trigger] in_force_against(before.sanctions@[i], country, turn)
                && kind(before.sanctions@[i].sanction_type);
        assert(in_force_against(after.sanctions@[i], country, turn));
    }
}

} // verus!
