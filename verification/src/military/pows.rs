//! Prisoners of war: internment, forced labor assignments, repatriation
//! and the bookkeeping of a country's POW camp.
use vstd::prelude::*;
use crate::geography::RuralClass;
use crate::text::str_eq;

verus! {

/// Status of a POW in the lifecycle.
#[derive(Debug, Clone, Copy, PartialEq, Eq, Hash, Structural)]
pub enum PowStatus {
    /// Newly captured, being processed into internment.
    Captured,
    /// Held in an internment camp (not working).
    Interned,
    /// Leased to a factory for forced labor.
    ForcedLabor,
    /// Being repatriated to home country.
    Repatriated,
    /// Died in captivity.
    Deceased,
}

/// A prisoner of war: origin, capture context, labor assignment and
/// lifecycle status.
#[derive(Debug, PartialEq)]
pub struct PrisonerOfWar {
    /// Unique POW ID (e.g., "POW-COUNTRY-00001").
    pub id: String,
    /// Country that captured this POW.
    pub captor_country: String,
    /// Country the POW was captured from.
    pub origin_country: String,
    /// Turn when the POW was captured.
    pub capture_turn: u32,
    /// Region where the POW is interned.
    pub internment_region: String,
    /// Original rural class of the POW (for demographic routing on
    /// repatriation).
    pub origin_class: RuralClass,
    /// Current status of the POW.
    pub status: PowStatus,
    /// Factory ID the POW is leased to (if working).
    pub assigned_factory_id: Option<String>,
}

impl Clone for PrisonerOfWar {
    fn clone(&self) -> (r: Self)
        ensures
            r == *self,
    {
        let assigned_factory_id = match &self.assigned_factory_id {
            Some(f) => Some(f.clone()),
            None => None,
        };
        PrisonerOfWar {
            id: self.id.clone(),
            captor_country: self.captor_country.clone(),
            origin_country: self.origin_country.clone(),
            capture_turn: self.capture_turn,
            internment_region: self.internment_region.clone(),
            origin_class: self.origin_class,
            status: self.status,
            assigned_factory_id,
        }
    }
}

/// Whether a POW is still held: neither dead nor repatriated.
pub open spec fn held(p: PrisonerOfWar) -> bool {
    p.status != PowStatus::Deceased && p.status != PowStatus::Repatriated
}

/// Whether a POW is interned and free to be leased.
pub open spec fn interned(p: PrisonerOfWar) -> bool {
    p.status == PowStatus::Interned
}

/// Whether a POW is leased to a factory.
pub open spec fn laboring(p: PrisonerOfWar) -> bool {
    p.status == PowStatus::ForcedLabor
}

/// `p` with a new status and factory assignment.
pub open spec fn with_assignment(p: PrisonerOfWar, status: PowStatus, factory: Option<String>) -> PrisonerOfWar {
    PrisonerOfWar { status: status, assigned_factory_id: factory, ..p }
}

/// `p` sent home: repatriated, with no factory assignment.
pub open spec fn sent_home(p: PrisonerOfWar) -> PrisonerOfWar {
    with_assignment(p, PowStatus::Repatriated, None)
}

/// Whether a repatriation from `country` takes `p`: it comes from there
/// and is alive.
pub open spec fn repatriable_from(p: PrisonerOfWar, country: Seq<char>) -> bool {
    p.origin_country@ == country && p.status != PowStatus::Deceased
}

/// The first index at or after `k` of a POW with ID `id`.
pub open spec fn first_pow_from(ps: Seq<PrisonerOfWar>, id: Seq<char>, k: int) -> Option<int>
    decreases ps.len() - k,
{
    if k < 0 || k >= ps.len() {
        None
    } else if ps[k].id@ == id {
        Some(k)
    } else {
        first_pow_from(ps, id, k + 1)
    }
}

/// The index of the first POW with ID `id`.
pub open spec fn first_pow(ps: Seq<PrisonerOfWar>, id: Seq<char>) -> Option<int> {
    first_pow_from(ps, id, 0)
}

proof fn lemma_first_pow_bounds(ps: Seq<PrisonerOfWar>, id: Seq<char>, k: int)
    requires
        0 <= k,
    ensures
        first_pow_from(ps, id, k) matches Some(i) ==> k <= i < ps.len() && ps[i].id@ == id,
    decreases ps.len() - k,
{
    if k < ps.len() && ps[k].id@ != id {
        lemma_first_pow_bounds(ps, id, k + 1);
    }
}

/// Finds the first POW with ID `id`.
fn find_pow(ps: &Vec<PrisonerOfWar>, id: &str) -> (r: Option<usize>)
    ensures
        r matches Some(i) ==> first_pow(ps@, id@) == Some(i as int) && i < ps@.len(),
        r is None ==> first_pow(ps@, id@) is None,
{
    proof {
        lemma_first_pow_bounds(ps@, id@, 0);
    }
    let mut k: usize = 0;
    while k < ps.len()
        invariant
            k <= ps.len(),
            first_pow(ps@, id@) == first_pow_from(ps@, id@, k as int),
        decreases ps.len() - k,
    {
        if str_eq(ps[k].id.as_str(), id) {
            assert(first_pow_from(ps@, id@, k as int) == Some(k as int));
            return Some(k);
        }
        k = k + 1;
    }
    None
}

/// Whether a status is counted: any but `a` and `b` when `any_but`,
/// otherwise exactly `a`.
pub open spec fn status_counted(s: PowStatus, a: PowStatus, b: PowStatus, any_but: bool) -> bool {
    if any_but { s != a && s != b } else { s == a }
}

/// Counts the POWs of `ps` whose status is counted.
fn count_pows(ps: &Vec<PrisonerOfWar>, a: PowStatus, b: PowStatus, any_but: bool) -> (r: usize)
    ensures
        r == ps@.filter(|p: PrisonerOfWar| status_counted(p.status, a, b, any_but)).len(),
{
    let ghost pred = |p: PrisonerOfWar| status_counted(p.status, a, b, any_but);
    let mut n: usize = 0;
    let mut k: usize = 0;
    while k < ps.len()
        invariant
            k <= ps.len(),
            n == ps@.take(k as int).filter(pred).len(),
            n <= k,
            pred == (|p: PrisonerOfWar| status_counted(p.status, a, b, any_but)),
        decreases ps.len() - k,
    {
        proof {
            assert(ps@.take(k as int + 1).drop_last() =~= ps@.take(k as int));
            reveal(Seq::filter);
        }
        let s = ps[k].status;
        let counted = if any_but { s != a && s != b } else { s == a };
        if counted {
            n = n + 1;
        }
        k = k + 1;
    }
    assert(ps@.take(ps@.len() as int) =~= ps@);
    n
}

/// POW camp state for a country: all POWs it holds and its running
/// totals.
#[derive(Debug, Clone, PartialEq)]
pub struct PowCamp {
    /// All POWs held by this country.
    pub prisoners: Vec<PrisonerOfWar>,
    /// Total POWs ever captured (for historical tracking).
    pub total_ever_captured: i64,
    /// Total POWs who died in captivity.
    pub total_deceased: i64,
    /// Total POWs repatriated.
    pub total_repatriated: i64,
}

impl Default for PowCamp {
    fn default() -> (r: Self)
        ensures
            r.prisoners@.len() == 0,
            r.total_ever_captured == 0,
            r.total_deceased == 0,
            r.total_repatriated == 0,
    {
        PowCamp { prisoners: Vec::new(), total_ever_captured: 0, total_deceased: 0, total_repatriated: 0 }
    }
}

impl PowCamp {
    /// Creates a new empty POW camp.
    pub fn new() -> (r: Self)
        ensures
            r.prisoners@.len() == 0,
            r.total_ever_captured == 0,
            r.total_deceased == 0,
            r.total_repatriated == 0,
    {
        PowCamp::default()
    }

    /// Current count of POWs (excluding deceased and repatriated).
    pub fn current_count(&self) -> (r: i64)
        requires
            self.prisoners@.len() <= i64::MAX,
        ensures
            r == self.prisoners@.filter(|p: PrisonerOfWar| held(p)).len(),
    {
        let n = count_pows(&self.prisoners, PowStatus::Deceased, PowStatus::Repatriated, true);
        proof {
            assert((|p: PrisonerOfWar| held(p)) =~= (|p: PrisonerOfWar| status_counted(p.status, PowStatus::Deceased, PowStatus::Repatriated, true)));
        }
        n as i64
    }

    /// Count of POWs available for forced labor (interned, not yet
    /// assigned).
    pub fn available_for_labor(&self) -> (r: i64)
        requires
            self.prisoners@.len() <= i64::MAX,
        ensures
            r == self.prisoners@.filter(|p: PrisonerOfWar| interned(p)).len(),
    {
        let n = count_pows(&self.prisoners, PowStatus::Interned, PowStatus::Interned, false);
        proof {
            assert((|p: PrisonerOfWar| interned(p)) =~= (|p: PrisonerOfWar| status_counted(p.status, PowStatus::Interned, PowStatus::Interned, false)));
        }
        n as i64
    }

    /// Count of POWs currently in forced labor.
    pub fn in_forced_labor(&self) -> (r: i64)
        requires
            self.prisoners@.len() <= i64::MAX,
        ensures
            r == self.prisoners@.filter(|p: PrisonerOfWar| laboring(p)).len(),
    {
        let n = count_pows(&self.prisoners, PowStatus::ForcedLabor, PowStatus::ForcedLabor, false);
        proof {
            assert((|p: PrisonerOfWar| laboring(p)) =~= (|p: PrisonerOfWar| status_counted(p.status, PowStatus::ForcedLabor, PowStatus::ForcedLabor, false)));
        }
        n as i64
    }

    /// Adds newly captured POWs to the camp.
    pub fn add_prisoners(&mut self, new_prisoners: Vec<PrisonerOfWar>)
        requires
            new_prisoners@.len() <= i64::MAX,
            old(self).total_ever_captured + new_prisoners@.len() <= i64::MAX,
        ensures
            final(self).prisoners@ == old(self).prisoners@ + new_prisoners@,
            final(self).total_ever_captured == old(self).total_ever_captured + new_prisoners@.len(),
            final(self).total_deceased == old(self).total_deceased,
            final(self).total_repatriated == old(self).total_repatriated,
    {
        let mut new_prisoners = new_prisoners;
        let added = new_prisoners.len();
        self.total_ever_captured = self.total_ever_captured + added as i64;
        self.prisoners.append(&mut new_prisoners);
    }

    /// Leases the first POW with ID `pow_id` to factory `factory_id`,
    /// provided it is interned. Returns whether it was assigned.
    pub fn assign_to_factory(&mut self, pow_id: &str, factory_id: &str) -> (r: bool)
        ensures
            r == (first_pow(old(self).prisoners@, pow_id@) matches Some(i) && interned(old(self).prisoners@[i])),
            r ==> {
                let i = first_pow(old(self).prisoners@, pow_id@)->0;
                let f = final(self).prisoners@[i].assigned_factory_id;
                &&& f matches Some(name) && name@ == factory_id@
                &&& final(self).prisoners@ == old(self).prisoners@.update(
                    i, with_assignment(old(self).prisoners@[i], PowStatus::ForcedLabor, f))
            },
            !r ==> final(self).prisoners@ == old(self).prisoners@,
            final(self).total_ever_captured == old(self).total_ever_captured,
            final(self).total_deceased == old(self).total_deceased,
            final(self).total_repatriated == old(self).total_repatriated,
    {
        match find_pow(&self.prisoners, pow_id) {
            Some(i) => {
                if self.prisoners[i].status == PowStatus::Interned {
                    self.prisoners[i].status = PowStatus::ForcedLabor;
                    self.prisoners[i].assigned_factory_id = Some(String::from_str(factory_id));
                    true
                } else {
                    false
                }
            },
            None => false,
        }
    }

    /// Returns the first POW with ID `pow_id` from factory labor to
    /// internment, provided it is laboring. Returns whether it was
    /// released.
    pub fn release_from_factory(&mut self, pow_id: &str) -> (r: bool)
        ensures
            r == (first_pow(old(self).prisoners@, pow_id@) matches Some(i) && laboring(old(self).prisoners@[i])),
            r ==> {
                let i = first_pow(old(self).prisoners@, pow_id@)->0;
                final(self).prisoners@ == old(self).prisoners@.update(
                    i, with_assignment(old(self).prisoners@[i], PowStatus::Interned, None))
            },
            !r ==> final(self).prisoners@ == old(self).prisoners@,
            final(self).total_ever_captured == old(self).total_ever_captured,
            final(self).total_deceased == old(self).total_deceased,
            final(self).total_repatriated == old(self).total_repatriated,
    {
        match find_pow(&self.prisoners, pow_id) {
            Some(i) => {
                if self.prisoners[i].status == PowStatus::ForcedLabor {
                    self.prisoners[i].status = PowStatus::Interned;
                    self.prisoners[i].assigned_factory_id = None;
                    true
                } else {
                    false
                }
            },
            None => false,
        }
    }

    /// Repatriates the first POW with ID `pow_id`, unless it has died:
    /// its status becomes `Repatriated` (its factory assignment is kept)
    /// and a copy of it is returned.
    pub fn repatriate(&mut self, pow_id: &str) -> (r: Option<PrisonerOfWar>)
        requires
            old(self).total_repatriated < i64::MAX,
        ensures
            r is Some == (first_pow(old(self).prisoners@, pow_id@) matches Some(i)
                && old(self).prisoners@[i].status != PowStatus::Deceased),
            r matches Some(p) ==> {
                let i = first_pow(old(self).prisoners@, pow_id@)->0;
                let q = with_assignment(old(self).prisoners@[i], PowStatus::Repatriated, old(self).prisoners@[i].assigned_factory_id);
                &&& p == q
                &&& final(self).prisoners@ == old(self).prisoners@.update(i, q)
                &&& final(self).total_repatriated == old(self).total_repatriated + 1
            },
            r is None ==> final(self).prisoners@ == old(self).prisoners@
                && final(self).total_repatriated == old(self).total_repatriated,
            final(self).total_ever_captured == old(self).total_ever_captured,
            final(self).total_deceased == old(self).total_deceased,
    {
        match find_pow(&self.prisoners, pow_id) {
            Some(i) => {
                if self.prisoners[i].status != PowStatus::Deceased {
                    self.prisoners[i].status = PowStatus::Repatriated;
                    self.total_repatriated = self.total_repatriated + 1;
                    Some(self.prisoners[i].clone())
                } else {
                    None
                }
            },
            None => None,
        }
    }

    /// Removes deceased and repatriated POWs from the list.
    pub fn cleanup(&mut self)
        ensures
            final(self).prisoners@ == old(self).prisoners@.filter(|p: PrisonerOfWar| held(p)),
            final(self).total_ever_captured == old(self).total_ever_captured,
            final(self).total_deceased == old(self).total_deceased,
            final(self).total_repatriated == old(self).total_repatriated,
    {
        let ghost pred = |p: PrisonerOfWar| held(p);
        let ghost orig = self.prisoners@;
        let mut rest: Vec<PrisonerOfWar> = Vec::new();
        std::mem::swap(&mut rest, &mut self.prisoners);
        while rest.len() > 0
            invariant
                rest@.len() <= orig.len(),
                rest@ == orig.skip(orig.len() - rest@.len()),
                self.prisoners@ == orig.take(orig.len() - rest@.len()).filter(pred),
                pred == (|p: PrisonerOfWar| held(p)),
                self.total_ever_captured == old(self).total_ever_captured,
                self.total_deceased == old(self).total_deceased,
                self.total_repatriated == old(self).total_repatriated,
            decreases rest@.len(),
        {
            let ghost k = orig.len() - rest@.len();
            let p = rest.remove(0);
            proof {
                assert(p == orig[k]);
                assert(orig.take(k + 1).drop_last() =~= orig.take(k));
                assert(orig.take(k + 1).last() == orig[k]);
                reveal(Seq::filter);
                assert(rest@ =~= orig.skip(k + 1));
            }
            if p.status != PowStatus::Deceased && p.status != PowStatus::Repatriated {
                self.prisoners.push(p);
            }
            assert(self.prisoners@ == orig.take(k + 1).filter(pred));
        }
        assert(orig.take(orig.len() as int) =~= orig);
    }
}

/// Repatriates every living POW of the camp that comes from
/// `origin_country`: each becomes `Repatriated` with no factory
/// assignment, and copies of them are returned in camp order.
pub fn repatriate_pows_from_country(pow_camp: &mut PowCamp, origin_country: &str) -> (r: Vec<PrisonerOfWar>)
    requires
        old(pow_camp).prisoners@.len() <= i64::MAX,
        old(pow_camp).total_repatriated + old(pow_camp).prisoners@.len() <= i64::MAX,
    ensures
        final(pow_camp).prisoners@.len() == old(pow_camp).prisoners@.len(),
        forall|i: int|
            0 <= i < old(pow_camp).prisoners@.len() ==> #[trigger] final(pow_camp).prisoners@[i] == if repatriable_from(
                old(pow_camp).prisoners@[i],
                origin_country@,
            ) {
                sent_home(old(pow_camp).prisoners@[i])
            } else {
                old(pow_camp).prisoners@[i]
            },
        r@ == old(pow_camp).prisoners@.filter(|p: PrisonerOfWar| repatriable_from(p, origin_country@)).map_values(
            |p: PrisonerOfWar| sent_home(p),
        ),
        final(pow_camp).total_repatriated == old(pow_camp).total_repatriated + r@.len(),
        final(pow_camp).total_ever_captured == old(pow_camp).total_ever_captured,
        final(pow_camp).total_deceased == old(pow_camp).total_deceased,
        forall|i: int|
            0 <= i < old(pow_camp).prisoners@.len() ==> {
                let a = old(pow_camp).prisoners@[i];
                let b = #[trigger] final(pow_camp).prisoners@[i];
                &&& a.origin_country@ == origin_country@ && a.status != PowStatus::Deceased ==> b.status
                    == PowStatus::Repatriated && b.assigned_factory_id is None && b.id == a.id
                &&& !(a.origin_country@ == origin_country@ && a.status != PowStatus::Deceased) ==> b == a
            },
        r@.len() == old(pow_camp).prisoners@.filter(
            |p: PrisonerOfWar| p.origin_country@ == origin_country@ && p.status != PowStatus::Deceased,
        ).len(),
{
    let ghost orig = pow_camp.prisoners@;
    let ghost pred = |p: PrisonerOfWar| repatriable_from(p, origin_country@);
    let ghost home = |p: PrisonerOfWar| sent_home(p);
    let mut repatriated: Vec<PrisonerOfWar> = Vec::new();
    let mut k: usize = 0;
    while k < pow_camp.prisoners.len()
        invariant
            k <= pow_camp.prisoners@.len(),
            pow_camp.prisoners@.len() == orig.len(),
            forall|i: int| k <= i < orig.len() ==> #[trigger] pow_camp.prisoners@[i] == orig[i],
            forall|i: int|
                0 <= i < k ==> #[trigger] pow_camp.prisoners@[i] == if repatriable_from(orig[i], origin_country@) {
                    sent_home(orig[i])
                } else {
                    orig[i]
                },
            repatriated@ == orig.take(k as int).filter(pred).map_values(home),
            repatriated@.len() <= k,
            pred == (|p: PrisonerOfWar| repatriable_from(p, origin_country@)),
            home == (|p: PrisonerOfWar| sent_home(p)),
            pow_camp.total_repatriated == old(pow_camp).total_repatriated,
            pow_camp.total_ever_captured == old(pow_camp).total_ever_captured,
            pow_camp.total_deceased == old(pow_camp).total_deceased,
        decreases orig.len() - k,
    {
        proof {
            assert(orig.take(k as int + 1).drop_last() =~= orig.take(k as int));
            assert(orig.take(k as int + 1).last() == orig[k as int]);
            reveal(Seq::filter);
            orig.take(k as int).filter(pred).lemma_filter_len(pred);
        }
        if str_eq(pow_camp.prisoners[k].origin_country.as_str(), origin_country)
            && pow_camp.prisoners[k].status != PowStatus::Deceased {
            pow_camp.prisoners[k].status = PowStatus::Repatriated;
            pow_camp.prisoners[k].assigned_factory_id = None;
            let copy = pow_camp.prisoners[k].clone();
            repatriated.push(copy);
            proof {
                assert(repatriated@ =~= orig.take(k as int + 1).filter(pred).map_values(home));
            }
        } else {
            proof {
                assert(repatriated@ =~= orig.take(k as int + 1).filter(pred).map_values(home));
            }
        }
        k = k + 1;
    }
    proof {
        assert(orig.take(orig.len() as int) =~= orig);
    }
    let count = repatriated.len();
    pow_camp.total_repatriated = pow_camp.total_repatriated + count as i64;
    assert((|p: PrisonerOfWar| p.origin_country@ == origin_country@ && p.status != PowStatus::Deceased) =~= pred);
    repatriated
}

/// The sum of the code points of `s`.
pub open spec fn char_sum(s: Seq<char>) -> int
    decreases s.len(),
{
    if s.len() == 0 {
        0
    } else {
        char_sum(s.drop_last()) + (s.last() as u32)
    }
}

/// The deterministic attrition roll of a POW ID: the sum of its code
/// points, multiplied by 2654435761 modulo 2^32, reduced modulo
/// `u32::MAX`.
pub open spec fn attrition_roll(id: Seq<char>) -> int {
    ((char_sum(id) * 2654435761) % 0x1_0000_0000) % 0xFFFF_FFFF
}

/// Whether a POW dies of attrition this turn: it is interned or laboring
/// and its roll falls below `threshold`.
pub open spec fn succumbs(p: PrisonerOfWar, threshold: u32) -> bool {
    &&& (interned(p) || laboring(p))
    &&& attrition_roll(p.id@) < threshold
}

proof fn lemma_char_sum_prefix(s: Seq<char>, k: int)
    requires
        0 <= k <= s.len(),
    ensures
        char_sum(s.take(k)) <= char_sum(s),
    decreases s.len() - k,
{
    if k < s.len() {
        lemma_char_sum_prefix(s, k + 1);
        assert(s.take(k + 1).drop_last() =~= s.take(k));
    } else {
        assert(s.take(k) =~= s);
    }
}

/// Whether the POW with ID `id` dies of attrition under `threshold`.
fn attrition_check(id: &str, threshold: u32) -> (r: bool)
    requires
        char_sum(id@) <= u32::MAX,
    ensures
        r == (attrition_roll(id@) < threshold),
{
    let n = id.unicode_len();
    let mut hash: u32 = 0;
    let mut k: usize = 0;
    while k < n
        invariant
            k <= n,
            n == id@.len(),
            char_sum(id@) <= u32::MAX,
            hash == char_sum(id@.take(k as int)),
        decreases n - k,
    {
        proof {
            assert(id@.take(k as int + 1).drop_last() =~= id@.take(k as int));
            lemma_char_sum_prefix(id@, k as int + 1);
        }
        let c = id.get_char(k);
        hash = hash + c as u32;
        k = k + 1;
    }
    assert(id@.take(n as int) =~= id@);
    let mixed = hash.wrapping_mul(2654435761u32);
    mixed % u32::MAX < threshold
}

impl PowCamp {
    /// Processes POW attrition: every interned or laboring POW whose
    /// deterministic roll falls below `attrition_threshold` dies. Returns
    /// the number of deaths, which is added to the camp's total.
    pub fn process_attrition(&mut self, attrition_threshold: u32) -> (r: i64)
        requires
            forall|i: int|
                0 <= i < old(self).prisoners@.len() && (interned(#[trigger] old(self).prisoners@[i]) || laboring(old(self).prisoners@[i]))
                    ==> char_sum(old(self).prisoners@[i].id@) <= u32::MAX,
            old(self).prisoners@.len() <= i64::MAX,
            old(self).total_deceased + old(self).prisoners@.filter(|p: PrisonerOfWar| succumbs(p, attrition_threshold)).len() <= i64::MAX,
        ensures
            final(self).prisoners@.len() == old(self).prisoners@.len(),
            forall|i: int|
                0 <= i < old(self).prisoners@.len() ==> #[trigger] final(self).prisoners@[i] == if succumbs(
                    old(self).prisoners@[i],
                    attrition_threshold,
                ) {
                    with_assignment(old(self).prisoners@[i], PowStatus::Deceased, old(self).prisoners@[i].assigned_factory_id)
                } else {
                    old(self).prisoners@[i]
                },
            r == old(self).prisoners@.filter(|p: PrisonerOfWar| succumbs(p, attrition_threshold)).len(),
            final(self).total_deceased == old(self).total_deceased + r,
            final(self).total_ever_captured == old(self).total_ever_captured,
            final(self).total_repatriated == old(self).total_repatriated,
    {
        let ghost orig = self.prisoners@;
        let ghost pred = |p: PrisonerOfWar| succumbs(p, attrition_threshold);
        let mut deaths: i64 = 0;
        let mut k: usize = 0;
        while k < self.prisoners.len()
            invariant
                k <= self.prisoners@.len(),
                self.prisoners@.len() == orig.len(),
                orig.len() <= i64::MAX,
                forall|i: int|
                    0 <= i < orig.len() && (interned(#[trigger] orig[i]) || laboring(orig[i]))
                        ==> char_sum(orig[i].id@) <= u32::MAX,
                forall|i: int| k <= i < orig.len() ==> #[trigger] self.prisoners@[i] == orig[i],
                forall|i: int|
                    0 <= i < k ==> #[trigger] self.prisoners@[i] == if succumbs(orig[i], attrition_threshold) {
                        with_assignment(orig[i], PowStatus::Deceased, orig[i].assigned_factory_id)
                    } else {
                        orig[i]
                    },
                deaths == orig.take(k as int).filter(pred).len(),
                deaths <= k,
                pred == (|p: PrisonerOfWar| succumbs(p, attrition_threshold)),
                self.total_deceased == old(self).total_deceased,
                self.total_ever_captured == old(self).total_ever_captured,
                self.total_repatriated == old(self).total_repatriated,
            decreases orig.len() - k,
        {
            proof {
                assert(orig.take(k as int + 1).drop_last() =~= orig.take(k as int));
                assert(orig.take(k as int + 1).last() == orig[k as int]);
                reveal(Seq::filter);
            }
            let status = self.prisoners[k].status;
            if status == PowStatus::Interned || status == PowStatus::ForcedLabor {
                if attrition_check(self.prisoners[k].id.as_str(), attrition_threshold) {
                    self.prisoners[k].status = PowStatus::Deceased;
                    deaths = deaths + 1;
                }
            }
            k = k + 1;
        }
        proof {
            assert(orig.take(orig.len() as int) =~= orig);
        }
        self.total_deceased = self.total_deceased + deaths;
        deaths
    }
}

impl PowCamp {
    /// The number of POWs that die of attrition under
    /// `attrition_threshold` this turn, without changing the camp.
    pub fn attrition_count(&self, attrition_threshold: u32) -> (r: usize)
        requires
            forall|i: int|
                0 <= i < self.prisoners@.len() && (interned(#[trigger] self.prisoners@[i]) || laboring(self.prisoners@[i]))
                    ==> char_sum(self.prisoners@[i].id@) <= u32::MAX,
        ensures
            r == self.prisoners@.filter(|p: PrisonerOfWar| succumbs(p, attrition_threshold)).len(),
    {
        let ghost orig = self.prisoners@;
        let ghost pred = |p: PrisonerOfWar| succumbs(p, attrition_threshold);
        let mut count: usize = 0;
        let mut k: usize = 0;
        while k < self.prisoners.len()
            invariant
                k <= orig.len(),
                orig == self.prisoners@,
                forall|i: int|
                    0 <= i < orig.len() && (interned(#[trigger] orig[i]) || laboring(orig[i]))
                        ==> char_sum(orig[i].id@) <= u32::MAX,
                count == orig.take(k as int).filter(pred).len(),
                count <= k,
                pred == (|p: PrisonerOfWar| succumbs(p, attrition_threshold)),
            decreases orig.len() - k,
        {
            proof {
                assert(orig.take(k as int + 1).drop_last() =~= orig.take(k as int));
                assert(orig.take(k as int + 1).last() == orig[k as int]);
                reveal(Seq::filter);
            }
            let status = self.prisoners[k].status;
            if status == PowStatus::Interned || status == PowStatus::ForcedLabor {
                if attrition_check(self.prisoners[k].id.as_str(), attrition_threshold) {
                    count = count + 1;
                }
            }
            k = k + 1;
        }
        proof {
            assert(orig.take(orig.len() as int) =~= orig);
        }
        count
    }
}

/// Every living POW from a country is repatriated when that country's
/// POWs are sent home, whatever it was doing (interned, laboring in a
/// factory, just captured): it becomes repatriated with no factory; a dead
/// one or one from elsewhere is not taken.
pub proof fn law_every_living_pow_goes_home(p: PrisonerOfWar, country: Seq<char>)
    ensures
        p.origin_country@ == country && p.status != PowStatus::Deceased ==> repatriable_from(p, country),
        p.status == PowStatus::Deceased || p.origin_country@ != country ==> !repatriable_from(p, country),
        sent_home(p).status == PowStatus::Repatriated,
        sent_home(p).assigned_factory_id is None,
        sent_home(p).id == p.id && sent_home(p).origin_country == p.origin_country,
{
}

/// Leasing an interned POW that has no factory assignment and then
/// releasing it leaves the camp's list of POWs as it was.
pub proof fn law_assign_then_release_restores(ps: Seq<PrisonerOfWar>, i: int, factory: Option<String>)
    requires
        0 <= i < ps.len(),
        interned(ps[i]),
        ps[i].assigned_factory_id is None,
    ensures
        ({
            let leased = ps.update(i, with_assignment(ps[i], PowStatus::ForcedLabor, factory));
            &&& laboring(leased[i])
            &&& leased.update(i, with_assignment(leased[i], PowStatus::Interned, None)) == ps
        }),
{
    let leased = ps.update(i, with_assignment(ps[i], PowStatus::ForcedLabor, factory));
    assert(leased.update(i, with_assignment(leased[i], PowStatus::Interned, None)) =~= ps);
}

proof fn lemma_filter_keeps_all(s: Seq<PrisonerOfWar>, pred: spec_fn(PrisonerOfWar) -> bool)
    requires
        forall|k: int| 0 <= k < s.len() ==> pred(#[trigger] s[k]),
    ensures
        s.filter(pred) == s,
    decreases s.len(),
{
    reveal(Seq::filter);
    if s.len() > 0 {
        lemma_filter_keeps_all(s.drop_last(), pred);
        assert(s.drop_last().push(s.last()) =~= s);
    } else {
        assert(s.filter(pred) =~= s);
    }
}

/// After a cleanup every POW left is held, so the current count equals
/// the length of the list, and a second cleanup changes nothing.
pub proof fn law_cleanup_leaves_only_held(ps: Seq<PrisonerOfWar>)
    ensures
        ({
            let cleaned = ps.filter(|p: PrisonerOfWar| held(p));
            &&& forall|k: int| 0 <= k < cleaned.len() ==> held(#[trigger] cleaned[k])
            &&& cleaned.filter(|p: PrisonerOfWar| held(p)) == cleaned
        }),
{
    let pred = |p: PrisonerOfWar| held(p);
    let cleaned = ps.filter(pred);
    broadcast use vstd::seq_lib::group_filter_ensures;
    lemma_filter_keeps_all(cleaned, pred);
}

/// Repatriation never brings the dead back: a repatriation from any
/// country leaves a deceased POW as it was, and every POW it touches
/// ends up repatriated and unassigned.
pub proof fn law_repatriation_spares_the_dead(p: PrisonerOfWar, country: Seq<char>)
    ensures
        p.status == PowStatus::Deceased ==> !repatriable_from(p, country),
        repatriable_from(p, country) ==> !held(sent_home(p)) && sent_home(p).assigned_factory_id is None,
{
}

} // verus!
