//! International organizations: integration tiers, the council of
//! member-state representatives, membership, and the registry of
//! organizations with its turn of integration.
use vstd::prelude::*;
use crate::text::{str_eq, push_zero_padded, zero_padded};
use crate::international::sanctions::Sanction;

verus! {

/// Integration level of an international organization. Organizations
/// evolve from loose trade areas to political unions.
#[derive(Debug, Clone, Copy, PartialEq, Eq, Hash, Structural)]
pub enum IntegrationLevel {
    /// Loose free trade area: tariff reduction only.
    FreeTradeArea,
    /// Customs union: common external tariffs.
    CustomsUnion,
    /// Common market: free movement of goods, labor, capital.
    CommonMarket,
    /// Economic union: harmonized regulations and fiscal policy.
    EconomicUnion,
    /// Political union: pooled sovereignty, common foreign policy.
    PoliticalUnion,
}

impl Default for IntegrationLevel {
    fn default() -> (r: Self)
        ensures
            r == IntegrationLevel::FreeTradeArea,
    {
        IntegrationLevel::FreeTradeArea
    }
}

impl IntegrationLevel {
    /// Position of the level, from 0 (free trade area) to 4 (political union).
    pub open spec fn rank(self) -> nat {
        match self {
            IntegrationLevel::FreeTradeArea => 0,
            IntegrationLevel::CustomsUnion => 1,
            IntegrationLevel::CommonMarket => 2,
            IntegrationLevel::EconomicUnion => 3,
            IntegrationLevel::PoliticalUnion => 4,
        }
    }

    /// The level one step more integrated, if any.
    pub open spec fn next_level(self) -> Option<IntegrationLevel> {
        match self {
            IntegrationLevel::FreeTradeArea => Some(IntegrationLevel::CustomsUnion),
            IntegrationLevel::CustomsUnion => Some(IntegrationLevel::CommonMarket),
            IntegrationLevel::CommonMarket => Some(IntegrationLevel::EconomicUnion),
            IntegrationLevel::EconomicUnion => Some(IntegrationLevel::PoliticalUnion),
            IntegrationLevel::PoliticalUnion => None,
        }
    }

    /// The human-readable label of the level.
    pub open spec fn label(self) -> Seq<char> {
        match self {
            IntegrationLevel::FreeTradeArea => "Free Trade Area"@,
            IntegrationLevel::CustomsUnion => "Customs Union"@,
            IntegrationLevel::CommonMarket => "Common Market"@,
            IntegrationLevel::EconomicUnion => "Economic Union"@,
            IntegrationLevel::PoliticalUnion => "Political Union"@,
        }
    }

    /// Returns a human-readable label.
    pub fn as_str(&self) -> (r: &'static str)
        ensures
            r@ == self.label(),
    {
        match self {
            IntegrationLevel::FreeTradeArea => "Free Trade Area",
            IntegrationLevel::CustomsUnion => "Customs Union",
            IntegrationLevel::CommonMarket => "Common Market",
            IntegrationLevel::EconomicUnion => "Economic Union",
            IntegrationLevel::PoliticalUnion => "Political Union",
        }
    }

    /// Returns the ordinal for comparison (higher = more integrated).
    pub fn ordinal(&self) -> (r: u8)
        ensures
            r == self.rank(),
    {
        match self {
            IntegrationLevel::FreeTradeArea => 0,
            IntegrationLevel::CustomsUnion => 1,
            IntegrationLevel::CommonMarket => 2,
            IntegrationLevel::EconomicUnion => 3,
            IntegrationLevel::PoliticalUnion => 4,
        }
    }

    /// Advances to the next integration level, if possible.
    pub fn advance(&self) -> (r: Option<IntegrationLevel>)
        ensures
            r == self.next_level(),
    {
        match self {
            IntegrationLevel::FreeTradeArea => Some(IntegrationLevel::CustomsUnion),
            IntegrationLevel::CustomsUnion => Some(IntegrationLevel::CommonMarket),
            IntegrationLevel::CommonMarket => Some(IntegrationLevel::EconomicUnion),
            IntegrationLevel::EconomicUnion => Some(IntegrationLevel::PoliticalUnion),
            IntegrationLevel::PoliticalUnion => None,
        }
    }
}

/// Advancing raises the ordinal by exactly one; only a political union
/// cannot advance; and the ordinal tells levels apart.
pub proof fn law_advance_is_next_ordinal(l: IntegrationLevel, m: IntegrationLevel)
    ensures
        l.next_level() is None <==> l == IntegrationLevel::PoliticalUnion,
        l.next_level() matches Some(n) ==> n.rank() == l.rank() + 1,
        l.rank() == m.rank() ==> l == m,
{
}

/// Council member: one representative per member state.
#[derive(Debug, Clone, PartialEq)]
pub struct CouncilMember {
    /// Country this representative belongs to.
    pub country: String,
    /// Representative VIP name (not yet assigned when `None`).
    pub representative: Option<String>,
    /// Whether this member has veto power.
    pub has_veto: bool,
}

/// The council of an international organization.
#[derive(Debug, Clone, PartialEq)]
pub struct OrgCouncil {
    /// One member per member state.
    pub members: Vec<CouncilMember>,
}

impl Default for OrgCouncil {
    fn default() -> (r: Self)
        ensures
            r.members@ == Seq::<CouncilMember>::empty(),
    {
        OrgCouncil { members: Vec::new() }
    }
}

/// A freshly seated member for `country`: no representative, veto power.
pub open spec fn seated(m: CouncilMember, country: Seq<char>) -> bool {
    m.country@ == country && m.representative is None && m.has_veto
}

/// Whether some member of `members` represents `country`.
pub open spec fn seats(members: Seq<CouncilMember>, country: Seq<char>) -> bool {
    exists|i: int| 0 <= i < members.len() && #[trigger] members[i].country@ == country
}

impl OrgCouncil {
    /// Creates a council with one member, with veto power, per country.
    pub fn from_members(countries: &[String]) -> (r: Self)
        ensures
            r.members@.len() == countries@.len(),
            forall|i: int| 0 <= i < countries@.len() ==> #[trigger] seated(r.members@[i], countries@[i]@),
    {
        let mut members: Vec<CouncilMember> = Vec::new();
        let mut i: usize = 0;
        while i < countries.len()
            invariant
                i <= countries@.len(),
                members@.len() == i,
                forall|j: int| 0 <= j < i ==> #[trigger] seated(members@[j], countries@[j]@),
            decreases countries@.len() - i,
        {
            members.push(CouncilMember { country: countries[i].clone(), representative: None, has_veto: true });
            i = i + 1;
        }
        OrgCouncil { members }
    }

    /// Whether `country` has a seat (a member whose country is `country`).
    fn has_member(&self, country: &str) -> (r: bool)
        ensures
            r == seats(self.members@, country@),
    {
        let mut i: usize = 0;
        while i < self.members.len()
            invariant
                i <= self.members@.len(),
                forall|j: int| 0 <= j < i ==> #[trigger] self.members@[j].country@ != country@,
            decreases self.members@.len() - i,
        {
            if str_eq(self.members[i].country.as_str(), country) {
                return true;
            }
            i = i + 1;
        }
        false
    }

    /// Adds a member state to the council, unless it already has a seat.
    pub fn add_member(&mut self, country: &str)
        ensures
            seats(old(self).members@, country@) ==> final(self).members@ == old(self).members@,
            !seats(old(self).members@, country@) ==> {
                &&& final(self).members@.len() == old(self).members@.len() + 1
                &&& final(self).members@.take(old(self).members@.len() as int) == old(self).members@
                &&& seated(final(self).members@.last(), country@)
            },
    {
        if !self.has_member(country) {
            self.members.push(CouncilMember {
                country: String::from_str(country),
                representative: None,
                has_veto: true,
            });
            assert(self.members@.take(old(self).members@.len() as int) =~= old(self).members@);
        }
    }

    /// Removes every seat of a member state from the council.
    pub fn remove_member(&mut self, country: &str)
        ensures
            final(self).members@ == old(self).members@.filter(|m: CouncilMember| m.country@ != country@),
    {
        let ghost pred = |m: CouncilMember| m.country@ != country@;
        let ghost orig = self.members@;
        let mut rest: Vec<CouncilMember> = Vec::new();
        std::mem::swap(&mut rest, &mut self.members);
        while rest.len() > 0
            invariant
                rest@.len() <= orig.len(),
                rest@ == orig.skip(orig.len() - rest@.len()),
                self.members@ == orig.take(orig.len() - rest@.len()).filter(pred),
                pred == (|m: CouncilMember| m.country@ != country@),
            decreases rest@.len(),
        {
            let ghost k = orig.len() - rest@.len();
            let m = rest.remove(0);
            proof {
                assert(m == orig[k]);
                assert(orig.take(k + 1).drop_last() =~= orig.take(k));
                assert(orig.take(k + 1).last() == orig[k]);
                reveal(Seq::filter);
                assert(rest@ =~= orig.skip(k + 1));
            }
            if !str_eq(m.country.as_str(), country) {
                self.members.push(m);
            }
            assert(self.members@ == orig.take(k + 1).filter(pred));
        }
        assert(orig.take(orig.len() as int) =~= orig);
    }
}

/// Adding a country seats it, and adding it a second time changes nothing.
pub proof fn law_add_member_seats_once(before: Seq<CouncilMember>, after: Seq<CouncilMember>, country: Seq<char>)
    requires
        seats(before, country) ==> after == before,
        !seats(before, country) ==> {
            &&& after.len() == before.len() + 1
            &&& after.take(before.len() as int) == before
            &&& seated(after.last(), country)
        },
    ensures
        seats(after, country),
        forall|c: Seq<char>| seats(before, c) ==> seats(after, c),
{
    if !seats(before, country) {
        assert(after[after.len() - 1].country@ == country);
    }
    assert forall|c: Seq<char>| seats(before, c) implies seats(after, c) by {
        let i = choose|i: int| 0 <= i < before.len() && #[trigger] before[i].country@ == c;
        if !seats(before, country) {
            assert(after.take(before.len() as int)[i] == after[i]);
        }
        assert(after[i].country@ == c);
    }
}

/// Removing a country leaves it without a seat and keeps every other
/// member.
pub proof fn law_remove_member_unseats(before: Seq<CouncilMember>, country: Seq<char>)
    ensures
        !seats(before.filter(|m: CouncilMember| m.country@ != country), country),
        forall|c: Seq<char>| c != country && seats(before, c) ==> seats(before.filter(|m: CouncilMember| m.country@ != country), c),
{
    let pred = |m: CouncilMember| m.country@ != country;
    let f = before.filter(pred);
    broadcast use vstd::seq_lib::group_filter_ensures;
    if seats(f, country) {
        let i = choose|i: int| 0 <= i < f.len() && #[trigger] f[i].country@ == country;
        assert(pred(f[i]));
    }
    assert forall|c: Seq<char>| c != country && seats(before, c) implies seats(f, c) by {
        let i = choose|i: int| 0 <= i < before.len() && #[trigger] before[i].country@ == c;
        assert(pred(before[i]));
        assert(f.contains(before[i]));
        let k = choose|k: int| 0 <= k < f.len() && f[k] == before[i];
        assert(f[k].country@ == c);
    }
}

/// Voting mechanism of an organization. A qualified majority's threshold
/// is a whole percentage of the votes.
#[derive(Debug, Clone, Copy, PartialEq, Eq, Structural)]
pub enum VotingMechanism {
    /// Every member must agree (used by the World Forum).
    Unanimity,
    /// Qualified majority: at least the threshold share of votes.
    QualifiedMajority {
        /// Share of votes required, in percent.
        threshold_percent: u32,
    },
    /// Simple majority: more than half of the votes.
    SimpleMajority,
}

impl Default for VotingMechanism {
    fn default() -> (r: Self)
        ensures
            r == VotingMechanism::Unanimity,
    {
        VotingMechanism::Unanimity
    }
}

impl VotingMechanism {
    /// The human-readable label of the mechanism.
    pub open spec fn label(self) -> Seq<char> {
        match self {
            VotingMechanism::Unanimity => "Unanimity"@,
            VotingMechanism::QualifiedMajority { .. } => "Qualified Majority"@,
            VotingMechanism::SimpleMajority => "Simple Majority"@,
        }
    }

    /// Returns a human-readable label.
    pub fn as_str(&self) -> (r: &'static str)
        ensures
            r@ == self.label(),
    {
        match self {
            VotingMechanism::Unanimity => "Unanimity",
            VotingMechanism::QualifiedMajority { .. } => "Qualified Majority",
            VotingMechanism::SimpleMajority => "Simple Majority",
        }
    }
}

/// An international organization, as far as membership and integration
/// go: its identity, member states, council, integration level, voting
/// mechanism and founding turn.
#[derive(Debug, Clone, PartialEq)]
pub struct InternationalOrganization {
    /// Unique organization ID (e.g., "ORG-000001").
    pub id: String,
    /// Human-readable name (e.g., "World Forum").
    pub name: String,
    /// Member state country names.
    pub member_states: Vec<String>,
    /// Council with member-state representatives.
    pub council: OrgCouncil,
    /// Current integration level.
    pub integration_level: IntegrationLevel,
    /// Voting mechanism for decisions.
    pub voting_mechanism: VotingMechanism,
    /// Turn the organization was founded.
    pub founded_turn: u32,
}

/// The names of the member states of `o`, in order.
pub open spec fn member_names(o: InternationalOrganization) -> Seq<Seq<char>> {
    o.member_states@.map_values(|c: String| c@)
}

/// The council members seated after adding `country` to `before`: the
/// same when it already has a seat, else `before` with a fresh seat for it
/// at the end.
pub open spec fn council_after_add(before: Seq<CouncilMember>, after: Seq<CouncilMember>, country: Seq<char>) -> bool {
    &&& seats(before, country) ==> after == before
    &&& !seats(before, country) ==> {
        &&& after.len() == before.len() + 1
        &&& after.take(before.len() as int) == before
        &&& seated(after.last(), country)
    }
}

fn copy_names(names: &[String]) -> (r: Vec<String>)
    ensures
        r@.map_values(|c: String| c@) == names@.map_values(|c: String| c@),
{
    let mut r: Vec<String> = Vec::new();
    let mut i: usize = 0;
    while i < names.len()
        invariant
            i <= names@.len(),
            r@.map_values(|c: String| c@) == names@.take(i as int).map_values(|c: String| c@),
        decreases names@.len() - i,
    {
        let c = names[i].clone();
        let ghost before = r@;
        r.push(c);
        proof {
            assert(c@ == names@[i as int]@);
            assert(r@ == before.push(c));
            assert(names@.take(i as int + 1) =~= names@.take(i as int).push(names@[i as int]));
            assert(r@.map_values(|c: String| c@) =~= before.map_values(|c: String| c@).push(c@));
        }
        i = i + 1;
        assert(r@.map_values(|c: String| c@) =~= names@.take(i as int).map_values(|c: String| c@));
    }
    assert(names@.take(i as int) =~= names@);
    r
}

impl InternationalOrganization {
    /// Creates the World Forum ("ORG-WORLDFORUM"): every given country a
    /// member with a council seat, a free trade area, unanimity voting.
    pub fn new_world_forum(countries: &[String], founded_turn: u32) -> (r: Self)
        ensures
            r.id@ == "ORG-WORLDFORUM"@,
            r.name@ == "World Forum"@,
            member_names(r) == countries@.map_values(|c: String| c@),
            r.council.members@.len() == countries@.len(),
            forall|i: int| 0 <= i < countries@.len() ==> #[trigger] seated(r.council.members@[i], countries@[i]@),
            r.integration_level == IntegrationLevel::FreeTradeArea,
            r.voting_mechanism == VotingMechanism::Unanimity,
            r.founded_turn == founded_turn,
    {
        InternationalOrganization {
            id: String::from_str("ORG-WORLDFORUM"),
            name: String::from_str("World Forum"),
            member_states: copy_names(countries),
            council: OrgCouncil::from_members(countries),
            integration_level: IntegrationLevel::FreeTradeArea,
            voting_mechanism: VotingMechanism::Unanimity,
            founded_turn,
        }
    }

    /// Creates an organization whose council seats every member state.
    pub fn new(
        id: String,
        name: String,
        member_states: Vec<String>,
        integration_level: IntegrationLevel,
        voting_mechanism: VotingMechanism,
        founded_turn: u32,
    ) -> (r: Self)
        ensures
            r.id == id,
            r.name == name,
            r.member_states == member_states,
            r.council.members@.len() == member_states@.len(),
            forall|i: int| 0 <= i < member_states@.len() ==> #[trigger] seated(r.council.members@[i], member_states@[i]@),
            r.integration_level == integration_level,
            r.voting_mechanism == voting_mechanism,
            r.founded_turn == founded_turn,
    {
        let council = OrgCouncil::from_members(member_states.as_slice());
        InternationalOrganization { id, name, member_states, council, integration_level, voting_mechanism, founded_turn }
    }

    /// Returns true if the given country is a member.
    pub fn is_member(&self, country: &str) -> (r: bool)
        ensures
            r == member_names(*self).contains(country@),
    {
        let mut i: usize = 0;
        while i < self.member_states.len()
            invariant
                i <= self.member_states@.len(),
                forall|j: int| 0 <= j < i ==> #[trigger] self.member_states@[j]@ != country@,
            decreases self.member_states@.len() - i,
        {
            if str_eq(self.member_states[i].as_str(), country) {
                assert(member_names(*self)[i as int] == country@);
                return true;
            }
            i = i + 1;
        }
        assert forall|j: int| 0 <= j < member_names(*self).len() implies member_names(*self)[j] != country@ by {
            assert(self.member_states@[j]@ != country@);
        }
        false
    }

    /// Adds a member state, with a council seat, unless it is a member
    /// already.
    pub fn add_member(&mut self, country: &str)
        ensures
            member_names(*old(self)).contains(country@) ==> *final(self) == *old(self),
            !member_names(*old(self)).contains(country@) ==> {
                &&& member_names(*final(self)) == member_names(*old(self)).push(country@)
                &&& council_after_add(old(self).council.members@, final(self).council.members@, country@)
                &&& final(self).id == old(self).id
                &&& final(self).name == old(self).name
                &&& final(self).integration_level == old(self).integration_level
                &&& final(self).voting_mechanism == old(self).voting_mechanism
                &&& final(self).founded_turn == old(self).founded_turn
            },
    {
        if !self.is_member(country) {
            self.member_states.push(String::from_str(country));
            self.council.add_member(country);
            assert(member_names(*self) =~= member_names(*old(self)).push(country@));
        }
    }

    /// Removes a member state and every council seat it holds.
    pub fn remove_member(&mut self, country: &str)
        ensures
            member_names(*final(self)) == member_names(*old(self)).filter(|c: Seq<char>| c != country@),
            final(self).council.members@ == old(self).council.members@.filter(|m: CouncilMember| m.country@ != country@),
            final(self).id == old(self).id,
            final(self).name == old(self).name,
            final(self).integration_level == old(self).integration_level,
            final(self).voting_mechanism == old(self).voting_mechanism,
            final(self).founded_turn == old(self).founded_turn,
    {
        let ghost pred = |c: Seq<char>| c != country@;
        let ghost orig = member_names(*self);
        let mut kept: Vec<String> = Vec::new();
        let mut i: usize = 0;
        while i < self.member_states.len()
            invariant
                i <= self.member_states@.len(),
                orig == self.member_states@.map_values(|c: String| c@),
                pred == (|c: Seq<char>| c != country@),
                kept@.map_values(|c: String| c@) == orig.take(i as int).filter(pred),
            decreases self.member_states@.len() - i,
        {
            proof {
                assert(orig.take(i as int + 1).drop_last() =~= orig.take(i as int));
                assert(orig.take(i as int + 1).last() == orig[i as int]);
                reveal(Seq::filter);
            }
            if !str_eq(self.member_states[i].as_str(), country) {
                kept.push(self.member_states[i].clone());
            }
            i = i + 1;
            assert(kept@.map_values(|c: String| c@) =~= orig.take(i as int).filter(pred));
        }
        assert(orig.take(i as int) =~= orig);
        self.member_states = kept;
        self.council.remove_member(country);
    }
}

/// Configuration for the integration of organizations.
#[derive(Debug, Clone, PartialEq)]
pub struct OrgConfig {
    /// Minimum turns since founding before integration can advance.
    pub min_turns_for_integration: u32,
    /// Integration level at which voting evolves from unanimity to a
    /// qualified majority.
    pub qmv_integration_threshold: IntegrationLevel,
    /// Qualified-majority threshold, in percent.
    pub qmv_threshold_percent: u32,
}

impl Default for OrgConfig {
    fn default() -> (r: Self)
        ensures
            r.min_turns_for_integration == 50,
            r.qmv_integration_threshold == IntegrationLevel::CommonMarket,
            r.qmv_threshold_percent == 65,
    {
        OrgConfig {
            min_turns_for_integration: 50,
            qmv_integration_threshold: IntegrationLevel::CommonMarket,
            qmv_threshold_percent: 65,
        }
    }
}

/// The integration level of an organization after a turn: one step up
/// once `min_turns_for_integration` turns have passed since its founding
/// (none before turn zero counts), unless it is a political union.
pub open spec fn level_after_turn(o: InternationalOrganization, current_turn: u32, config: OrgConfig) -> IntegrationLevel {
    let since = if current_turn >= o.founded_turn { current_turn - o.founded_turn } else { 0 };
    if since >= config.min_turns_for_integration && o.integration_level.next_level() is Some {
        o.integration_level.next_level()->0
    } else {
        o.integration_level
    }
}

/// The voting mechanism after a turn: unanimity gives way to a qualified
/// majority once the integration level reaches the threshold level.
pub open spec fn voting_after_turn(o: InternationalOrganization, current_turn: u32, config: OrgConfig) -> VotingMechanism {
    if level_after_turn(o, current_turn, config).rank() >= config.qmv_integration_threshold.rank()
        && o.voting_mechanism == VotingMechanism::Unanimity {
        VotingMechanism::QualifiedMajority { threshold_percent: config.qmv_threshold_percent }
    } else {
        o.voting_mechanism
    }
}

/// Registry tracking all international organizations.
#[derive(Debug, Clone, PartialEq)]
pub struct OrganizationRegistry {
    /// All organizations.
    pub organizations: Vec<InternationalOrganization>,
    /// Next auto-increment ID counter.
    pub next_id: u64,
}

impl Default for OrganizationRegistry {
    fn default() -> (r: Self)
        ensures
            r.organizations@ == Seq::<InternationalOrganization>::empty(),
            r.next_id == 0,
    {
        OrganizationRegistry { organizations: Vec::new(), next_id: 0 }
    }
}

/// The index of the first organization at or after `k` with ID `id`.
pub open spec fn first_org_from(orgs: Seq<InternationalOrganization>, id: Seq<char>, k: int) -> Option<int>
    decreases orgs.len() - k,
{
    if k < 0 || k >= orgs.len() {
        None
    } else if orgs[k].id@ == id {
        Some(k)
    } else {
        first_org_from(orgs, id, k + 1)
    }
}

/// Whether some active (not lifted) sanction targets `country`.
pub open spec fn sanctioned(sanctions: Seq<Sanction>, country: Seq<char>) -> bool {
    exists|i: int| 0 <= i < sanctions.len() && (#[trigger] sanctions[i]).target_country@ == country && !sanctions[i].lifted
}

impl OrganizationRegistry {
    /// Generates the next organization ID, `ORG-` and the counter padded
    /// to six digits.
    pub fn next_org_id(&mut self) -> (r: String)
        requires
            old(self).next_id < u64::MAX,
        ensures
            final(self).next_id == old(self).next_id + 1,
            final(self).organizations == old(self).organizations,
            r@ == "ORG-"@ + zero_padded(final(self).next_id as nat, 6),
    {
        self.next_id = self.next_id + 1;
        let mut id = String::from_str("ORG-");
        push_zero_padded(&mut id, self.next_id, 6);
        id
    }

    /// Returns all organizations a country belongs to, in order.
    pub fn orgs_for_country(&self, country: &str) -> (r: Vec<&InternationalOrganization>)
        ensures
            r@.map_values(|o: &InternationalOrganization| *o) == self.organizations@.filter(
                |o: InternationalOrganization| member_names(o).contains(country@),
            ),
    {
        let ghost pred = |o: InternationalOrganization| member_names(o).contains(country@);
        let ghost orgs = self.organizations@;
        let mut r: Vec<&InternationalOrganization> = Vec::new();
        let mut i: usize = 0;
        while i < self.organizations.len()
            invariant
                i <= orgs.len(),
                orgs == self.organizations@,
                pred == (|o: InternationalOrganization| member_names(o).contains(country@)),
                r@.map_values(|o: &InternationalOrganization| *o) == orgs.take(i as int).filter(pred),
            decreases orgs.len() - i,
        {
            proof {
                assert(orgs.take(i as int + 1).drop_last() =~= orgs.take(i as int));
                assert(orgs.take(i as int + 1).last() == orgs[i as int]);
                reveal(Seq::filter);
            }
            if self.organizations[i].is_member(country) {
                r.push(&self.organizations[i]);
            }
            i = i + 1;
            assert(r@.map_values(|o: &InternationalOrganization| *o) =~= orgs.take(i as int).filter(pred));
        }
        assert(orgs.take(i as int) =~= orgs);
        r
    }

    /// Returns the World Forum (the first organization with ID
    /// "ORG-WORLDFORUM"), if it exists.
    pub fn world_forum(&self) -> (r: Option<&InternationalOrganization>)
        ensures
            r is None <==> first_org_from(self.organizations@, "ORG-WORLDFORUM"@, 0) is None,
            r matches Some(o) ==> *o == self.organizations@[first_org_from(self.organizations@, "ORG-WORLDFORUM"@, 0)->0],
    {
        let mut i: usize = 0;
        while i < self.organizations.len()
            invariant
                i <= self.organizations@.len(),
                first_org_from(self.organizations@, "ORG-WORLDFORUM"@, 0) == first_org_from(
                    self.organizations@,
                    "ORG-WORLDFORUM"@,
                    i as int,
                ),
            decreases self.organizations@.len() - i,
        {
            if str_eq(self.organizations[i].id.as_str(), "ORG-WORLDFORUM") {
                return Some(&self.organizations[i]);
            }
            i = i + 1;
        }
        None
    }

    /// Checks whether an active sanction targets the country.
    pub fn is_country_sanctioned(&self, country: &str, sanctions: &[Sanction]) -> (r: bool)
        ensures
            r == sanctioned(sanctions@, country@),
    {
        let mut i: usize = 0;
        while i < sanctions.len()
            invariant
                i <= sanctions@.len(),
                forall|j: int| 0 <= j < i ==> !((#[trigger] sanctions@[j]).target_country@ == country@ && !sanctions@[j].lifted),
            decreases sanctions@.len() - i,
        {
            if str_eq(sanctions[i].target_country.as_str(), country) && sanctions[i].is_active() {
                return true;
            }
            i = i + 1;
        }
        false
    }

    /// Processes a turn for every organization: integration advances once
    /// enough turns have passed since founding, and voting evolves from
    /// unanimity to a qualified majority at the threshold level.
    pub fn process_turn(&mut self, current_turn: u32, config: &OrgConfig)
        ensures
            final(self).next_id == old(self).next_id,
            final(self).organizations@.len() == old(self).organizations@.len(),
            forall|i: int| 0 <= i < old(self).organizations@.len() ==> {
                let a = old(self).organizations@[i];
                let b = #[trigger] final(self).organizations@[i];
                &&& b.integration_level == level_after_turn(a, current_turn, *config)
                &&& b.voting_mechanism == voting_after_turn(a, current_turn, *config)
                &&& b.id == a.id
                &&& b.name == a.name
                &&& b.member_states == a.member_states
                &&& b.council == a.council
                &&& b.founded_turn == a.founded_turn
            },
            forall|i: int| 0 <= i < old(self).organizations@.len() ==> {
                let a = old(self).organizations@[i];
                let b = #[trigger] final(self).organizations@[i];
                &&& config.min_turns_for_integration > 0 && current_turn < a.founded_turn + config.min_turns_for_integration
                    ==> b.integration_level == a.integration_level
                &&& current_turn >= a.founded_turn + config.min_turns_for_integration && a.integration_level.next_level() is Some
                    ==> b.integration_level == a.integration_level.next_level()->0
            },
    {
        let mut i: usize = 0;
        while i < self.organizations.len()
            invariant
                i <= self.organizations@.len(),
                self.next_id == old(self).next_id,
                self.organizations@.len() == old(self).organizations@.len(),
                forall|j: int| i <= j < self.organizations@.len() ==> #[trigger] self.organizations@[j] == old(self).organizations@[j],
                forall|j: int| 0 <= j < i ==> {
                    let a = old(self).organizations@[j];
                    let b = #[trigger] self.organizations@[j];
                    &&& b.integration_level == level_after_turn(a, current_turn, *config)
                    &&& b.voting_mechanism == voting_after_turn(a, current_turn, *config)
                    &&& b.id == a.id
                    &&& b.name == a.name
                    &&& b.member_states == a.member_states
                    &&& b.council == a.council
                    &&& b.founded_turn == a.founded_turn
                },
            decreases self.organizations@.len() - i,
        {
            let founded = self.organizations[i].founded_turn;
            let since: u32 = if current_turn >= founded { current_turn - founded } else { 0 };
            if since >= config.min_turns_for_integration {
                match self.organizations[i].integration_level.advance() {
                    Some(next) => {
                        self.organizations[i].integration_level = next;
                    },
                    None => {},
                }
            }
            if self.organizations[i].integration_level.ordinal() >= config.qmv_integration_threshold.ordinal() {
                if self.organizations[i].voting_mechanism == VotingMechanism::Unanimity {
                    self.organizations[i].voting_mechanism = VotingMechanism::QualifiedMajority {
                        threshold_percent: config.qmv_threshold_percent,
                    };
                }
            }
            i = i + 1;
        }
    }
}

/// A turn never lowers an organization's integration level, raises it by
/// at most one step, and never brings back unanimity.
pub proof fn law_integration_never_regresses(o: InternationalOrganization, current_turn: u32, config: OrgConfig)
    ensures
        o.integration_level.rank() <= level_after_turn(o, current_turn, config).rank() <= o.integration_level.rank() + 1,
        o.voting_mechanism != VotingMechanism::Unanimity ==> voting_after_turn(o, current_turn, config) == o.voting_mechanism,
{
}

/// Integration advances by the turns since founding: an organization
/// younger than `min_turns_for_integration` keeps its level, and one at
/// least that old moves one level up unless it is a political union.
pub proof fn law_integration_counts_from_founding(o: InternationalOrganization, current_turn: u32, config: OrgConfig)
    ensures
        config.min_turns_for_integration > 0 && current_turn < o.founded_turn + config.min_turns_for_integration
            ==> level_after_turn(o, current_turn, config) == o.integration_level,
        current_turn >= o.founded_turn + config.min_turns_for_integration && o.integration_level.next_level() is Some
            ==> level_after_turn(o, current_turn, config).rank() == o.integration_level.rank() + 1,
{
}

/// After a country is added it is a member; after it is removed it is
/// not, and every other member stays.
pub proof fn law_membership_add_remove(names: Seq<Seq<char>>, country: Seq<char>)
    ensures
        (if names.contains(country) { names } else { names.push(country) }).contains(country),
        !names.filter(|c: Seq<char>| c != country).contains(country),
        forall|c: Seq<char>| c != country && names.contains(c) ==> names.filter(|x: Seq<char>| x != country).contains(c),
{
    let pred = |c: Seq<char>| c != country;
    let f = names.filter(pred);
    broadcast use vstd::seq_lib::group_filter_ensures;
    if !names.contains(country) {
        assert(names.push(country)[names.len() as int] == country);
    }
    if f.contains(country) {
        let i = choose|i: int| 0 <= i < f.len() && f[i] == country;
        assert(pred(f[i]));
    }
    assert forall|c: Seq<char>| c != country && names.contains(c) implies f.contains(c) by {
        let i = choose|i: int| 0 <= i < names.len() && names[i] == c;
        assert(pred(names[i]));
    }
}

} // verus!
