//! Diplomatic posts: the caps on how many diplomats of each kind a country
//! may post to one host, and counting the diplomats a country has posted.
use vstd::prelude::*;
use crate::text::str_eq;
use crate::international::fog_of_war::IntelLevel;

verus! {

/// Kind of diplomatic post a VIP can hold abroad.
#[derive(Debug, Clone, Copy, PartialEq, Eq, Hash, Structural)]
pub enum DiplomaticPostType {
    /// Chief of mission.
    Ambassador,
    /// Consular representation.
    Consul,
    /// Covert intelligence officer.
    Spy,
    /// Defense liaison.
    MilitaryAttache,
}

/// A VIP's posting abroad.
#[derive(Debug, Clone, PartialEq)]
pub struct DiplomaticPost {
    /// Country the VIP is posted to.
    pub host_country: String,
    /// Kind of post.
    pub post_type: DiplomaticPostType,
}

/// A VIP of a country's registry, as far as diplomacy reads it.
#[derive(Debug, Clone, PartialEq)]
pub struct PostedVip {
    /// VIP identifier.
    pub id: String,
    /// The VIP's posting abroad, if any.
    pub diplomatic_post: Option<DiplomaticPost>,
}

/// A country's VIP registry, as far as diplomacy reads it. A country may
/// have no registry at all.
#[derive(Debug, Clone, PartialEq)]
pub struct CountryDiplomats {
    /// Country name.
    pub name: String,
    /// The country's VIPs, or `None` when it keeps no VIP registry.
    pub vip_registry: Option<Vec<PostedVip>>,
}

/// Whether `v` holds a post of kind `t` in `host`.
pub open spec fn posted_at(v: PostedVip, host: Seq<char>, t: DiplomaticPostType) -> bool {
    v.diplomatic_post matches Some(p) && p.host_country@ == host && p.post_type == t
}

/// Number of VIPs of `vips` holding a post of kind `t` in `host`.
pub open spec fn count_posts(vips: Seq<PostedVip>, host: Seq<char>, t: DiplomaticPostType) -> nat
    decreases vips.len(),
{
    if vips.len() == 0 {
        0
    } else {
        count_posts(vips.drop_last(), host, t) + if posted_at(vips.last(), host, t) { 1nat } else { 0nat }
    }
}

/// The VIPs of a country's registry (empty when it has none).
pub open spec fn roster_of(c: CountryDiplomats) -> Seq<PostedVip> {
    match c.vip_registry {
        Some(v) => v@,
        None => Seq::empty(),
    }
}

/// Index of the first country named `name` at or after `i`.
pub open spec fn find_country_from(countries: Seq<CountryDiplomats>, name: Seq<char>, i: int) -> Option<int>
    decreases countries.len() - i,
{
    if i < 0 || i >= countries.len() {
        None
    } else if countries[i].name@ == name {
        Some(i)
    } else {
        find_country_from(countries, name, i + 1)
    }
}

/// Index of the first country named `name`.
pub open spec fn find_country(countries: Seq<CountryDiplomats>, name: Seq<char>) -> Option<int> {
    find_country_from(countries, name, 0)
}

/// Number of diplomats of kind `t` that `home` has posted to `host`.
pub open spec fn diplomat_count(countries: Seq<CountryDiplomats>, home: Seq<char>, host: Seq<char>, t: DiplomaticPostType) -> nat {
    match find_country(countries, home) {
        None => 0,
        Some(i) => count_posts(roster_of(countries[i]), host, t),
    }
}

proof fn lemma_find_country_from_bounds(countries: Seq<CountryDiplomats>, name: Seq<char>, i: int)
    ensures
        find_country_from(countries, name, i) matches Some(k) ==> i <= k < countries.len() && countries[k].name@ == name,
    decreases countries.len() - i,
{
    if 0 <= i < countries.len() && countries[i].name@ != name {
        lemma_find_country_from_bounds(countries, name, i + 1);
    }
}

/// Position of the first country named `name`.
pub(crate) fn position_of_country(countries: &[CountryDiplomats], name: &str) -> (r: Option<usize>)
    ensures
        r matches Some(i) ==> find_country(countries@, name@) == Some(i as int),
        r is None ==> find_country(countries@, name@) is None,
        r matches Some(i) ==> i < countries@.len(),
{
    let mut i: usize = 0;
    while i < countries.len()
        invariant
            i <= countries@.len(),
            find_country_from(countries@, name@, 0) == find_country_from(countries@, name@, i as int),
        decreases countries@.len() - i,
    {
        if str_eq(countries[i].name.as_str(), name) {
            return Some(i);
        }
        i = i + 1;
    }
    None
}

/// Number of VIPs in `vips` posted to `host` as `post_type`.
pub(crate) fn count_posted(vips: &Vec<PostedVip>, host: &str, post_type: DiplomaticPostType) -> (r: usize)
    ensures
        r == count_posts(vips@, host@, post_type),
{
    let mut n: usize = 0;
    let mut i: usize = 0;
    while i < vips.len()
        invariant
            i <= vips@.len(),
            n == count_posts(vips@.take(i as int), host@, post_type),
            n <= i,
        decreases vips@.len() - i,
    {
        proof {
            assert(vips@.take(i as int + 1).drop_last() =~= vips@.take(i as int));
        }
        let hit = match &vips[i].diplomatic_post {
            Some(post) => str_eq(post.host_country.as_str(), host) && post.post_type == post_type,
            None => false,
        };
        if hit {
            n = n + 1;
        }
        i = i + 1;
    }
    assert(vips@.take(i as int) =~= vips@);
    n
}

/// Maximum number of diplomats of each kind that a country can post to a
/// single host country.
#[derive(Debug, Clone, PartialEq)]
pub struct DiplomaticPostCap {
    /// Maximum ambassadors per host country.
    pub ambassador: usize,
    /// Maximum consuls per host country.
    pub consul: usize,
    /// Maximum spies per host country.
    pub spy: usize,
    /// Maximum military attachés per host country.
    pub military_attache: usize,
}

impl Default for DiplomaticPostCap {
    fn default() -> (r: Self)
        ensures
            r.ambassador == 1,
            r.consul == 2,
            r.spy == 3,
            r.military_attache == 1,
    {
        DiplomaticPostCap { ambassador: 1, consul: 2, spy: 3, military_attache: 1 }
    }
}

impl DiplomaticPostCap {
    /// The cap for posts of kind `t`.
    pub open spec fn cap(self, t: DiplomaticPostType) -> usize {
        match t {
            DiplomaticPostType::Ambassador => self.ambassador,
            DiplomaticPostType::Consul => self.consul,
            DiplomaticPostType::Spy => self.spy,
            DiplomaticPostType::MilitaryAttache => self.military_attache,
        }
    }

    /// Returns the cap for a given diplomatic post type.
    pub fn for_post_type(&self, post_type: &DiplomaticPostType) -> (r: usize)
        ensures
            r == self.cap(*post_type),
    {
        match post_type {
            DiplomaticPostType::Ambassador => self.ambassador,
            DiplomaticPostType::Consul => self.consul,
            DiplomaticPostType::Spy => self.spy,
            DiplomaticPostType::MilitaryAttache => self.military_attache,
        }
    }
}

/// Counts the diplomats of kind `post_type` posted from `home` to `host`
/// (0 when `home` is unknown or keeps no VIP registry).
pub fn count_diplomats(countries: &[CountryDiplomats], home: &str, host: &str, post_type: &DiplomaticPostType) -> (r: usize)
    ensures
        r == diplomat_count(countries@, home@, host@, *post_type),
{
    match position_of_country(countries, home) {
        None => 0,
        Some(i) => match &countries[i].vip_registry {
            None => 0,
            Some(vips) => count_posted(vips, host, *post_type),
        },
    }
}

/// One country's standing toward a partner: the relations score, how
/// long it stays frozen, and the trade terms in force.
#[derive(Debug, Clone, PartialEq)]
pub struct DiplomaticRelation {
    /// Relations score, -100 to 100.
    pub relations: i64,
    /// Turns the relation stays frozen.
    pub frozen_turns: i64,
    /// Imports from this partner are blocked.
    pub ban_import: bool,
    /// Exports to this partner are blocked.
    pub ban_export: bool,
    /// A free-trade agreement is in force.
    pub free_trade: bool,
    /// A customs union is in force.
    pub customs_union: bool,
    /// An investment treaty is in force.
    pub investment_treaty: bool,
    /// Both countries belong to an economic community.
    pub economic_community: bool,
    /// Active treaty description.
    pub treaty_description: String,
}

/// A diplomatic relation as a mathematical value.
pub struct RelationModel {
    /// Relations score.
    pub relations: int,
    /// Turns the relation stays frozen.
    pub frozen_turns: int,
    /// Imports blocked.
    pub ban_import: bool,
    /// Exports blocked.
    pub ban_export: bool,
    /// Free trade in force.
    pub free_trade: bool,
    /// Customs union in force.
    pub customs_union: bool,
    /// Investment treaty in force.
    pub investment_treaty: bool,
    /// Economic community.
    pub economic_community: bool,
    /// Treaty description.
    pub treaty_description: Seq<char>,
}

impl View for DiplomaticRelation {
    type V = RelationModel;

    open spec fn view(&self) -> RelationModel {
        RelationModel {
            relations: self.relations as int,
            frozen_turns: self.frozen_turns as int,
            ban_import: self.ban_import,
            ban_export: self.ban_export,
            free_trade: self.free_trade,
            customs_union: self.customs_union,
            investment_treaty: self.investment_treaty,
            economic_community: self.economic_community,
            treaty_description: self.treaty_description@,
        }
    }
}

/// The relation a new diplomacy matrix starts with for a drawn score: no
/// freeze and no treaty ("None"); a hostile score (below -50) bans trade
/// both ways and a friendly one (above 50) starts free trade, each when
/// its draw `trade_roll` hits.
pub open spec fn initial_relation_of(relations: i64, trade_roll: bool) -> RelationModel {
    RelationModel {
        relations: relations as int,
        frozen_turns: 0,
        ban_import: relations < -50 && trade_roll,
        ban_export: relations < -50 && trade_roll,
        free_trade: relations > 50 && trade_roll,
        customs_union: false,
        investment_treaty: false,
        economic_community: false,
        treaty_description: "None"@,
    }
}

/// The starting relation toward one partner, for a drawn score (see
/// `initial_relation_of`).
pub fn initial_relation(relations: i64, trade_roll: bool) -> (r: DiplomaticRelation)
    ensures
        r@ == initial_relation_of(relations, trade_roll),
{
    let mut rel = DiplomaticRelation {
        relations,
        frozen_turns: 0,
        ban_import: false,
        ban_export: false,
        free_trade: false,
        customs_union: false,
        investment_treaty: false,
        economic_community: false,
        treaty_description: String::from_str("None"),
    };
    if relations < -50 && trade_roll {
        rel.ban_export = true;
        rel.ban_import = true;
    } else if relations > 50 && trade_roll {
        rel.free_trade = true;
    }
    rel
}

/// What moves a relation in one turn, as the caller has read it from the
/// two countries.
#[derive(Debug, Clone, Copy, PartialEq, Eq)]
pub struct RelationDrivers {
    /// The country runs a trade deficit beyond 5% of its GDP.
    pub deficit: bool,
    /// The country runs a trade surplus beyond 5% of its GDP.
    pub surplus: bool,
    /// One of the two is a democracy and the other is not.
    pub ideology_differs: bool,
    /// The partner fights on one of the country's fronts.
    pub shared_front: bool,
    /// Both belong to the same (named) cultural group.
    pub same_culture: bool,
    /// The country's exports exceed 10% of its GDP.
    pub high_exports: bool,
    /// With an ambassador posted to the partner, the whole-number part of
    /// the ambassador's relation bonus.
    pub ambassador_bonus: Option<i64>,
}

/// The change of the relations score in a turn: -2 for a trade deficit or
/// +1 for a surplus, -1 for differing ideologies, -2 for a shared front,
/// +1 for a shared culture, +1 for high exports, and 1 plus the bonus of a
/// posted ambassador.
pub open spec fn relation_delta(d: RelationDrivers) -> int {
    (if d.deficit { -2int } else if d.surplus { 1int } else { 0int })
        + (if d.ideology_differs { -1int } else { 0int })
        + (if d.shared_front { -2int } else { 0int })
        + (if d.same_culture { 1int } else { 0int })
        + (if d.high_exports { 1int } else { 0int })
        + (match d.ambassador_bonus { Some(b) => 1 + b, None => 0int })
}

/// `x` held to the relations range, -100 to 100.
pub open spec fn clamp_relations(x: int) -> int {
    if x < -100 { -100 } else if x > 100 { 100 } else { x }
}

/// A relation after a turn: a frozen relation only counts its frozen turns
/// down; otherwise the score moves by the turn's delta, held to the range,
/// and the terms follow the new score. Below -50 an embargo, when its roll
/// hits, bans trade both ways and ends free trade and any customs union;
/// above 50 an opening, when its roll hits, lifts the bans and starts free
/// trade; a score strictly between 0 and 10 lifts the bans.
pub open spec fn relation_after_turn(m: RelationModel, d: RelationDrivers, embargo_roll: bool, opening_roll: bool) -> RelationModel {
    if m.frozen_turns > 0 {
        RelationModel { frozen_turns: m.frozen_turns - 1, ..m }
    } else {
        let v = clamp_relations(m.relations + relation_delta(d));
        if v < -50 && embargo_roll {
            RelationModel {
                relations: v,
                ban_export: true,
                ban_import: true,
                free_trade: false,
                customs_union: false,
                treaty_description: "Embargo"@,
                ..m
            }
        } else if v > 50 && opening_roll {
            RelationModel {
                relations: v,
                ban_export: false,
                ban_import: false,
                free_trade: true,
                treaty_description: "Free Trade"@,
                ..m
            }
        } else if -10 < v < 10 && v > 0 {
            RelationModel { relations: v, ban_export: false, ban_import: false, ..m }
        } else {
            RelationModel { relations: v, ..m }
        }
    }
}

/// Moves a relation by one turn (see `relation_after_turn`). The two rolls
/// are the outcomes of the embargo and opening draws. Returns whether the
/// relation was active this turn (not frozen), so that the turn's spy
/// activity follows.
pub fn relation_turn(rel: &mut DiplomaticRelation, d: &RelationDrivers, embargo_roll: bool, opening_roll: bool) -> (r: bool)
    ensures
        final(rel)@ == relation_after_turn(old(rel)@, *d, embargo_roll, opening_roll),
        r == (old(rel).frozen_turns <= 0),
{
    if rel.frozen_turns > 0 {
        rel.frozen_turns = rel.frozen_turns - 1;
        return false;
    }
    let mut delta: i128 = 0;
    if d.deficit {
        delta = delta - 2;
    } else if d.surplus {
        delta = delta + 1;
    }
    if d.ideology_differs {
        delta = delta - 1;
    }
    if d.shared_front {
        delta = delta - 2;
    }
    if d.same_culture {
        delta = delta + 1;
    }
    if d.high_exports {
        delta = delta + 1;
    }
    match d.ambassador_bonus {
        Some(b) => {
            delta = delta + 1 + b as i128;
        },
        None => {},
    }
    assert(delta == relation_delta(*d));
    let moved: i128 = rel.relations as i128 + delta;
    let v: i64 = if moved < -100 { -100 } else if moved > 100 { 100 } else { moved as i64 };
    rel.relations = v;
    if v < -50 && embargo_roll {
        rel.ban_export = true;
        rel.ban_import = true;
        rel.free_trade = false;
        rel.customs_union = false;
        rel.treaty_description = String::from_str("Embargo");
    } else if v > 50 && opening_roll {
        rel.ban_export = false;
        rel.ban_import = false;
        rel.free_trade = true;
        rel.treaty_description = String::from_str("Free Trade");
    } else if v > -10 && v < 10 {
        if v > 0 {
            rel.ban_export = false;
            rel.ban_import = false;
        }
    }
    true
}

/// What came of a spy's turn in a host country.
#[derive(Debug, Clone, Copy, PartialEq, Eq, Structural)]
pub enum SpyOutcome {
    /// The spy was caught and is expelled.
    Expelled,
    /// The spy gathered intelligence of this level.
    Intel(IntelLevel),
}

/// A relation after one of its spies' turns: when the spy is caught the
/// relation freezes for `freeze_turns` and its score drops by `penalty`,
/// held to the range; otherwise it is unchanged.
pub open spec fn relation_after_spy(m: RelationModel, caught: bool, freeze_turns: u32, penalty: i64) -> RelationModel {
    if caught {
        RelationModel { frozen_turns: freeze_turns as int, relations: clamp_relations(m.relations - penalty), ..m }
    } else {
        m
    }
}

/// Settles a spy's turn: `caught` is the outcome of the discovery draw. A
/// caught spy is expelled and the relation frozen and penalized (see
/// `relation_after_spy`); a spy who is not caught brings narrow-range
/// intelligence on the host.
pub fn spy_outcome(rel: &mut DiplomaticRelation, caught: bool, freeze_turns: u32, penalty: i64) -> (r: SpyOutcome)
    ensures
        final(rel)@ == relation_after_spy(old(rel)@, caught, freeze_turns, penalty),
        r == (if caught { SpyOutcome::Expelled } else { SpyOutcome::Intel(IntelLevel::NarrowRange) }),
{
    if caught {
        rel.frozen_turns = freeze_turns as i64;
        let moved: i128 = rel.relations as i128 - penalty as i128;
        rel.relations = if moved < -100 { -100 } else if moved > 100 { 100 } else { moved as i64 };
        SpyOutcome::Expelled
    } else {
        SpyOutcome::Intel(IntelLevel::NarrowRange)
    }
}

/// After a turn in which a relation is not frozen, and after a spy is
/// caught, its score lies in the relations range, -100 to 100, whatever it
/// was before.
pub proof fn law_relations_stay_in_range(
    m: RelationModel,
    d: RelationDrivers,
    embargo_roll: bool,
    opening_roll: bool,
    freeze_turns: u32,
    penalty: i64,
)
    ensures
        m.frozen_turns <= 0 ==> -100 <= relation_after_turn(m, d, embargo_roll, opening_roll).relations <= 100,
        -100 <= relation_after_spy(m, true, freeze_turns, penalty).relations <= 100,
        m.frozen_turns > 0 ==> relation_after_turn(m, d, embargo_roll, opening_roll).frozen_turns == m.frozen_turns - 1
            && relation_after_turn(m, d, embargo_roll, opening_roll).relations == m.relations,
{
}

} // verus!
