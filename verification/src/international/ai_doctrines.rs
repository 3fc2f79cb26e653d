//! Geopolitical doctrines that guide an AI nation's diplomatic behavior.
use vstd::prelude::*;
use crate::international::diplomacy::DiplomaticPostType;
use crate::text::str_eq;

verus! {

/// A geopolitical doctrine that guides an AI nation's diplomatic behavior.
#[derive(Debug, Clone, PartialEq, Eq, Hash)]
pub enum GeopoliticalDoctrine {
    /// No aggressive action: maintain the status quo.
    Balanced,
    /// Seeks territory and military dominance.
    Expansionist,
    /// Minimizes diplomatic engagement.
    Isolationist,
    /// Actively seeks alliances and treaties.
    AllianceSeeker,
    /// Focused on a specific resource dependency.
    ResourceDependency {
        /// The commodity the nation needs.
        commodity: String,
    },
}

impl Default for GeopoliticalDoctrine {
    fn default() -> (r: Self)
        ensures
            r == GeopoliticalDoctrine::Balanced,
    {
        GeopoliticalDoctrine::Balanced
    }
}

impl GeopoliticalDoctrine {
    /// The human-readable label of the doctrine.
    pub open spec fn label(self) -> Seq<char> {
        match self {
            GeopoliticalDoctrine::Balanced => "Balanced"@,
            GeopoliticalDoctrine::Expansionist => "Expansionist"@,
            GeopoliticalDoctrine::Isolationist => "Isolationist"@,
            GeopoliticalDoctrine::AllianceSeeker => "Alliance Seeker"@,
            GeopoliticalDoctrine::ResourceDependency { .. } => "Resource Dependent"@,
        }
    }

    /// Returns a human-readable label for UI display.
    pub fn as_str(&self) -> (r: &'static str)
        ensures
            r@ == self.label(),
    {
        match self {
            GeopoliticalDoctrine::Balanced => "Balanced",
            GeopoliticalDoctrine::Expansionist => "Expansionist",
            GeopoliticalDoctrine::Isolationist => "Isolationist",
            GeopoliticalDoctrine::AllianceSeeker => "Alliance Seeker",
            GeopoliticalDoctrine::ResourceDependency { .. } => "Resource Dependent",
        }
    }
}

/// What decides a nation's doctrine, as read from its state.
#[derive(Debug, Clone, PartialEq)]
pub struct DoctrineReadings {
    /// Its military is large enough and well above the average.
    pub military_dominant: bool,
    /// Its trade deficit exceeds the threshold share of its GDP.
    pub resource_deficit: bool,
    /// The commodity it imports most.
    pub needed_commodity: String,
    /// Its reputation is below the isolationist threshold.
    pub reputation_low: bool,
    /// Its reputation is above the alliance-seeker threshold.
    pub reputation_high: bool,
}

/// The doctrine the readings call for, by priority: expansionist, then
/// resource dependency (on the commodity it imports most), then
/// isolationist, then alliance seeker, else balanced.
pub open spec fn doctrine_for(r: DoctrineReadings) -> GeopoliticalDoctrine {
    if r.military_dominant {
        GeopoliticalDoctrine::Expansionist
    } else if r.resource_deficit {
        GeopoliticalDoctrine::ResourceDependency { commodity: r.needed_commodity }
    } else if r.reputation_low {
        GeopoliticalDoctrine::Isolationist
    } else if r.reputation_high {
        GeopoliticalDoctrine::AllianceSeeker
    } else {
        GeopoliticalDoctrine::Balanced
    }
}

/// Evaluates a nation's doctrine from its readings (see `doctrine_for`).
pub fn doctrine_from_readings(r: DoctrineReadings) -> (d: GeopoliticalDoctrine)
    ensures
        d == doctrine_for(r),
{
    if r.military_dominant {
        GeopoliticalDoctrine::Expansionist
    } else if r.resource_deficit {
        GeopoliticalDoctrine::ResourceDependency { commodity: r.needed_commodity }
    } else if r.reputation_low {
        GeopoliticalDoctrine::Isolationist
    } else if r.reputation_high {
        GeopoliticalDoctrine::AllianceSeeker
    } else {
        GeopoliticalDoctrine::Balanced
    }
}

/// Another country, as a doctrine reads it.
#[derive(Debug, Clone, PartialEq)]
pub struct ForeignCountry {
    /// Country name.
    pub name: String,
    /// Number of units in its order of battle.
    pub unit_count: u32,
    /// Its GDP exceeds 80% of the acting country's (a likely resource
    /// supplier).
    pub richer: bool,
}

/// The outcomes of the draws a doctrine makes this turn.
#[derive(Debug, Clone, PartialEq)]
pub struct DoctrineRolls {
    /// An expansionist's provocation draw hit.
    pub provocation: bool,
    /// An alliance seeker's treaty draw hit.
    pub treaty: bool,
    /// The country holds the liquid reserves that economic aid needs.
    pub affords_aid: bool,
    /// A resource-dependent country's aid draw hit.
    pub aid: bool,
    /// For each posted diplomat, whether an isolationist's recall draw hit.
    pub recalls: Vec<bool>,
}

/// A diplomatic action a doctrine generates.
#[derive(Debug, Clone, PartialEq)]
pub enum DiplomaticAction {
    /// A border provocation against another country.
    BorderProvocation {
        /// Provoking country.
        from_country: String,
        /// Provoked country.
        to_country: String,
        /// Intensity, in percent.
        intensity_percent: u32,
    },
    /// Posts a diplomat abroad.
    AssignDiplomat {
        /// The VIP posted.
        vip_id: String,
        /// The VIP's country.
        home_country: String,
        /// The country the VIP is posted to.
        host_country: String,
        /// Kind of post.
        post_type: DiplomaticPostType,
        /// Turn of the assignment.
        assigned_turn: u32,
    },
    /// Economic aid to another country.
    SendEconomicAid {
        /// Donor country.
        from_country: String,
        /// Recipient country.
        to_country: String,
        /// Amount of aid.
        amount: u64,
    },
    /// Calls a diplomat home.
    RecallDiplomat {
        /// The VIP recalled.
        vip_id: String,
        /// The VIP's country.
        home_country: String,
    },
}

/// A diplomatic action as a mathematical value.
pub enum ActionModel {
    /// See `DiplomaticAction::BorderProvocation`.
    BorderProvocation { from_country: Seq<char>, to_country: Seq<char>, intensity_percent: u32 },
    /// See `DiplomaticAction::AssignDiplomat`.
    AssignDiplomat {
        vip_id: Seq<char>,
        home_country: Seq<char>,
        host_country: Seq<char>,
        post_type: DiplomaticPostType,
        assigned_turn: u32,
    },
    /// See `DiplomaticAction::SendEconomicAid`.
    SendEconomicAid { from_country: Seq<char>, to_country: Seq<char>, amount: u64 },
    /// See `DiplomaticAction::RecallDiplomat`.
    RecallDiplomat { vip_id: Seq<char>, home_country: Seq<char> },
}

impl View for DiplomaticAction {
    type V = ActionModel;

    open spec fn view(&self) -> ActionModel {
        match self {
            DiplomaticAction::BorderProvocation { from_country, to_country, intensity_percent } => ActionModel::BorderProvocation {
                from_country: from_country@,
                to_country: to_country@,
                intensity_percent: *intensity_percent,
            },
            DiplomaticAction::AssignDiplomat { vip_id, home_country, host_country, post_type, assigned_turn } => ActionModel::AssignDiplomat {
                vip_id: vip_id@,
                home_country: home_country@,
                host_country: host_country@,
                post_type: *post_type,
                assigned_turn: *assigned_turn,
            },
            DiplomaticAction::SendEconomicAid { from_country, to_country, amount } => ActionModel::SendEconomicAid {
                from_country: from_country@,
                to_country: to_country@,
                amount: *amount,
            },
            DiplomaticAction::RecallDiplomat { vip_id, home_country } => ActionModel::RecallDiplomat {
                vip_id: vip_id@,
                home_country: home_country@,
            },
        }
    }
}

/// Among the first `n` of `others`, the index of the country other than
/// `country` with the fewest units (the first of them on a tie).
pub open spec fn weakest_among(others: Seq<ForeignCountry>, country: Seq<char>, n: int) -> Option<int>
    decreases n,
{
    if n <= 0 {
        None
    } else {
        let prev = weakest_among(others, country, n - 1);
        if others[n - 1].name@ == country {
            prev
        } else {
            match prev {
                None => Some(n - 1),
                Some(j) => if others[n - 1].unit_count < others[j].unit_count { Some(n - 1) } else { prev },
            }
        }
    }
}

/// The index of the first of `others` at or after `k` that is not
/// `country` and, when `need_richer`, is richer.
pub open spec fn first_partner_from(others: Seq<ForeignCountry>, country: Seq<char>, need_richer: bool, k: int) -> Option<int>
    decreases others.len() - k,
{
    if k < 0 || k >= others.len() {
        None
    } else if others[k].name@ != country && (!need_richer || others[k].richer) {
        Some(k)
    } else {
        first_partner_from(others, country, need_richer, k + 1)
    }
}

/// Recall orders for those of the first `n` posted diplomats whose recall
/// draw hit.
pub open spec fn recalls_among(posted: Seq<String>, rolls: Seq<bool>, home: Seq<char>, n: int) -> Seq<ActionModel>
    decreases n,
{
    if n <= 0 {
        Seq::empty()
    } else {
        let prev = recalls_among(posted, rolls, home, n - 1);
        if rolls[n - 1] {
            prev.push(ActionModel::RecallDiplomat { vip_id: posted[n - 1]@, home_country: home })
        } else {
            prev
        }
    }
}

/// The actions a doctrine generates this turn. An expansionist whose draw
/// hits provokes the other country with the fewest units, at 70% intensity.
/// An alliance seeker whose draw hits posts its first idle ambassador to
/// the first other country. A resource-dependent country that can afford
/// it and whose draw hits sends 50000 in aid to the first other country
/// richer than 80% of its own GDP. An isolationist recalls each posted
/// diplomat whose draw hits. A balanced country does nothing.
pub open spec fn doctrine_plan(
    country: Seq<char>,
    doctrine: GeopoliticalDoctrine,
    others: Seq<ForeignCountry>,
    idle_ambassadors: Seq<String>,
    posted_vips: Seq<String>,
    rolls: DoctrineRolls,
    current_turn: u32,
) -> Seq<ActionModel> {
    match doctrine {
        GeopoliticalDoctrine::Expansionist => {
            if rolls.provocation && weakest_among(others, country, others.len() as int) is Some {
                let j = weakest_among(others, country, others.len() as int)->0;
                seq![ActionModel::BorderProvocation { from_country: country, to_country: others[j].name@, intensity_percent: 70 }]
            } else {
                Seq::empty()
            }
        },
        GeopoliticalDoctrine::AllianceSeeker => {
            if rolls.treaty && first_partner_from(others, country, false, 0) is Some && idle_ambassadors.len() > 0 {
                let j = first_partner_from(others, country, false, 0)->0;
                seq![ActionModel::AssignDiplomat {
                    vip_id: idle_ambassadors[0]@,
                    home_country: country,
                    host_country: others[j].name@,
                    post_type: DiplomaticPostType::Ambassador,
                    assigned_turn: current_turn,
                }]
            } else {
                Seq::empty()
            }
        },
        GeopoliticalDoctrine::ResourceDependency { .. } => {
            if rolls.affords_aid && rolls.aid && first_partner_from(others, country, true, 0) is Some {
                let j = first_partner_from(others, country, true, 0)->0;
                seq![ActionModel::SendEconomicAid { from_country: country, to_country: others[j].name@, amount: 50000 }]
            } else {
                Seq::empty()
            }
        },
        GeopoliticalDoctrine::Isolationist => recalls_among(posted_vips, rolls.recalls@, country, posted_vips.len() as int),
        GeopoliticalDoctrine::Balanced => Seq::empty(),
    }
}

fn weakest_foreign(others: &[ForeignCountry], country: &str) -> (r: Option<usize>)
    ensures
        r matches Some(j) ==> weakest_among(others@, country@, others@.len() as int) == Some(j as int) && j < others@.len(),
        r is None ==> weakest_among(others@, country@, others@.len() as int) is None,
{
    let mut best: Option<usize> = None;
    let mut i: usize = 0;
    while i < others.len()
        invariant
            i <= others@.len(),
            best matches Some(j) ==> weakest_among(others@, country@, i as int) == Some(j as int) && j < i,
            best is None ==> weakest_among(others@, country@, i as int) is None,
        decreases others@.len() - i,
    {
        if !str_eq(others[i].name.as_str(), country) {
            match best {
                None => {
                    best = Some(i);
                },
                Some(j) => {
                    if others[i].unit_count < others[j].unit_count {
                        best = Some(i);
                    }
                },
            }
        }
        i = i + 1;
    }
    best
}

fn first_partner(others: &[ForeignCountry], country: &str, need_richer: bool) -> (r: Option<usize>)
    ensures
        r matches Some(j) ==> first_partner_from(others@, country@, need_richer, 0) == Some(j as int) && j < others@.len(),
        r is None ==> first_partner_from(others@, country@, need_richer, 0) is None,
{
    let mut i: usize = 0;
    while i < others.len()
        invariant
            i <= others@.len(),
            first_partner_from(others@, country@, need_richer, 0) == first_partner_from(others@, country@, need_richer, i as int),
        decreases others@.len() - i,
    {
        if !str_eq(others[i].name.as_str(), country) && (!need_richer || others[i].richer) {
            return Some(i);
        }
        i = i + 1;
    }
    None
}

/// Executes a nation's geopolitical doctrine: the actions it generates
/// this turn, given the other countries, the country's idle ambassadors
/// and posted diplomats, and the outcomes of its draws (see
/// `doctrine_plan`).
pub fn doctrine_actions(
    country: &str,
    doctrine: &GeopoliticalDoctrine,
    others: &[ForeignCountry],
    idle_ambassadors: &[String],
    posted_vips: &[String],
    rolls: &DoctrineRolls,
    current_turn: u32,
) -> (r: Vec<DiplomaticAction>)
    requires
        rolls.recalls.len() == posted_vips.len(),
    ensures
        r@.map_values(|a: DiplomaticAction| a@) == doctrine_plan(
            country@,
            *doctrine,
            others@,
            idle_ambassadors@,
            posted_vips@,
            *rolls,
            current_turn,
        ),
{
    let mut actions: Vec<DiplomaticAction> = Vec::new();
    match doctrine {
        GeopoliticalDoctrine::Expansionist => {
            if rolls.provocation {
                match weakest_foreign(others, country) {
                    Some(j) => {
                        actions.push(DiplomaticAction::BorderProvocation {
                            from_country: String::from_str(country),
                            to_country: others[j].name.clone(),
                            intensity_percent: 70,
                        });
                    },
                    None => {},
                }
            }
        },
        GeopoliticalDoctrine::AllianceSeeker => {
            if rolls.treaty {
                match first_partner(others, country, false) {
                    Some(j) => {
                        if idle_ambassadors.len() > 0 {
                            actions.push(DiplomaticAction::AssignDiplomat {
                                vip_id: idle_ambassadors[0].clone(),
                                home_country: String::from_str(country),
                                host_country: others[j].name.clone(),
                                post_type: DiplomaticPostType::Ambassador,
                                assigned_turn: current_turn,
                            });
                        }
                    },
                    None => {},
                }
            }
        },
        GeopoliticalDoctrine::ResourceDependency { .. } => {
            if rolls.affords_aid && rolls.aid {
                match first_partner(others, country, true) {
                    Some(j) => {
                        actions.push(DiplomaticAction::SendEconomicAid {
                            from_country: String::from_str(country),
                            to_country: others[j].name.clone(),
                            amount: 50000,
                        });
                    },
                    None => {},
                }
            }
        },
        GeopoliticalDoctrine::Isolationist => {
            let mut i: usize = 0;
            while i < posted_vips.len()
                invariant
                    i <= posted_vips@.len(),
                    rolls.recalls@.len() == posted_vips@.len(),
                    actions@.map_values(|a: DiplomaticAction| a@) == recalls_among(posted_vips@, rolls.recalls@, country@, i as int),
                decreases posted_vips@.len() - i,
            {
                if rolls.recalls[i] {
                    actions.push(DiplomaticAction::RecallDiplomat {
                        vip_id: posted_vips[i].clone(),
                        home_country: String::from_str(country),
                    });
                }
                i = i + 1;
                assert(actions@.map_values(|a: DiplomaticAction| a@) =~= recalls_among(posted_vips@, rolls.recalls@, country@, i as int));
            }
        },
        GeopoliticalDoctrine::Balanced => {},
    }
    assert(actions@.map_values(|a: DiplomaticAction| a@) =~= doctrine_plan(
        country@,
        *doctrine,
        others@,
        idle_ambassadors@,
        posted_vips@,
        *rolls,
        current_turn,
    ));
    actions
}

/// The country an expansionist provokes is another country with the
/// fewest units: no other country has fewer, and every country listed
/// before it has more.
pub proof fn law_provocation_targets_weakest(others: Seq<ForeignCountry>, country: Seq<char>, n: int)
    requires
        0 <= n <= others.len(),
    ensures
        weakest_among(others, country, n) matches Some(j) ==> {
            &&& 0 <= j < n
            &&& others[j].name@ != country
            &&& forall|k: int| 0 <= k < n && #[trigger] others[k].name@ != country ==> others[j].unit_count <= others[k].unit_count
            &&& forall|k: int| 0 <= k < j && #[trigger] others[k].name@ != country ==> others[j].unit_count < others[k].unit_count
        },
        weakest_among(others, country, n) is None ==> forall|k: int| 0 <= k < n ==> #[trigger] others[k].name@ == country,
    decreases n,
{
    if n > 0 {
        law_provocation_targets_weakest(others, country, n - 1);
    }
}

} // verus!
