//! Strategic retreat: a commander who is willing to retreat withdraws
//! when the combat power ratio is catastrophic for their side.
use vstd::prelude::*;

verus! {

/// A commander's tactical profile, as far as retreat decisions read it.
#[derive(Debug, Clone, PartialEq)]
pub struct CommanderRetraitProfile {
    /// Whether this commander orders a retreat when the power ratio is
    /// catastrophic.
    pub will_retreat: bool,
    /// The commander's name (for logging).
    pub commander_name: String,
}

impl CommanderRetraitProfile {
    /// A commander who will retreat (cautious, methodical, cowardly).
    pub fn retreating(name: String) -> (r: Self)
        ensures
            r.will_retreat,
            r.commander_name == name,
    {
        CommanderRetraitProfile { will_retreat: true, commander_name: name }
    }

    /// A commander who will not retreat (aggressive, reckless, brave, loyal).
    pub fn fighting(name: String) -> (r: Self)
        ensures
            !r.will_retreat,
            r.commander_name == name,
    {
        CommanderRetraitProfile { will_retreat: false, commander_name: name }
    }

    /// The profile used when no commander is assigned: no retreat, named
    /// "none".
    pub fn no_commander() -> (r: Self)
        ensures
            !r.will_retreat,
            r.commander_name@ == "none"@,
    {
        CommanderRetraitProfile { will_retreat: false, commander_name: String::from_str("none") }
    }
}

impl Default for CommanderRetraitProfile {
    fn default() -> (r: Self)
        ensures
            !r.will_retreat,
            r.commander_name@ == Seq::<char>::empty(),
    {
        CommanderRetraitProfile { will_retreat: false, commander_name: String::new() }
    }
}

/// Result of evaluating whether a retreat should occur.
#[derive(Debug, Clone, Copy, PartialEq, Eq, Structural)]
pub enum RetreatEvaluation {
    /// No retreat: combat proceeds normally.
    NoRetreat,
    /// Defender retreats and cedes region control to the attacker.
    DefenderRetreats,
    /// Attacker retreats and aborts the attack.
    AttackerRetreats,
}

/// The retreat decision once the power ratios are known: an overwhelmed
/// defender whose commander will retreat withdraws; otherwise an
/// overwhelmed attacker whose commander will retreat aborts; otherwise
/// the battle is fought.
pub open spec fn retreat_outcome(
    defender_overwhelmed: bool,
    attacker_overwhelmed: bool,
    attacker_will_retreat: bool,
    defender_will_retreat: bool,
) -> RetreatEvaluation {
    if defender_overwhelmed && defender_will_retreat {
        RetreatEvaluation::DefenderRetreats
    } else if attacker_overwhelmed && attacker_will_retreat {
        RetreatEvaluation::AttackerRetreats
    } else {
        RetreatEvaluation::NoRetreat
    }
}

/// Decides whether a side retreats. `defender_overwhelmed` is whether the
/// defender's combat power is below the attacker's times the catastrophic
/// power ratio, and `attacker_overwhelmed` the same the other way round.
pub fn retreat_decision(
    defender_overwhelmed: bool,
    attacker_overwhelmed: bool,
    attacker_commander: &CommanderRetraitProfile,
    defender_commander: &CommanderRetraitProfile,
) -> (r: RetreatEvaluation)
    ensures
        r == retreat_outcome(
            defender_overwhelmed,
            attacker_overwhelmed,
            attacker_commander.will_retreat,
            defender_commander.will_retreat,
        ),
{
    if defender_overwhelmed {
        if defender_commander.will_retreat {
            return RetreatEvaluation::DefenderRetreats;
        }
    }
    if attacker_overwhelmed {
        if attacker_commander.will_retreat {
            return RetreatEvaluation::AttackerRetreats;
        }
    }
    RetreatEvaluation::NoRetreat
}

/// Only a commander willing to retreat ever retreats, and a battle
/// between commanders who both refuse to retreat is always fought.
pub proof fn law_only_willing_commanders_retreat(d: bool, a: bool, aw: bool, dw: bool)
    ensures
        retreat_outcome(d, a, aw, dw) == RetreatEvaluation::DefenderRetreats ==> dw && d,
        retreat_outcome(d, a, aw, dw) == RetreatEvaluation::AttackerRetreats ==> aw && a,
        !aw && !dw ==> retreat_outcome(d, a, aw, dw) == RetreatEvaluation::NoRetreat,
{
}

} // verus!
