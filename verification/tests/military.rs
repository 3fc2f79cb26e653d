use rustc_hash::FxHashMap;
use sim_engine::economy::{Commodity, Sector};
use sim_engine::geography::RuralClass;
use sim_engine::military::commander_traits::AirDoctrine;
use sim_engine::military::fleet::{route_matches, Fleet, FleetMission, FleetShip};
use sim_engine::military::fronts::{Battle, BattleResult, Casualties, Front, RegionControl};
use sim_engine::military::multi_domain::{
    battle_phases, contest_held, default_land_result, unfought_land_battle, domain_control, land_settlement, units_in_domain, CombatDomain, DomainControl,
    LandSettlement,
};
use sim_engine::military::occupation::is_same_cultural_group;
use sim_engine::military::oob::{generate_oob, ordinal, OobGenerationConfig, OrderOfBattle};
use sim_engine::military::pows::{repatriate_pows_from_country, PowCamp, PowStatus, PrisonerOfWar};
use sim_engine::military::propaganda::PropagandaTarget;
use sim_engine::military::retreat::{retreat_decision, CommanderRetraitProfile, RetreatEvaluation};
use sim_engine::military::turn::{derive_terrain, prisoner_losing_side, split_front_units, FrontSide};
use sim_engine::military::units::{MilitaryUnit, UnitType};
use sim_engine::military::war_declarations::{
    declare_war, end_war, parse_tension_key, settle_peace_terms, tension_key, SettlementTerms, WarLists, WarReason,
    WarState,
};
use sim_engine::military::war_economy::{
    add_conscript_to_oob, apply_production_decree, conversions_for_sector, drain_conscripts, enlist_conscripts,
    find_military_conversion, lift_production_decree, military_conversion_methods, parse_rural_class,
    process_expired_decrees, rural_class_to_string, Building, ClassPopulation, ConscriptionDraft, ConscriptionLevel,
    ProductionDecree, ProductionMethod,
};

// ---------------------------------------------------------------------------
// Domains, commanders, doctrines
// ---------------------------------------------------------------------------

#[test]
fn test_domain_classification() {
    assert_eq!(CombatDomain::for_unit_type(UnitType::AirForce), CombatDomain::Air);
    assert_eq!(CombatDomain::for_unit_type(UnitType::Naval), CombatDomain::Naval);
    assert_eq!(CombatDomain::for_unit_type(UnitType::Infantry), CombatDomain::Land);
    assert_eq!(CombatDomain::for_unit_type(UnitType::Tanks), CombatDomain::Land);
    assert_eq!(CombatDomain::for_unit_type(UnitType::Artillery), CombatDomain::Land);
    assert_eq!(CombatDomain::for_unit_type(UnitType::PeasantBattalion), CombatDomain::Land);
}

#[test]
fn test_commander_profiles() {
    let retreating = CommanderRetraitProfile::retreating("Cautious".to_string());
    assert!(retreating.will_retreat);

    let fighting = CommanderRetraitProfile::fighting("Aggressive".to_string());
    assert!(!fighting.will_retreat);

    let no_cmd = CommanderRetraitProfile::no_commander();
    assert!(!no_cmd.will_retreat);
}

#[test]
fn retreat_only_by_willing_commanders() {
    let cautious = CommanderRetraitProfile::retreating("Cautious".to_string());
    let brave = CommanderRetraitProfile::fighting("Brave".to_string());
    assert_eq!(retreat_decision(true, false, &brave, &cautious), RetreatEvaluation::DefenderRetreats);
    assert_eq!(retreat_decision(true, false, &cautious, &brave), RetreatEvaluation::NoRetreat);
    assert_eq!(retreat_decision(false, true, &cautious, &brave), RetreatEvaluation::AttackerRetreats);
    assert_eq!(retreat_decision(false, false, &cautious, &cautious), RetreatEvaluation::NoRetreat);
    assert_eq!(CommanderRetraitProfile::no_commander().commander_name, "none");
}

#[test]
fn test_air_doctrine_default() {
    assert_eq!(AirDoctrine::default(), AirDoctrine::GroundSupport);
}

#[test]
fn propaganda_targets_both_by_default() {
    assert_eq!(PropagandaTarget::default(), PropagandaTarget::Both);
}

#[test]
fn fleet_routes_match_exactly() {
    let a = vec!["p1".to_string(), "p2".to_string()];
    let b = vec!["p1".to_string(), "p2".to_string()];
    let c = vec!["p2".to_string(), "p1".to_string()];
    assert!(route_matches(&a, &b));
    assert!(!route_matches(&a, &c));
    assert!(!route_matches(&a, &a[..1].to_vec()));
    assert_ne!(FleetMission::Idle, FleetMission::Patrol);
}

#[test]
fn cultural_groups_ignore_case() {
    assert!(is_same_cultural_group("Polish", "russian"));
    assert!(is_same_cultural_group("SWEDISH", "finnish"));
    assert!(!is_same_cultural_group("german", "french"));
    assert!(!is_same_cultural_group("martian", "martian"));
}

// ---------------------------------------------------------------------------
// Units and tables
// ---------------------------------------------------------------------------

#[test]
fn table_of_equipment_grows_with_year() {
    let early = UnitType::Tanks.table_of_equipment(1900);
    let late = UnitType::Tanks.table_of_equipment(1950);
    assert_eq!(early.len(), 2);
    assert_eq!(late.len(), 5);
    assert_eq!(&late[..2], &early[..]);
    assert_eq!(late[4].commodity, Commodity::HeavyTanks);
    assert_eq!(late[4].quantity, 15);
    let infantry = UnitType::Infantry.table_of_equipment(1870);
    assert_eq!(infantry.len(), 2);
    assert_eq!(infantry[1].commodity, Commodity::Clothing);
    let infantry_1850: Vec<Commodity> =
        UnitType::Infantry.table_of_equipment(1850).iter().map(|e| e.commodity).collect();
    assert_eq!(infantry_1850, vec![Commodity::Rifles, Commodity::Clothing]);
    let infantry_1880 = UnitType::Infantry.table_of_equipment(1880);
    assert_eq!(infantry_1880.len(), 4);
    assert_eq!(infantry_1880[2].commodity, Commodity::Ammunition);
    assert_eq!(infantry_1880[3].commodity, Commodity::TowedArtillery);
    assert_eq!(infantry[0].commodity, Commodity::Rifles);
    assert_eq!(infantry[0].condition_percent, 90);
    assert_eq!(infantry[0].depreciation_percent, 1);
    assert_eq!(UnitType::Infantry.table_of_equipment(1965).len(), 5);
    assert!(UnitType::PeasantBattalion.table_of_equipment(2000).is_empty());
}

#[test]
fn unit_upkeep_wages_and_stats() {
    let tanks = UnitType::Tanks.commodity_upkeep();
    assert_eq!(tanks.len(), 3);
    assert_eq!(tanks.get(&Commodity::Fuels), Some(&20));
    assert!(UnitType::PeasantBattalion.commodity_upkeep().is_empty());
    assert_eq!(UnitType::AirForce.wage_cost(), 50);
    assert_eq!(UnitType::PeasantBattalion.wage_cost(), 0);
    let naval = UnitType::Naval.base_stats();
    assert_eq!(naval.health, 200);
    assert_eq!(naval.attack, 35);
}

// ---------------------------------------------------------------------------
// Order of battle
// ---------------------------------------------------------------------------

fn make_test_oob() -> OrderOfBattle {
    let config = OobGenerationConfig {
        army_count: 2,
        divisions_per_army: 2,
        regiments_per_division: 2,
        units_per_regiment: 2,
        base_unit_manpower: 1000,
        home_regions: vec!["region_a".to_string(), "region_b".to_string()],
        country_name: "TestCountry".to_string(),
    };
    generate_oob(&config)
}

#[test]
fn test_oob_hierarchy_structure() {
    let oob = make_test_oob();
    assert_eq!(oob.armies.len(), 2);
    assert_eq!(oob.armies[0].divisions.len(), 2);
    assert_eq!(oob.armies[0].divisions[0].regiments.len(), 2);
    assert_eq!(oob.armies[0].divisions[0].regiments[0].units.len(), 2);
}

#[test]
fn test_oob_total_manpower() {
    let oob = make_test_oob();
    // 2 armies * 2 divisions * 2 regiments * 2 units * 1000 manpower = 16000
    assert_eq!(oob.total_manpower(), 16000);
}

#[test]
fn test_oob_unit_count() {
    let oob = make_test_oob();
    assert_eq!(oob.unit_count(), 16);
}

#[test]
fn test_oob_all_units() {
    let oob = make_test_oob();
    let units = oob.all_units();
    assert_eq!(units.len(), 16);
}

#[test]
fn test_oob_units_at_location() {
    let oob = make_test_oob();
    let units_at_a = oob.collect_units_at_location("region_a");
    let units_at_b = oob.collect_units_at_location("region_b");
    assert_eq!(units_at_a.len(), 8);
    assert_eq!(units_at_b.len(), 8);
}

#[test]
fn test_oob_units_by_type() {
    let oob = make_test_oob();
    let infantry = oob.collect_units_by_type(UnitType::Infantry);
    let artillery = oob.collect_units_by_type(UnitType::Artillery);
    let tanks = oob.collect_units_by_type(UnitType::Tanks);
    assert_eq!(infantry.len(), 8);
    assert_eq!(artillery.len(), 8);
    assert_eq!(tanks.len(), 0);
}

#[test]
fn test_oob_find_unit() {
    let oob = make_test_oob();
    let first_id = oob.all_units()[0].id.clone();
    let found = oob.find_unit(&first_id);
    assert!(found.is_some());
    assert_eq!(found.unwrap().id, first_id);
}

#[test]
fn test_oob_find_unit_mut() {
    let mut oob = make_test_oob();
    let first_id = oob.all_units()[0].id.clone();
    let found = oob.find_unit_mut(&first_id);
    assert!(found.is_some());
    found.unwrap().manpower = 500;
    assert_eq!(oob.find_unit(&first_id).unwrap().manpower, 500);
    assert!(oob.find_unit_mut("UNIT-NOPE").is_none());
}

#[test]
fn test_oob_cleanup_dead() {
    let mut oob = make_test_oob();
    let army = &mut oob.armies[0];
    let division = &mut army.divisions[0];
    let regiment = &mut division.regiments[0];
    for unit in &mut regiment.units {
        unit.manpower = 0;
    }
    oob.cleanup_dead();
    assert_eq!(oob.armies[0].divisions[0].regiments.len(), 1);
}

#[test]
fn test_oob_count_by_type() {
    let oob = make_test_oob();
    let counts = oob.count_by_type();
    assert_eq!(*counts.get(&UnitType::Infantry).unwrap_or(&0), 8);
    assert_eq!(*counts.get(&UnitType::Artillery).unwrap_or(&0), 8);
}

#[test]
fn test_oob_flatten() {
    let oob = make_test_oob();
    let flat = oob.flatten();
    assert_eq!(flat.len(), 16);
}

#[test]
fn test_oob_all_unit_ids() {
    let oob = make_test_oob();
    let ids = oob.all_unit_ids();
    assert_eq!(ids.len(), 16);
    let unique: std::collections::HashSet<_> = ids.iter().collect();
    assert_eq!(unique.len(), 16);
}

#[test]
fn test_oob_default_is_empty() {
    let oob = OrderOfBattle::default();
    assert_eq!(oob.armies.len(), 0);
    assert_eq!(oob.total_manpower(), 0);
    assert_eq!(oob.unit_count(), 0);
}

#[test]
fn test_ordinal() {
    assert_eq!(ordinal(1), "1st");
    assert_eq!(ordinal(2), "2nd");
    assert_eq!(ordinal(3), "3rd");
    assert_eq!(ordinal(4), "4th");
    assert_eq!(ordinal(11), "11th");
    assert_eq!(ordinal(21), "21st");
}

#[test]
fn ordinal_teens_and_hundreds() {
    assert_eq!(ordinal(12), "12th");
    assert_eq!(ordinal(13), "13th");
    assert_eq!(ordinal(102), "102nd");
    assert_eq!(ordinal(111), "111th");
    assert_eq!(ordinal(0), "0th");
}

#[test]
fn generated_ids_and_names() {
    let oob = make_test_oob();
    assert_eq!(oob.armies[1].id, "ARMY-TestCountry-002");
    assert_eq!(oob.armies[1].name, "2nd Army");
    assert_eq!(oob.armies[0].divisions[1].id, "DIV-TestCountry-001-002");
    assert_eq!(oob.armies[0].divisions[1].regiments[0].id, "REG-TestCountry-001-002-001");
    assert_eq!(oob.armies[0].divisions[1].regiments[0].name, "1st Regiment");
    assert_eq!(oob.armies[0].divisions[0].regiments[0].units[1].id, "UNIT-TestCountry-001-001-001-002");
    assert_eq!(oob.armies[1].home_region, "region_b");
}

#[test]
fn third_unit_of_a_regiment_is_a_tank() {
    let config = OobGenerationConfig {
        army_count: 1,
        divisions_per_army: 1,
        regiments_per_division: 1,
        units_per_regiment: 5,
        base_unit_manpower: 10,
        home_regions: vec!["r".to_string()],
        country_name: "X".to_string(),
    };
    let oob = generate_oob(&config);
    let types: Vec<UnitType> = oob.all_units().iter().map(|u| u.unit_type).collect();
    assert_eq!(
        types,
        vec![UnitType::Infantry, UnitType::Artillery, UnitType::Tanks, UnitType::Infantry, UnitType::Infantry]
    );
}

fn conscript(id: &str, home: &str) -> MilitaryUnit {
    let mut origin = FxHashMap::default();
    origin.insert(RuralClass::Serf, 100);
    MilitaryUnit::new(id.to_string(), UnitType::Infantry, 100, origin, home.to_string())
}

#[test]
fn conscripts_join_a_reserve_army() {
    let mut oob = make_test_oob();
    let before = oob.unit_count();
    add_conscript_to_oob(&mut oob, conscript("C1", "home"), "Ruritania");
    assert_eq!(oob.unit_count(), before + 1);
    let army = &oob.armies[2];
    assert_eq!(army.id, "ARMY-Ruritania-CONSCRIPT");
    assert_eq!(army.name, "Conscript Reserve Army");
    assert_eq!(army.divisions[0].id, "DIV-Ruritania-CONSCRIPT-001");
    assert_eq!(army.divisions[0].regiments[0].id, "REG-Ruritania-CONSCRIPT-001");
    assert_eq!(army.divisions[0].regiments[0].home_region, "home");

    add_conscript_to_oob(&mut oob, conscript("C2", "elsewhere"), "Ruritania");
    assert_eq!(oob.armies.len(), 3);
    assert_eq!(oob.armies[2].divisions[0].regiments[0].units.len(), 2);
    assert_eq!(oob.unit_count(), before + 2);
}

#[test]
fn units_start_at_home() {
    let unit = conscript("U", "north");
    assert_eq!(unit.location, "north");
    assert!(!unit.is_peasant_battalion());
    assert_eq!(unit.clone().manpower_origin.get(&RuralClass::Serf), Some(&100));
}

// ---------------------------------------------------------------------------
// War declarations
// ---------------------------------------------------------------------------

#[test]
fn test_tension_key_sorted() {
    assert_eq!(tension_key("A", "B"), "A|B");
    assert_eq!(tension_key("B", "A"), "A|B"); // Always sorted
}

#[test]
fn tension_key_orders_by_characters() {
    assert_eq!(tension_key("Zeta", "Alpha"), "Alpha|Zeta");
    assert_eq!(tension_key("Ab", "A"), "A|Ab");
    assert_eq!(tension_key("Same", "Same"), "Same|Same");
    assert_eq!(tension_key("b", "B"), "B|b");
}

#[test]
fn test_declare_war_direct() {
    let mut at_war_with = WarLists::new();
    let result = declare_war("Aggressor", "Defender", 10, WarReason::TerritorialConquest, &mut at_war_with);

    assert!(result.declared);
    assert!(result.war_state.is_some());
    assert!(at_war_with.is_at_war("Aggressor", "Defender"));
    assert!(at_war_with.is_at_war("Defender", "Aggressor"));
    assert_eq!(result.messages, vec!["[WAR] Aggressor declares war on Defender (reason: TerritorialConquest)".to_string()]);
}

#[test]
fn test_declare_war_already_at_war() {
    let mut at_war_with = WarLists::new();
    declare_war("A", "B", 1, WarReason::RegimeChange, &mut at_war_with);

    let result = declare_war("A", "B", 5, WarReason::ResourceControl, &mut at_war_with);

    assert!(!result.declared, "Should not declare war if already at war");
    assert_eq!(result.messages, vec!["[WAR] A is already at war with B".to_string()]);
    assert_eq!(at_war_with.enemies_of("A"), vec!["B".to_string()]);
}

#[test]
fn test_war_state_creation() {
    let war = WarState::new("Aggressor".to_string(), "Defender".to_string(), 10, WarReason::TerritorialConquest);

    assert_eq!(war.aggressor, "Aggressor");
    assert_eq!(war.defender, "Defender");
    assert_eq!(war.start_turn, 10);
    assert!(war.peace_requested_by.is_none());
}

#[test]
fn peace_removes_both_sides_only() {
    let mut lists = WarLists::new();
    declare_war("A", "B", 1, WarReason::PreemptiveStrike, &mut lists);
    declare_war("A", "C", 1, WarReason::PreemptiveStrike, &mut lists);
    end_war("A", "B", &mut lists);
    assert!(!lists.is_at_war("A", "B"));
    assert!(!lists.is_at_war("B", "A"));
    assert!(lists.is_at_war("A", "C"));
    assert!(lists.is_at_war("C", "A"));
    assert!(lists.enemies_of("Nobody").is_empty());
}

// ---------------------------------------------------------------------------
// War economy
// ---------------------------------------------------------------------------

fn method(year: u32, efficiency_percent: u32, outputs: Vec<(Commodity, u32)>) -> ProductionMethod {
    ProductionMethod {
        year,
        experts_percent: 10,
        skilled_percent: 30,
        basic_percent: 60,
        efficiency_percent,
        inputs: Vec::new(),
        outputs,
    }
}

fn decree(expiry_turn: Option<u32>) -> ProductionDecree<ProductionMethod> {
    ProductionDecree {
        target_sector: Sector::HeavyIndustry,
        military_method_id: "tank_production".to_string(),
        original_method: method(1930, 100, Vec::new()),
        enacted_turn: 10,
        expiry_turn,
        affected_building_ids: vec![],
    }
}

#[test]
fn test_production_decree_expiry() {
    let decree = decree(Some(20));
    assert!(!decree.is_expired(15));
    assert!(decree.is_expired(20));
    assert!(decree.is_expired(25));
}

#[test]
fn test_production_decree_no_expiry() {
    let decree = decree(None);
    assert!(!decree.is_expired(100));
}

fn steel_works(employment: u64, sector: Sector) -> Building<ProductionMethod> {
    Building {
        id: "b1".to_string(),
        sector,
        current_employment: employment,
        active_method: method(1930, 100, vec![(Commodity::Steel, 100)]),
    }
}

#[test]
fn test_apply_production_decree_swaps_method() {
    let mut buildings = vec![steel_works(100, Sector::HeavyIndustry)];
    // The military method with the retooling penalty applied by the caller.
    let military_method = method(1935, 76, vec![(Commodity::MediumTanks, 10)]);
    let decree =
        apply_production_decree(&mut buildings, Sector::HeavyIndustry, &military_method, "tank_production", 10, Some(20));

    assert!(decree.is_some());
    let d = decree.unwrap();
    assert_eq!(d.affected_building_ids.len(), 1);
    assert_eq!(d.affected_building_ids[0], "b1");
    assert!(buildings[0].active_method.output_quantity(Commodity::MediumTanks).is_some());
    assert_eq!(buildings[0].active_method.efficiency_percent, 76);
    assert_eq!(d.original_method.output_quantity(Commodity::Steel), Some(100));
}

#[test]
fn test_apply_production_decree_no_matching_buildings() {
    let mut buildings = vec![steel_works(100, Sector::Agriculture)];
    let decree = apply_production_decree(&mut buildings, Sector::HeavyIndustry, &method(1935, 90, vec![]), "tank_production", 10, None);
    assert!(decree.is_none());
    // An idle building of the sector is not taken over either.
    let mut idle = vec![steel_works(0, Sector::HeavyIndustry)];
    assert!(apply_production_decree(&mut idle, Sector::HeavyIndustry, &method(1935, 90, vec![]), "t", 1, None).is_none());
    assert_eq!(idle[0].active_method.output_quantity(Commodity::Steel), Some(100));
}

#[test]
fn test_lift_production_decree_restores_original() {
    let mut buildings = vec![steel_works(100, Sector::HeavyIndustry)];
    let military_method = method(1935, 90, vec![(Commodity::MediumTanks, 10)]);
    let decree =
        apply_production_decree(&mut buildings, Sector::HeavyIndustry, &military_method, "tank_production", 10, Some(20))
            .unwrap();
    assert!(buildings[0].active_method.output_quantity(Commodity::MediumTanks).is_some());

    lift_production_decree(&mut buildings, &decree);

    assert!(buildings[0].active_method.output_quantity(Commodity::Steel).is_some());
    assert!(buildings[0].active_method.output_quantity(Commodity::MediumTanks).is_none());
}

#[test]
fn test_process_expired_decrees() {
    let mut buildings = vec![steel_works(100, Sector::HeavyIndustry)];
    let military_method = method(1935, 90, vec![(Commodity::MediumTanks, 10)]);
    let decree =
        apply_production_decree(&mut buildings, Sector::HeavyIndustry, &military_method, "tank_production", 10, Some(20))
            .unwrap();
    let mut active_decrees = vec![decree];

    process_expired_decrees(&mut buildings, &mut active_decrees, 15);
    assert_eq!(active_decrees.len(), 1);
    assert!(buildings[0].active_method.output_quantity(Commodity::MediumTanks).is_some());

    process_expired_decrees(&mut buildings, &mut active_decrees, 20);
    assert_eq!(active_decrees.len(), 0);
    assert!(buildings[0].active_method.output_quantity(Commodity::Steel).is_some());
}

#[test]
fn test_military_conversion_methods_exist() {
    let methods = military_conversion_methods();
    assert!(!methods.is_empty(), "Military conversion methods must not be empty (Rule 6)");
}

#[test]
fn test_heavy_industry_has_tank_conversion() {
    let conversions = conversions_for_sector(Sector::HeavyIndustry);
    assert!(
        conversions.iter().any(|c| c.method_id == "light_tank_conversion"),
        "Heavy industry must have light tank conversion"
    );
}

#[test]
fn test_heavy_industry_has_ammunition_conversion() {
    let conversions = conversions_for_sector(Sector::HeavyIndustry);
    assert!(
        conversions.iter().any(|c| c.method_id == "ammunition_surge_production"),
        "Heavy industry must have ammunition surge conversion"
    );
}

#[test]
fn test_light_industry_has_uniform_conversion() {
    let conversions = conversions_for_sector(Sector::LightIndustry);
    assert!(
        conversions.iter().any(|c| c.method_id == "military_uniform_conversion"),
        "Light industry must have military uniform conversion"
    );
}

#[test]
fn test_tank_conversion_has_distinct_inputs() {
    let conversion = find_military_conversion("light_tank_conversion").unwrap();
    assert!(
        conversion.method.input_quantity(Commodity::Aluminum).is_some(),
        "Light tank conversion must demand aluminum (distinct from civilian steel inputs)"
    );
    assert!(conversion.method.output_quantity(Commodity::LightTanks).is_some());
}

#[test]
fn test_ammunition_conversion_has_chemical_inputs() {
    let conversion = find_military_conversion("ammunition_surge_production").unwrap();
    assert!(
        conversion.method.input_quantity(Commodity::Chemicals).is_some(),
        "Ammunition surge must demand chemicals (explosives) — distinct from civilian inputs"
    );
    let chemical_input = conversion.method.input_quantity(Commodity::Chemicals).unwrap();
    assert!(chemical_input >= 20, "Chemical input for ammunition must be substantial");
    assert!(conversion.method.output_quantity(Commodity::Ammunition).is_some());
}

#[test]
fn test_uniform_conversion_has_industrial_fiber_inputs() {
    let conversion = find_military_conversion("military_uniform_conversion").unwrap();
    assert!(
        conversion.method.input_quantity(Commodity::IndustrialFiber).is_some(),
        "Military uniform conversion must demand industrial fiber (webbing) — distinct from civilian clothing"
    );
    assert!(
        conversion.method.input_quantity(Commodity::Steel).is_some(),
        "Military uniform conversion must demand steel (buttons/buckles)"
    );
    assert!(conversion.method.output_quantity(Commodity::Clothing).is_some());
}

#[test]
fn test_find_military_conversion_returns_none_for_unknown() {
    assert!(find_military_conversion("nonexistent_method").is_none());
}

#[test]
fn conversions_by_sector_partition_the_registry() {
    let all = military_conversion_methods();
    let total = conversions_for_sector(Sector::HeavyIndustry).len()
        + conversions_for_sector(Sector::LightIndustry).len()
        + conversions_for_sector(Sector::Agriculture).len();
    assert_eq!(total, all.len());
    assert!(conversions_for_sector(Sector::HeavyIndustry).iter().all(|c| c.target_sector == Sector::HeavyIndustry));
}

#[test]
fn rural_class_keys_round_trip() {
    for class in [RuralClass::Aristocracy, RuralClass::FreePeasant, RuralClass::Serf, RuralClass::LandlessLaborer] {
        assert_eq!(parse_rural_class(&rural_class_to_string(&class)), Some(class));
    }
    assert_eq!(parse_rural_class("Free Peasant"), Some(RuralClass::FreePeasant));
    assert_eq!(parse_rural_class("SERFS"), Some(RuralClass::Serf));
    assert_eq!(parse_rural_class("landless_laborer"), Some(RuralClass::LandlessLaborer));
    assert_eq!(parse_rural_class("FREE_PEASANT"), Some(RuralClass::FreePeasant));
    assert_eq!(parse_rural_class("peasant"), None);
    assert_eq!(ConscriptionLevel::default(), ConscriptionLevel::Peacetime);
}

// ---------------------------------------------------------------------------
// Fronts
// ---------------------------------------------------------------------------

fn battle(attacker: &str, defender: &str, turn: u32, att: (i64, i64, i64), def: (i64, i64, i64)) -> Battle {
    Battle {
        id: format!("B-{}", turn),
        location: "r1".to_string(),
        attacker: attacker.to_string(),
        defender: defender.to_string(),
        turn,
        attacker_units: vec![],
        defender_units: vec![],
        attacker_casualties: Casualties::new(att.0, att.1, att.2),
        defender_casualties: Casualties::new(def.0, def.1, def.2),
        result: BattleResult::Stalemate,
    }
}

#[test]
fn casualties_total_and_breakdown() {
    let mut c = Casualties::new(10, 20, 5);
    assert_eq!(c.total(), 35);
    let mut breakdown = std::collections::HashMap::new();
    breakdown.insert(RuralClass::Serf, 30);
    c.set_demographic_breakdown(breakdown);
    assert_eq!(c.demographic_breakdown.get(&RuralClass::Serf), Some(&30));
    assert_eq!(Casualties::default().total(), 0);
}

#[test]
fn front_tracks_control_and_casualties() {
    let mut front = Front::new(
        "F1".to_string(),
        "Eastern Front".to_string(),
        vec!["r1".to_string(), "r2".to_string()],
        vec!["A".to_string(), "B".to_string()],
    );
    assert_eq!(front.region_control.len(), 2);
    assert!(front.region_control.iter().all(|(_, c)| *c == RegionControl::Owner));
    front.update_region_control("r1".to_string(), RegionControl::Occupied("A".to_string()));
    front.update_region_control("r3".to_string(), RegionControl::Contested);
    assert_eq!(front.region_control.len(), 3);
    assert_eq!(front.region_control[0].1, RegionControl::Occupied("A".to_string()));

    front.add_battle(battle("A", "B", 3, (10, 20, 5), (30, 10, 0)));
    front.add_battle(battle("B", "A", 8, (1, 2, 3), (4, 5, 6)));
    assert_eq!(front.get_country_casualties("A"), 35 + 15);
    assert_eq!(front.get_country_casualties("B"), 40 + 6);
    assert_eq!(front.get_country_casualties("C"), 0);
    assert!(front.is_active(10, 5));
    assert!(!front.is_active(20, 5));
}

#[test]
fn retreat_result_names_the_side() {
    let r = BattleResult::Retreat { retreating_side: "A".to_string() };
    assert_ne!(r, BattleResult::Stalemate);
}

// ---------------------------------------------------------------------------
// Prisoners of war
// ---------------------------------------------------------------------------

fn pow(id: &str, origin: &str, status: PowStatus, factory: Option<&str>) -> PrisonerOfWar {
    PrisonerOfWar {
        id: id.to_string(),
        captor_country: "C".to_string(),
        origin_country: origin.to_string(),
        capture_turn: 1,
        internment_region: "r".to_string(),
        origin_class: RuralClass::FreePeasant,
        status,
        assigned_factory_id: factory.map(|f| f.to_string()),
    }
}

#[test]
fn test_pow_camp_add_prisoners() {
    let mut camp = PowCamp::new();
    camp.add_prisoners(vec![pow("POW-1", "O", PowStatus::Captured, None)]);
    assert_eq!(camp.current_count(), 1);
    assert_eq!(camp.total_ever_captured, 1);
}

#[test]
fn test_pow_assign_to_factory() {
    let mut camp = PowCamp::new();
    camp.add_prisoners(vec![pow("POW-1", "O", PowStatus::Interned, None)]);

    let assigned = camp.assign_to_factory("POW-1", "FACTORY-001");
    assert!(assigned);
    assert_eq!(camp.in_forced_labor(), 1);
    assert_eq!(camp.available_for_labor(), 0);
}

#[test]
fn test_pow_release_from_factory() {
    let mut camp = PowCamp::new();
    camp.add_prisoners(vec![pow("POW-1", "O", PowStatus::ForcedLabor, Some("F1"))]);

    let released = camp.release_from_factory("POW-1");
    assert!(released);
    assert_eq!(camp.available_for_labor(), 1);
    assert_eq!(camp.in_forced_labor(), 0);
}

#[test]
fn test_pow_repatriation() {
    let mut camp = PowCamp::new();
    camp.add_prisoners(vec![
        pow("POW-1", "O1", PowStatus::Interned, None),
        pow("POW-2", "O2", PowStatus::Interned, None),
    ]);

    let repatriated = repatriate_pows_from_country(&mut camp, "O1");
    assert_eq!(repatriated.len(), 1);
    assert_eq!(repatriated[0].origin_country, "O1");
    assert_eq!(camp.total_repatriated, 1);
    assert_eq!(camp.current_count(), 1);
}

#[test]
fn test_pow_cleanup_removes_deceased_and_repatriated() {
    let mut camp = PowCamp::new();
    camp.add_prisoners(vec![
        pow("POW-1", "O", PowStatus::Interned, None),
        pow("POW-2", "O", PowStatus::Deceased, None),
        pow("POW-3", "O", PowStatus::Repatriated, None),
    ]);

    camp.cleanup();
    assert_eq!(camp.prisoners.len(), 1);
    assert_eq!(camp.prisoners[0].id, "POW-1");
}

#[test]
fn pow_assignment_rules() {
    let mut camp = PowCamp::new();
    camp.add_prisoners(vec![
        pow("P1", "O", PowStatus::Captured, None),
        pow("P2", "O", PowStatus::Interned, None),
    ]);
    assert!(!camp.assign_to_factory("P1", "F"), "only interned POWs can be leased");
    assert!(!camp.assign_to_factory("P9", "F"));
    assert!(camp.assign_to_factory("P2", "F"));
    assert_eq!(camp.prisoners[1].assigned_factory_id.as_deref(), Some("F"));
    assert!(!camp.release_from_factory("P1"));
    assert!(camp.release_from_factory("P2"));
    assert_eq!(camp.prisoners[1].assigned_factory_id, None);
    assert_eq!(camp.prisoners[1].status, PowStatus::Interned);
}

#[test]
fn dead_pows_are_not_repatriated() {
    let mut camp = PowCamp::new();
    camp.add_prisoners(vec![
        pow("P1", "O", PowStatus::Deceased, None),
        pow("P2", "O", PowStatus::ForcedLabor, Some("F")),
    ]);
    assert!(camp.repatriate("P1").is_none());
    let back = camp.repatriate("P2").unwrap();
    assert_eq!(back.status, PowStatus::Repatriated);
    assert_eq!(camp.total_repatriated, 1);
    let sent = repatriate_pows_from_country(&mut camp, "O");
    assert_eq!(sent.len(), 1);
    assert_eq!(sent[0].assigned_factory_id, None);
    assert_eq!(camp.total_repatriated, 2);
    assert_eq!(camp.prisoners[0].status, PowStatus::Deceased);
}

#[test]
fn attrition_follows_the_deterministic_roll() {
    let mut camp = PowCamp::new();
    camp.add_prisoners(vec![
        pow("A", "O", PowStatus::Interned, None),
        pow("B", "O", PowStatus::Captured, None),
    ]);
    // "A" is code point 65: 65 * 2654435761 mod 2^32 = 739632625, and
    // mod u32::MAX that stays 739632625.
    assert_eq!(camp.process_attrition(739_632_625), 0);
    assert_eq!(camp.process_attrition(739_632_626), 1);
    assert_eq!(camp.prisoners[0].status, PowStatus::Deceased);
    assert_eq!(camp.prisoners[1].status, PowStatus::Captured, "only interned or laboring POWs die of attrition");
    assert_eq!(camp.total_deceased, 1);
    assert_eq!(camp.process_attrition(u32::MAX), 0, "the dead do not die again");
}

#[test]
fn terrain_from_climate_and_forest_cover() {
    assert_eq!(derive_terrain(true, true), "mountain");
    assert_eq!(derive_terrain(false, true), "forest");
    assert_eq!(derive_terrain(false, false), "plains");
}

// ---------------------------------------------------------------------------
// Conscription drain and enlistment
// ---------------------------------------------------------------------------

fn class(rural_class: RuralClass, population: i64) -> ClassPopulation {
    ClassPopulation { rural_class, population }
}

#[test]
fn drain_takes_the_eligible_up_to_the_population() {
    let mut classes = vec![
        class(RuralClass::Serf, 1000),
        class(RuralClass::FreePeasant, 50),
        class(RuralClass::Serf, 200),
        class(RuralClass::LandlessLaborer, 300),
    ];
    let eligible = vec![100, 80, 0, 30];
    let draft = drain_conscripts(&mut classes, &eligible);
    let left: Vec<i64> = classes.iter().map(|c| c.population).collect();
    assert_eq!(left, vec![900, 0, 200, 270]);
    assert_eq!(draft.total, 180);
    assert_eq!(draft.origin.get(&RuralClass::Serf), Some(&100));
    assert_eq!(draft.origin.get(&RuralClass::FreePeasant), Some(&50));
    assert_eq!(draft.origin.get(&RuralClass::LandlessLaborer), Some(&30));
    assert_eq!(draft.origin.get(&RuralClass::Aristocracy), None);
    assert_eq!(draft.origin.len(), 3);
}

#[test]
fn drain_conserves_population() {
    let mut classes = vec![class(RuralClass::Serf, 120), class(RuralClass::Serf, 40), class(RuralClass::Aristocracy, 7)];
    let before: i64 = classes.iter().map(|c| c.population).sum();
    let draft = drain_conscripts(&mut classes, &vec![60, 60, 1]);
    let after: i64 = classes.iter().map(|c| c.population).sum();
    assert_eq!(after + draft.total, before);
    let by_class: i64 = draft.origin.values().sum();
    assert_eq!(by_class, draft.total);
    assert_eq!(draft.origin.get(&RuralClass::Serf), Some(&100));
}

#[test]
fn an_emptied_class_called_up_is_still_counted() {
    let mut classes = vec![class(RuralClass::Serf, 0), class(RuralClass::FreePeasant, 10)];
    let draft = drain_conscripts(&mut classes, &vec![5, -3]);
    assert_eq!(draft.total, 0);
    assert_eq!(draft.origin.get(&RuralClass::Serf), Some(&0));
    assert_eq!(draft.origin.get(&RuralClass::FreePeasant), None);
    assert_eq!(classes[1].population, 10);
}

#[test]
fn an_empty_draft_raises_no_unit() {
    let mut oob = make_test_oob();
    let before = oob.clone();
    let draft = ConscriptionDraft { total: 0, origin: FxHashMap::default() };
    assert_eq!(enlist_conscripts(&mut oob, draft, "Ruritania", 7, "home".to_string()), None);
    assert_eq!(oob, before);
}

#[test]
fn drafted_recruits_form_a_conscript_unit() {
    let mut oob = make_test_oob();
    let before = oob.unit_count();
    let mut classes = vec![class(RuralClass::Serf, 1000), class(RuralClass::FreePeasant, 500)];
    let draft = drain_conscripts(&mut classes, &vec![100, 80]);
    let id = enlist_conscripts(&mut oob, draft, "Ruritania", 12, "north".to_string());
    assert_eq!(id, Some("CONSCRIPT-Ruritania-12".to_string()));
    assert_eq!(oob.unit_count(), before + 1);
    let army = &oob.armies[2];
    assert_eq!(army.id, "ARMY-Ruritania-CONSCRIPT");
    let unit = &army.divisions[0].regiments[0].units[0];
    assert_eq!(unit.id, "CONSCRIPT-Ruritania-12");
    assert_eq!(unit.unit_type, UnitType::Infantry);
    assert_eq!(unit.manpower, 180);
    assert_eq!(unit.home_region, "north");
    assert_eq!(unit.manpower_origin.get(&RuralClass::FreePeasant), Some(&80));
}

// ---------------------------------------------------------------------------
// Tanks for poor countries, tension keys
// ---------------------------------------------------------------------------

#[test]
fn poor_countries_field_infantry_in_place_of_tanks() {
    let config = OobGenerationConfig {
        army_count: 1,
        divisions_per_army: 2,
        regiments_per_division: 1,
        units_per_regiment: 5,
        base_unit_manpower: 10,
        home_regions: vec!["r".to_string()],
        country_name: "X".to_string(),
    };
    let mut oob = generate_oob(&config);
    let ids_before: Vec<String> = oob.all_units().iter().map(|u| u.id.clone()).collect();
    assert!(oob.all_units().iter().any(|u| u.unit_type == UnitType::Tanks));
    oob.replace_tanks_with_infantry();
    let types: Vec<UnitType> = oob.all_units().iter().map(|u| u.unit_type).collect();
    assert_eq!(
        types[..5].to_vec(),
        vec![UnitType::Infantry, UnitType::Artillery, UnitType::Infantry, UnitType::Infantry, UnitType::Infantry]
    );
    assert!(!types.contains(&UnitType::Tanks));
    assert!(types.contains(&UnitType::Artillery));
    let ids_after: Vec<String> = oob.all_units().iter().map(|u| u.id.clone()).collect();
    assert_eq!(ids_after, ids_before);
}

#[test]
fn tension_keys_split_into_two_countries() {
    assert_eq!(parse_tension_key("A|B"), Some(("A".to_string(), "B".to_string())));
    assert_eq!(parse_tension_key("Gondor|Mordor"), Some(("Gondor".to_string(), "Mordor".to_string())));
    assert_eq!(parse_tension_key("|"), Some((String::new(), String::new())));
    assert_eq!(parse_tension_key("AB"), None);
    assert_eq!(parse_tension_key("A|B|C"), None);
    assert_eq!(parse_tension_key(""), None);
}

#[test]
fn a_tension_key_reads_back_sorted() {
    let key = tension_key("Zedland", "Alphaland");
    assert_eq!(parse_tension_key(&key), Some(("Alphaland".to_string(), "Zedland".to_string())));
}

// ---------------------------------------------------------------------------
// Battles across domains and on fronts
// ---------------------------------------------------------------------------

#[test]
fn units_are_grouped_by_domain() {
    let types = vec![UnitType::AirForce, UnitType::Infantry, UnitType::Naval, UnitType::Tanks, UnitType::AirForce];
    assert_eq!(units_in_domain(&types, CombatDomain::Air), vec![0, 4]);
    assert_eq!(units_in_domain(&types, CombatDomain::Naval), vec![2]);
    assert_eq!(units_in_domain(&types, CombatDomain::Land), vec![1, 3]);
    assert!(units_in_domain(&[], CombatDomain::Land).is_empty());
}

#[test]
fn domain_contests_and_their_control() {
    assert!(contest_held(CombatDomain::Air, 0, 2, false));
    assert!(!contest_held(CombatDomain::Air, 0, 0, true));
    assert!(!contest_held(CombatDomain::Naval, 3, 1, false));
    assert!(contest_held(CombatDomain::Naval, 3, 0, true));
    assert!(!contest_held(CombatDomain::Land, 3, 0, true));
    assert_eq!(domain_control(&BattleResult::AttackerVictory), DomainControl::Attacker);
    assert_eq!(domain_control(&BattleResult::PyrrhicVictory), DomainControl::Attacker);
    assert_eq!(domain_control(&BattleResult::DefenderVictory), DomainControl::Defender);
    assert_eq!(domain_control(&BattleResult::Stalemate), DomainControl::Neither);
    assert_eq!(
        domain_control(&BattleResult::Retreat { retreating_side: "A".to_string() }),
        DomainControl::Neither
    );
}

#[test]
fn land_fights_need_both_sides() {
    assert_eq!(land_settlement(2, 3), LandSettlement::Fought);
    assert_eq!(land_settlement(2, 0), LandSettlement::AttackerUnopposed);
    assert_eq!(land_settlement(0, 3), LandSettlement::NoAttack);
    assert_eq!(land_settlement(0, 0), LandSettlement::NoAttack);
    assert_eq!(default_land_result(LandSettlement::AttackerUnopposed), Some(BattleResult::AttackerVictory));
    assert_eq!(default_land_result(LandSettlement::NoAttack), Some(BattleResult::Stalemate));
    assert_eq!(default_land_result(LandSettlement::Fought), None);
}

#[test]
fn front_units_split_by_region() {
    let locations: Vec<String> = ["r1", "r2", "x", "r1", "r3"].iter().map(|s| s.to_string()).collect();
    let regions: Vec<String> = ["r1", "r2", "r3"].iter().map(|s| s.to_string()).collect();
    let (attackers, defenders) = split_front_units(&locations, &regions);
    assert_eq!(attackers, vec![0, 3]);
    assert_eq!(defenders, vec![1, 4]);
    let (none_a, none_d) = split_front_units(&locations, &[]);
    assert!(none_a.is_empty() && none_d.is_empty());
}

#[test]
fn the_side_with_more_casualties_loses_prisoners() {
    assert_eq!(prisoner_losing_side(500, 200), FrontSide::Attacker);
    assert_eq!(prisoner_losing_side(200, 500), FrontSide::Defender);
    assert_eq!(prisoner_losing_side(300, 300), FrontSide::Defender);
}


#[test]
fn battles_go_air_then_sea_then_land() {
    let attackers = vec![UnitType::AirForce, UnitType::Naval, UnitType::Infantry];
    let defenders = vec![UnitType::Infantry];
    assert_eq!(
        battle_phases(&attackers, &defenders, true),
        vec![CombatDomain::Air, CombatDomain::Naval, CombatDomain::Land]
    );
    assert_eq!(battle_phases(&attackers, &defenders, false), vec![CombatDomain::Air, CombatDomain::Land]);
    assert_eq!(battle_phases(&defenders, &[UnitType::Naval], true), vec![CombatDomain::Naval, CombatDomain::Land]);
    assert_eq!(battle_phases(&[], &[], true), vec![CombatDomain::Land]);
}

#[test]
fn test_apply_decree_with_registry_conversion() {
    // End-to-end: use a registry conversion method to apply a decree.
    let mut steel = method(1930, 100, vec![(Commodity::Steel, 22)]);
    steel.inputs = vec![(Commodity::Iron, 25)];
    let mut buildings = vec![Building {
        id: "b1".to_string(),
        sector: Sector::HeavyIndustry,
        current_employment: 100,
        active_method: steel,
    }];

    let conversion = find_military_conversion("light_tank_conversion").unwrap();

    let decree = apply_production_decree(
        &mut buildings,
        conversion.target_sector,
        &conversion.method,
        conversion.method_id,
        10,
        Some(20),
    );

    assert!(decree.is_some());
    // Building now produces LightTanks, not Steel
    assert!(buildings[0].active_method.output_quantity(Commodity::LightTanks).is_some());
    assert!(buildings[0].active_method.output_quantity(Commodity::Steel).is_none());
    // Building now demands Aluminum, not Iron
    assert!(buildings[0].active_method.input_quantity(Commodity::Aluminum).is_some());
    assert!(buildings[0].active_method.input_quantity(Commodity::Iron).is_none());
}

// ---------------------------------------------------------------------------
// Unfought land phases, peace terms, casualties, attrition counts, fleets
// ---------------------------------------------------------------------------

#[test]
fn an_unfought_land_phase_is_recorded_without_losses() {
    let stalemate = unfought_land_battle(
        "BATTLE-1",
        "r1".to_string(),
        "A".to_string(),
        "B".to_string(),
        4,
        vec![],
        LandSettlement::NoAttack,
    )
    .unwrap();
    assert_eq!(stalemate.id, "BATTLE-1-LAND");
    assert_eq!(stalemate.result, BattleResult::Stalemate);
    assert!(stalemate.attacker_units.is_empty() && stalemate.defender_units.is_empty());
    assert_eq!(stalemate.attacker_casualties.total(), 0);
    assert_eq!(stalemate.defender_casualties.total(), 0);
    assert_eq!(stalemate.turn, 4);

    let walkover = unfought_land_battle(
        "BATTLE-2",
        "r1".to_string(),
        "A".to_string(),
        "B".to_string(),
        5,
        vec!["U1".to_string(), "U2".to_string()],
        LandSettlement::AttackerUnopposed,
    )
    .unwrap();
    assert_eq!(walkover.id, "BATTLE-2-LAND");
    assert_eq!(walkover.result, BattleResult::AttackerVictory);
    assert_eq!(walkover.attacker_units, vec!["U1".to_string(), "U2".to_string()]);
    assert_eq!(walkover.defender_casualties.dead, 0);

    assert!(unfought_land_battle("B", String::new(), String::new(), String::new(), 1, vec![], LandSettlement::Fought)
        .is_none());
}

#[test]
fn peace_terms_decide_regions_reparations_and_prisoners() {
    let mut lists = WarLists::new();
    declare_war("A", "B", 1, WarReason::TerritorialConquest, &mut lists);
    let cession = SettlementTerms::TerritorialCession { regions: vec!["r1".to_string(), "r2".to_string()] };
    let outcome = settle_peace_terms("A", "B", &cession, &mut lists);
    assert!(!lists.is_at_war("A", "B") && !lists.is_at_war("B", "A"));
    assert_eq!(outcome.regions_transferred, vec!["r1".to_string(), "r2".to_string()]);
    assert!(!outcome.reparations_paid && !outcome.pows_repatriated);

    let surrender = settle_peace_terms(
        "A",
        "B",
        &SettlementTerms::UnconditionalSurrender { regions: vec!["r3".to_string()] },
        &mut lists,
    );
    assert_eq!(surrender.regions_transferred, vec!["r3".to_string()]);
    assert!(surrender.reparations_paid && surrender.pows_repatriated);

    let paid = settle_peace_terms("A", "B", &SettlementTerms::Reparations { pow_repatriation: false }, &mut lists);
    assert!(paid.reparations_paid && !paid.pows_repatriated && paid.regions_transferred.is_empty());
    let returned = settle_peace_terms("A", "B", &SettlementTerms::RepatriationOfPows, &mut lists);
    assert!(returned.pows_repatriated && !returned.reparations_paid);
    let quo = settle_peace_terms("A", "B", &SettlementTerms::StatusQuoAnte, &mut lists);
    assert!(!quo.pows_repatriated && !quo.reparations_paid && quo.regions_transferred.is_empty());
}

#[test]
fn casualties_come_off_manpower_up_to_the_whole_unit() {
    let mut unit = conscript("C1", "home");
    assert_eq!(unit.deduct_casualties(30), 30);
    assert_eq!(unit.manpower, 70);
    assert_eq!(unit.deduct_casualties(500), 70);
    assert_eq!(unit.manpower, 0);
    assert_eq!(unit.deduct_casualties(10), 0);
    let mut other = conscript("C2", "home");
    assert_eq!(other.deduct_casualties(-5), 0);
    assert_eq!(other.manpower, 100);
    assert_eq!(other.manpower_origin.get(&RuralClass::Serf), Some(&100));
}

#[test]
fn the_attrition_count_matches_the_deaths() {
    let mut camp = PowCamp::new();
    camp.add_prisoners(vec![
        pow("POW-1", "O", PowStatus::Interned, None),
        pow("POW-2", "O", PowStatus::ForcedLabor, Some("F1")),
        pow("POW-3", "O", PowStatus::Captured, None),
    ]);
    assert_eq!(camp.attrition_count(u32::MAX), 2);
    assert_eq!(camp.attrition_count(0), 0);
    let count = camp.attrition_count(u32::MAX / 2);
    assert_eq!(camp.process_attrition(u32::MAX / 2), count as i64);
}

fn ship(id: &str) -> FleetShip<u32> {
    FleetShip { id: id.to_string(), ship: 500 }
}

fn fleet() -> Fleet<u32> {
    Fleet {
        id: "F1".to_string(),
        name: "First Fleet".to_string(),
        owner_country: "A".to_string(),
        home_port: "P1".to_string(),
        current_mission: FleetMission::Idle,
        ships: vec![],
        trade_route: vec![],
        fishing_region: None,
        operational_status: true,
    }
}

#[test]
fn fleets_gain_and_lose_ships_and_change_missions() {
    let mut f = fleet();
    f.add_ship(ship("S1"));
    f.add_ship(ship("S2"));
    f.add_ship(ship("S1"));
    assert!(f.remove_ship("S1"));
    let ids: Vec<String> = f.ships.iter().map(|s| s.id.clone()).collect();
    assert_eq!(ids, vec!["S2".to_string(), "S1".to_string()]);
    assert!(!f.remove_ship("S9"));
    assert_eq!(f.ships.len(), 2);

    f.assign_trade_route(vec!["a".to_string(), "b".to_string()]);
    assert_eq!(f.current_mission, FleetMission::TradeRoute);
    assert_eq!(f.trade_route.len(), 2);
    f.assign_fishing("sea".to_string());
    assert_eq!(f.current_mission, FleetMission::Fishing);
    assert!(f.trade_route.is_empty());
    assert_eq!(f.fishing_region, Some("sea".to_string()));
    f.set_idle();
    assert_eq!(f.current_mission, FleetMission::Idle);
    assert_eq!(f.fishing_region, None);
    assert_eq!(f.id, "F1");
}
