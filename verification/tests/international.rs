use sim_engine::international::ai_doctrines::{
    doctrine_actions, doctrine_from_readings, DiplomaticAction, DoctrineReadings, DoctrineRolls, ForeignCountry,
    GeopoliticalDoctrine,
};
use sim_engine::international::diplomacy::{
    count_diplomats, initial_relation, relation_turn, spy_outcome, CountryDiplomats, DiplomaticPost, DiplomaticPostCap,
    DiplomaticPostType, DiplomaticRelation, PostedVip, RelationDrivers, SpyOutcome,
};
use sim_engine::international::fog_of_war::{compute_intel_level, IntelLevel};
use sim_engine::international::organizations::{
    IntegrationLevel, InternationalOrganization, OrgConfig, OrgCouncil, OrganizationRegistry, VotingMechanism,
};
use sim_engine::international::sanctions::{Sanction, SanctionRegistry, SanctionType};
use sim_engine::international::treaties::{
    Treaty, TreatyClause, TreatyRegistry, TreatyStatus, NEGOTIATION_COMPLETE,
};

// ---------------------------------------------------------------------------
// Intelligence levels
// ---------------------------------------------------------------------------

#[test]
fn test_intel_level_progression() {
    assert_eq!(IntelLevel::Unknown.upgrade(), Some(IntelLevel::BroadRange));
    assert_eq!(IntelLevel::BroadRange.upgrade(), Some(IntelLevel::NarrowRange));
    assert_eq!(IntelLevel::NarrowRange.upgrade(), Some(IntelLevel::Exact));
    assert_eq!(IntelLevel::Exact.upgrade(), None);
}

#[test]
fn test_intel_level_downgrade() {
    assert_eq!(IntelLevel::Exact.downgrade(), Some(IntelLevel::NarrowRange));
    assert_eq!(IntelLevel::Unknown.downgrade(), None);
}

#[test]
fn test_intel_level_has_data() {
    assert!(!IntelLevel::Unknown.has_data());
    assert!(IntelLevel::BroadRange.has_data());
    assert!(IntelLevel::NarrowRange.has_data());
    assert!(IntelLevel::Exact.has_data());
}

#[test]
fn test_compute_intel_level_no_diplomats() {
    let countries: Vec<CountryDiplomats> = Vec::new();
    let level = compute_intel_level(&countries, "A", "B", IntelLevel::Unknown);
    assert_eq!(level, IntelLevel::Unknown);
}

fn vip(id: &str, host: &str, post_type: DiplomaticPostType) -> PostedVip {
    PostedVip {
        id: id.to_string(),
        diplomatic_post: Some(DiplomaticPost { host_country: host.to_string(), post_type }),
    }
}

fn observer_with(vips: Vec<PostedVip>) -> Vec<CountryDiplomats> {
    vec![CountryDiplomats { name: "A".to_string(), vip_registry: Some(vips) }]
}

#[test]
fn intel_upgrade_then_downgrade_returns() {
    for level in [IntelLevel::Unknown, IntelLevel::BroadRange, IntelLevel::NarrowRange] {
        assert_eq!(level.upgrade().unwrap().downgrade(), Some(level));
    }
    assert_eq!(IntelLevel::Exact.as_str(), "Exact");
    assert_eq!(IntelLevel::default(), IntelLevel::Unknown);
}

#[test]
fn intel_from_consul_only_is_broad_range() {
    let countries = observer_with(vec![vip("v1", "B", DiplomaticPostType::Consul)]);
    assert_eq!(compute_intel_level(&countries, "A", "B", IntelLevel::Unknown), IntelLevel::BroadRange);
}

#[test]
fn intel_from_ambassador_is_narrow_range() {
    let countries = observer_with(vec![vip("v1", "B", DiplomaticPostType::Ambassador)]);
    assert_eq!(compute_intel_level(&countries, "A", "B", IntelLevel::Unknown), IntelLevel::NarrowRange);
}

#[test]
fn intel_from_ambassador_and_spy_is_exact() {
    let countries = observer_with(vec![
        vip("v1", "B", DiplomaticPostType::Ambassador),
        vip("v2", "B", DiplomaticPostType::Spy),
    ]);
    assert_eq!(compute_intel_level(&countries, "A", "B", IntelLevel::Unknown), IntelLevel::Exact);
}

#[test]
fn intel_ignores_posts_elsewhere_and_keeps_base() {
    let countries = observer_with(vec![vip("v1", "C", DiplomaticPostType::Ambassador)]);
    assert_eq!(compute_intel_level(&countries, "A", "B", IntelLevel::BroadRange), IntelLevel::BroadRange);
    let no_registry = vec![CountryDiplomats { name: "A".to_string(), vip_registry: None }];
    assert_eq!(compute_intel_level(&no_registry, "A", "B", IntelLevel::NarrowRange), IntelLevel::NarrowRange);
    // An observer that is not a known country learns nothing.
    assert_eq!(compute_intel_level(&no_registry, "Z", "B", IntelLevel::NarrowRange), IntelLevel::Unknown);
}

#[test]
fn count_diplomats_counts_posts_of_one_type_at_one_host() {
    let countries = observer_with(vec![
        vip("v1", "B", DiplomaticPostType::Spy),
        vip("v2", "B", DiplomaticPostType::Spy),
        vip("v3", "C", DiplomaticPostType::Spy),
        vip("v4", "B", DiplomaticPostType::Consul),
    ]);
    assert_eq!(count_diplomats(&countries, "A", "B", &DiplomaticPostType::Spy), 2);
    assert_eq!(count_diplomats(&countries, "A", "B", &DiplomaticPostType::Consul), 1);
    assert_eq!(count_diplomats(&countries, "A", "C", &DiplomaticPostType::Ambassador), 0);
    assert_eq!(count_diplomats(&countries, "Nobody", "B", &DiplomaticPostType::Spy), 0);
}

#[test]
fn diplomatic_post_cap_defaults() {
    let cap = DiplomaticPostCap::default();
    assert_eq!(cap.for_post_type(&DiplomaticPostType::Ambassador), cap.ambassador);
    assert_eq!(cap.for_post_type(&DiplomaticPostType::Consul), cap.consul);
    assert_eq!(cap.for_post_type(&DiplomaticPostType::Spy), cap.spy);
    assert_eq!(cap.for_post_type(&DiplomaticPostType::MilitaryAttache), cap.military_attache);
}

// ---------------------------------------------------------------------------
// Organizations
// ---------------------------------------------------------------------------

#[test]
fn test_integration_level_advancement() {
    let level = IntegrationLevel::FreeTradeArea;
    let next = level.advance().unwrap();
    assert_eq!(next, IntegrationLevel::CustomsUnion);

    let top = IntegrationLevel::PoliticalUnion;
    assert!(top.advance().is_none(), "Political Union cannot advance further");
}

#[test]
fn integration_advance_raises_ordinal_by_one() {
    let mut level = IntegrationLevel::FreeTradeArea;
    let mut steps = 0;
    while let Some(next) = level.advance() {
        assert_eq!(next.ordinal(), level.ordinal() + 1);
        level = next;
        steps += 1;
    }
    assert_eq!(steps, 4);
    assert_eq!(level.as_str(), "Political Union");
}

#[test]
fn council_add_and_remove_members() {
    let mut council = OrgCouncil::from_members(&["A".to_string(), "B".to_string()]);
    assert_eq!(council.members.len(), 2);
    assert!(council.members.iter().all(|m| m.has_veto && m.representative.is_none()));
    council.add_member("B");
    assert_eq!(council.members.len(), 2);
    council.add_member("C");
    assert_eq!(council.members.len(), 3);
    assert_eq!(council.members[2].country, "C");
    council.remove_member("A");
    assert_eq!(council.members.len(), 2);
    assert!(council.members.iter().all(|m| m.country != "A"));
}

#[test]
fn doctrine_default_and_labels() {
    assert_eq!(GeopoliticalDoctrine::default(), GeopoliticalDoctrine::Balanced);
    assert_eq!(GeopoliticalDoctrine::AllianceSeeker.as_str(), "Alliance Seeker");
    let dependent = GeopoliticalDoctrine::ResourceDependency { commodity: "oil".to_string() };
    assert_eq!(dependent.as_str(), "Resource Dependent");
}

// ---------------------------------------------------------------------------
// Sanctions
// ---------------------------------------------------------------------------

#[test]
fn test_sanction_type_includes() {
    assert!(SanctionType::FullEmbargo.includes_trade_embargo());
    assert!(SanctionType::FullEmbargo.includes_asset_freeze());
    assert!(SanctionType::FullEmbargo.includes_financial_isolation());

    assert!(SanctionType::TradeEmbargo.includes_trade_embargo());
    assert!(!SanctionType::TradeEmbargo.includes_asset_freeze());

    assert!(SanctionType::AssetFreeze.includes_asset_freeze());
    assert!(!SanctionType::AssetFreeze.includes_trade_embargo());

    assert!(SanctionType::FinancialIsolation.includes_financial_isolation());
    assert!(!SanctionType::FinancialIsolation.includes_asset_freeze());
}

#[test]
fn test_sanction_active_and_expired() {
    let sanction = Sanction::new(
        "SANCTION-000001".to_string(),
        "Badland".to_string(),
        "World Forum".to_string(),
        SanctionType::TradeEmbargo,
        10,
        20,
        "Treaty violation".to_string(),
    );

    // Active at turn 29
    assert!(sanction.is_active_at(29));

    // Expired at turn 30
    assert!(!sanction.is_active_at(30));
}

#[test]
fn test_sanction_lifted() {
    let mut sanction = Sanction::new(
        "SANCTION-000001".to_string(),
        "Badland".to_string(),
        "World Forum".to_string(),
        SanctionType::AssetFreeze,
        10,
        100,
        "Corruption".to_string(),
    );
    assert!(sanction.is_active());

    sanction.lift();
    assert!(!sanction.is_active());
}

#[test]
fn test_sanction_registry_active_sanctions() {
    let mut registry = SanctionRegistry::default();
    registry.enact_sanction(Sanction::new(
        "S1".to_string(),
        "Badland".to_string(),
        "World Forum".to_string(),
        SanctionType::TradeEmbargo,
        1,
        100,
        "Test".to_string(),
    ));
    registry.enact_sanction(Sanction::new(
        "S2".to_string(),
        "Badland".to_string(),
        "Pacific Pact".to_string(),
        SanctionType::AssetFreeze,
        1,
        100,
        "Test".to_string(),
    ));
    registry.enact_sanction(Sanction::new(
        "S3".to_string(),
        "Otherland".to_string(),
        "World Forum".to_string(),
        SanctionType::FullEmbargo,
        1,
        100,
        "Test".to_string(),
    ));

    let badland_sanctions = registry.active_sanctions_against("Badland", 50);
    assert_eq!(badland_sanctions.len(), 2);

    assert!(registry.has_trade_embargo("Badland", 50));
    assert!(registry.has_asset_freeze("Badland", 50));
    assert!(!registry.has_financial_isolation("Badland", 50));

    assert!(registry.has_financial_isolation("Otherland", 50));
    assert!(registry.has_trade_embargo("Otherland", 50));
}

#[test]
fn test_sanction_registry_expiry() {
    let mut registry = SanctionRegistry::default();
    registry.enact_sanction(Sanction::new(
        "S1".to_string(),
        "Badland".to_string(),
        "World Forum".to_string(),
        SanctionType::TradeEmbargo,
        1,
        10,
        "Test".to_string(),
    ));

    // Active at turn 10
    assert!(registry.has_trade_embargo("Badland", 10));

    // Expire at turn 11
    registry.expire_finished_sanctions(11);
    assert!(!registry.has_trade_embargo("Badland", 11));
}

#[test]
fn test_sanction_registry_lift() {
    let mut registry = SanctionRegistry::default();
    registry.enact_sanction(Sanction::new(
        "S1".to_string(),
        "Badland".to_string(),
        "World Forum".to_string(),
        SanctionType::FullEmbargo,
        1,
        100,
        "Test".to_string(),
    ));

    assert!(registry.is_sanctioned("Badland", 50));
    assert!(registry.lift_sanction("S1"));
    assert!(!registry.is_sanctioned("Badland", 50));
}

#[test]
fn sanction_ids_are_zero_padded_and_increasing() {
    let mut registry = SanctionRegistry::default();
    assert_eq!(registry.next_sanction_id(), "SANCTION-000001");
    assert_eq!(registry.next_sanction_id(), "SANCTION-000002");
    assert_eq!(registry.next_id, 2);
}

#[test]
fn sanction_expiry_turn_and_labels() {
    let s = Sanction::new(
        "S".to_string(),
        "X".to_string(),
        "O".to_string(),
        SanctionType::FullEmbargo,
        7,
        5,
        "r".to_string(),
    );
    assert_eq!(s.expires_at(), 12);
    assert_eq!(SanctionType::default(), SanctionType::FullEmbargo);
    assert_eq!(SanctionType::FinancialIsolation.as_str(), "Financial Isolation");
}

#[test]
fn lifting_unknown_sanction_changes_nothing() {
    let mut registry = SanctionRegistry::default();
    registry.enact_sanction(Sanction::new(
        "S1".to_string(),
        "Badland".to_string(),
        "World Forum".to_string(),
        SanctionType::TradeEmbargo,
        1,
        100,
        "Test".to_string(),
    ));
    assert!(!registry.lift_sanction("S9"));
    assert!(registry.is_sanctioned("Badland", 50));
    assert_eq!(registry.active_sanctions(50).len(), 1);
    assert_eq!(registry.active_sanctions(101).len(), 0);
}

// ---------------------------------------------------------------------------
// Treaties
// ---------------------------------------------------------------------------

#[test]
fn test_treaty_clause_capacity_costs() {
    assert!(TreatyClause::CustomsUnion.base_capacity_cost() > 0);
    assert!(TreatyClause::SchengenFreeMovement.base_capacity_cost() > 0);
    assert_eq!(TreatyClause::TradePreference.base_capacity_cost(), 1);
}

fn treaty(id: &str, name: &str, participants: &[&str], clauses: Vec<TreatyClause>, turn: u32, duration: u32, initiator: &str) -> Treaty {
    Treaty::new(
        id.to_string(),
        name.to_string(),
        participants.iter().map(|p| p.to_string()).collect(),
        clauses,
        turn,
        duration,
        initiator.to_string(),
    )
}

#[test]
fn test_treaty_new() {
    let treaty = treaty(
        "TREATY-000001",
        "Test Treaty",
        &["CountryA", "CountryB"],
        vec![TreatyClause::CustomsUnion, TreatyClause::TradePreference],
        10,
        100,
        "CountryA",
    );
    assert_eq!(treaty.status, TreatyStatus::Proposed);
    assert_eq!(treaty.negotiation_progress, 0);
    assert_eq!(treaty.diplomatic_capacity_cost, 4); // 3 + 1
    assert!(treaty.has_participants("CountryA", "CountryB"));
    assert!(!treaty.has_participants("CountryA", "CountryC"));
    assert!(treaty.has_clause(&TreatyClause::CustomsUnion));
    assert!(!treaty.has_clause(&TreatyClause::MutualDefense));
}

#[test]
fn test_treaty_registry_active_treaties_between() {
    let mut registry = TreatyRegistry::default();
    let mut t1 = treaty("TREATY-000001", "Customs Pact", &["A", "B"], vec![TreatyClause::CustomsUnion], 1, 100, "A");
    t1.status = TreatyStatus::Active;
    t1.signed_turn = Some(5);
    registry.treaties.push(t1);

    let mut t2 = treaty("TREATY-000002", "Defense Pact", &["B", "C"], vec![TreatyClause::MutualDefense], 2, 100, "B");
    t2.status = TreatyStatus::Proposed;
    registry.treaties.push(t2);

    let active_ab = registry.active_treaties_between("A", "B");
    assert_eq!(active_ab.len(), 1);
    assert!(registry.has_active_clause_between("A", "B", &TreatyClause::CustomsUnion));
    assert!(!registry.has_active_clause_between("B", "C", &TreatyClause::MutualDefense));
}

#[test]
fn test_treaty_sign_and_abrogate() {
    let mut registry = TreatyRegistry::default();
    // The default treaty duration of the treaty configuration.
    let default_duration_turns = 100;
    registry.treaties.push(treaty("TREATY-000001", "Test", &["A", "B"], vec![TreatyClause::TradePreference], 1, 100, "A"));

    // Sign
    assert!(registry.sign_treaty("TREATY-000001", 5, default_duration_turns));
    assert_eq!(registry.treaties[0].status, TreatyStatus::Active);
    assert_eq!(registry.treaties[0].signed_turn, Some(5));

    // Abrogate
    let abrogated = registry.abrogate_treaty("TREATY-000001");
    assert!(abrogated.is_some());
    assert_eq!(registry.treaties[0].status, TreatyStatus::Abrogated);
}

#[test]
fn test_treaty_expiry() {
    let mut registry = TreatyRegistry::default();
    let mut t = treaty("TREATY-000001", "Short Treaty", &["A", "B"], vec![TreatyClause::TradePreference], 1, 10, "A");
    t.status = TreatyStatus::Active;
    t.signed_turn = Some(5);
    t.duration_turns = 10;
    registry.treaties.push(t);

    // Not expired at turn 14
    registry.expire_finished_treaties(14);
    assert_eq!(registry.treaties[0].status, TreatyStatus::Active);

    // Expired at turn 15
    registry.expire_finished_treaties(15);
    assert_eq!(registry.treaties[0].status, TreatyStatus::Expired);
}

#[test]
fn signing_sets_progress_and_default_duration() {
    let mut registry = TreatyRegistry::default();
    registry.treaties.push(treaty("T1", "No Duration", &["A", "B"], vec![TreatyClause::MutualDefense], 1, 0, "A"));
    assert!(registry.sign_treaty("T1", 3, 42));
    assert_eq!(registry.treaties[0].negotiation_progress, NEGOTIATION_COMPLETE);
    assert_eq!(registry.treaties[0].duration_turns, 42);
    // A signed treaty cannot be signed again, and an unknown one not at all.
    assert!(!registry.sign_treaty("T1", 4, 42));
    assert!(!registry.sign_treaty("T2", 4, 42));
    assert!(registry.abrogate_treaty("T2").is_none());
}

#[test]
fn abrogating_a_proposed_treaty_fails() {
    let mut registry = TreatyRegistry::default();
    registry.treaties.push(treaty("T1", "Pending", &["A", "B"], vec![], 1, 10, "A"));
    assert!(registry.abrogate_treaty("T1").is_none());
    assert_eq!(registry.treaties[0].status, TreatyStatus::Proposed);
    assert_eq!(registry.treaties[0].diplomatic_capacity_cost, 0);
}

#[test]
fn treaty_registry_queries() {
    let mut registry = TreatyRegistry::default();
    assert_eq!(registry.next_treaty_id(), "TREATY-000001");
    let mut t1 = treaty("T1", "One", &["A", "B"], vec![TreatyClause::ResourceAccess { commodity: "oil".to_string() }], 1, 10, "A");
    t1.status = TreatyStatus::Active;
    registry.treaties.push(t1);
    registry.treaties.push(treaty("T2", "Two", &["A", "C"], vec![TreatyClause::TradePreference], 1, 10, "A"));
    assert_eq!(registry.active_treaties().len(), 1);
    assert_eq!(registry.treaties_for_country("A").len(), 2);
    assert_eq!(registry.treaties_for_country("C").len(), 1);
    assert!(registry.has_active_clause_between("B", "A", &TreatyClause::ResourceAccess { commodity: "oil".to_string() }));
    assert!(!registry.has_active_clause_between("A", "B", &TreatyClause::ResourceAccess { commodity: "gas".to_string() }));
}

#[test]
fn treaty_turns_since_signing_saturates() {
    let mut t = treaty("T1", "One", &["A", "B"], vec![], 1, 10, "A");
    assert_eq!(t.turns_since_signing(20), None);
    t.signed_turn = Some(12);
    assert_eq!(t.turns_since_signing(20), Some(8));
    assert_eq!(t.turns_since_signing(3), Some(0));
    assert!(!t.is_expired(21));
    assert!(t.is_expired(22));
    assert_eq!(TreatyStatus::default(), TreatyStatus::Proposed);
    assert_eq!(TreatyClause::SchengenFreeMovement.as_str(), "Schengen Free Movement");
}

// ---------------------------------------------------------------------------
// Relations turn and spies
// ---------------------------------------------------------------------------

fn relation(relations: i64) -> DiplomaticRelation {
    DiplomaticRelation {
        relations,
        frozen_turns: 0,
        ban_import: false,
        ban_export: false,
        free_trade: false,
        customs_union: false,
        investment_treaty: false,
        economic_community: false,
        treaty_description: "None".to_string(),
    }
}

fn calm() -> RelationDrivers {
    RelationDrivers {
        deficit: false,
        surplus: false,
        ideology_differs: false,
        shared_front: false,
        same_culture: false,
        high_exports: false,
        ambassador_bonus: None,
    }
}

#[test]
fn a_frozen_relation_only_thaws() {
    let mut rel = relation(-30);
    rel.frozen_turns = 2;
    let drivers = RelationDrivers { shared_front: true, ..calm() };
    assert!(!relation_turn(&mut rel, &drivers, true, true));
    assert_eq!(rel.frozen_turns, 1);
    assert_eq!(rel.relations, -30);
    assert!(!rel.ban_import);
}

#[test]
fn hostility_past_minus_fifty_can_bring_an_embargo() {
    let drivers = RelationDrivers { deficit: true, ideology_differs: true, shared_front: true, ..calm() };
    let mut rel = relation(-48);
    rel.free_trade = true;
    rel.customs_union = true;
    rel.investment_treaty = true;
    assert!(relation_turn(&mut rel, &drivers, true, true));
    assert_eq!(rel.relations, -53);
    assert!(rel.ban_import && rel.ban_export);
    assert!(!rel.free_trade && !rel.customs_union);
    assert!(rel.investment_treaty);
    assert_eq!(rel.treaty_description, "Embargo");

    let mut missed = relation(-48);
    relation_turn(&mut missed, &drivers, false, true);
    assert_eq!(missed.relations, -53);
    assert!(!missed.ban_import);
    assert_eq!(missed.treaty_description, "None");
}

#[test]
fn friendship_past_fifty_can_open_free_trade() {
    let drivers = RelationDrivers { surplus: true, same_culture: true, high_exports: true, ..calm() };
    let mut rel = relation(49);
    rel.ban_import = true;
    relation_turn(&mut rel, &drivers, true, true);
    assert_eq!(rel.relations, 52);
    assert!(rel.free_trade);
    assert!(!rel.ban_import && !rel.ban_export);
    assert_eq!(rel.treaty_description, "Free Trade");
}

#[test]
fn relations_are_clamped_and_ambassadors_help() {
    let mut rel = relation(99);
    relation_turn(&mut rel, &RelationDrivers { ambassador_bonus: Some(5), ..calm() }, false, false);
    assert_eq!(rel.relations, 100);
    let mut low = relation(-99);
    let hostile = RelationDrivers { deficit: true, ideology_differs: true, shared_front: true, ..calm() };
    relation_turn(&mut low, &hostile, false, false);
    assert_eq!(low.relations, -100);
    let mut plain = relation(10);
    relation_turn(&mut plain, &RelationDrivers { ambassador_bonus: Some(0), ..calm() }, false, false);
    assert_eq!(plain.relations, 11);
}

#[test]
fn mending_relations_lift_the_bans() {
    let mut rel = relation(3);
    rel.ban_import = true;
    rel.ban_export = true;
    relation_turn(&mut rel, &calm(), false, false);
    assert!(!rel.ban_import && !rel.ban_export);
    let mut at_zero = relation(1);
    at_zero.ban_import = true;
    relation_turn(&mut at_zero, &RelationDrivers { ideology_differs: true, ..calm() }, false, false);
    assert_eq!(at_zero.relations, 0);
    assert!(at_zero.ban_import);
}

#[test]
fn a_caught_spy_is_expelled_and_freezes_relations() {
    let mut rel = relation(10);
    assert_eq!(spy_outcome(&mut rel, true, 5, 20), SpyOutcome::Expelled);
    assert_eq!(rel.frozen_turns, 5);
    assert_eq!(rel.relations, -10);
    let mut floor = relation(-95);
    spy_outcome(&mut floor, true, 5, 20);
    assert_eq!(floor.relations, -100);
    let mut quiet = relation(10);
    assert_eq!(spy_outcome(&mut quiet, false, 5, 20), SpyOutcome::Intel(IntelLevel::NarrowRange));
    assert_eq!(quiet, relation(10));
}

// ---------------------------------------------------------------------------
// Doctrine actions
// ---------------------------------------------------------------------------

fn foreign(name: &str, unit_count: u32, richer: bool) -> ForeignCountry {
    ForeignCountry { name: name.to_string(), unit_count, richer }
}

fn rolls(hit: bool, recalls: Vec<bool>) -> DoctrineRolls {
    DoctrineRolls { provocation: hit, treaty: hit, affords_aid: true, aid: hit, recalls }
}

#[test]
fn test_execute_doctrine_balanced_no_actions() {
    let actions = doctrine_actions("Test", &GeopoliticalDoctrine::Balanced, &[], &[], &[], &rolls(true, vec![]), 1);
    assert!(actions.is_empty(), "Balanced doctrine should produce no actions");
}

#[test]
fn test_execute_doctrine_expansionist_may_provoke() {
    let others = vec![foreign("Strongland", 20, false), foreign("Weakland", 3, false)];
    let actions =
        doctrine_actions("Strongland", &GeopoliticalDoctrine::Expansionist, &others, &[], &[], &rolls(true, vec![]), 1);
    assert!(!actions.is_empty(), "Expansionist should generate provocation");
    assert!(matches!(actions[0], DiplomaticAction::BorderProvocation { .. }));
}

#[test]
fn an_expansionist_provokes_the_weakest_other_country() {
    let others = vec![
        foreign("Self", 1, false),
        foreign("A", 5, false),
        foreign("B", 3, false),
        foreign("C", 3, false),
    ];
    let actions = doctrine_actions("Self", &GeopoliticalDoctrine::Expansionist, &others, &[], &[], &rolls(true, vec![]), 4);
    assert_eq!(
        actions,
        vec![DiplomaticAction::BorderProvocation {
            from_country: "Self".to_string(),
            to_country: "B".to_string(),
            intensity_percent: 70,
        }]
    );
    let missed = doctrine_actions("Self", &GeopoliticalDoctrine::Expansionist, &others, &[], &[], &rolls(false, vec![]), 4);
    assert!(missed.is_empty());
    let alone = doctrine_actions("Self", &GeopoliticalDoctrine::Expansionist, &others[..1], &[], &[], &rolls(true, vec![]), 4);
    assert!(alone.is_empty());
}

#[test]
fn an_alliance_seeker_posts_an_idle_ambassador() {
    let others = vec![foreign("Self", 1, false), foreign("Friend", 5, false), foreign("Other", 2, false)];
    let idle = vec!["VIP-7".to_string(), "VIP-9".to_string()];
    let actions =
        doctrine_actions("Self", &GeopoliticalDoctrine::AllianceSeeker, &others, &idle, &[], &rolls(true, vec![]), 12);
    assert_eq!(
        actions,
        vec![DiplomaticAction::AssignDiplomat {
            vip_id: "VIP-7".to_string(),
            home_country: "Self".to_string(),
            host_country: "Friend".to_string(),
            post_type: DiplomaticPostType::Ambassador,
            assigned_turn: 12,
        }]
    );
    let nobody = doctrine_actions("Self", &GeopoliticalDoctrine::AllianceSeeker, &others, &[], &[], &rolls(true, vec![]), 12);
    assert!(nobody.is_empty());
}

#[test]
fn a_resource_dependent_country_aids_a_richer_one() {
    let doctrine = GeopoliticalDoctrine::ResourceDependency { commodity: "Oil".to_string() };
    let others = vec![foreign("Poor", 1, false), foreign("Self", 1, true), foreign("Rich", 1, true)];
    let actions = doctrine_actions("Self", &doctrine, &others, &[], &[], &rolls(true, vec![]), 3);
    assert_eq!(
        actions,
        vec![DiplomaticAction::SendEconomicAid {
            from_country: "Self".to_string(),
            to_country: "Rich".to_string(),
            amount: 50000,
        }]
    );
    let broke = DoctrineRolls { affords_aid: false, ..rolls(true, vec![]) };
    assert!(doctrine_actions("Self", &doctrine, &others, &[], &[], &broke, 3).is_empty());
}

#[test]
fn an_isolationist_recalls_the_diplomats_whose_draw_hits() {
    let posted = vec!["V1".to_string(), "V2".to_string(), "V3".to_string()];
    let actions = doctrine_actions(
        "Self",
        &GeopoliticalDoctrine::Isolationist,
        &[],
        &[],
        &posted,
        &rolls(false, vec![true, false, true]),
        3,
    );
    assert_eq!(
        actions,
        vec![
            DiplomaticAction::RecallDiplomat { vip_id: "V1".to_string(), home_country: "Self".to_string() },
            DiplomaticAction::RecallDiplomat { vip_id: "V3".to_string(), home_country: "Self".to_string() },
        ]
    );
}

// ---------------------------------------------------------------------------
// Organizations and their registry
// ---------------------------------------------------------------------------

#[test]
fn test_world_forum_creation() {
    let countries = vec!["A".to_string(), "B".to_string(), "C".to_string()];
    let forum = InternationalOrganization::new_world_forum(&countries, 1);
    assert_eq!(forum.name, "World Forum");
    assert_eq!(forum.member_states.len(), 3);
    assert_eq!(forum.voting_mechanism, VotingMechanism::Unanimity);
    assert_eq!(forum.integration_level, IntegrationLevel::FreeTradeArea);
    assert!(forum.is_member("A"));
    assert!(!forum.is_member("D"));
}

#[test]
fn test_org_member_add_remove() {
    let mut org = InternationalOrganization::new(
        "ORG-000001".to_string(),
        "Test Org".to_string(),
        vec!["A".to_string(), "B".to_string()],
        IntegrationLevel::CustomsUnion,
        VotingMechanism::SimpleMajority,
        1,
    );
    assert_eq!(org.member_states.len(), 2);

    org.add_member("C");
    assert_eq!(org.member_states.len(), 3);
    assert!(org.council.members.iter().any(|m| m.country == "C"));

    org.remove_member("A");
    assert_eq!(org.member_states.len(), 2);
    assert!(!org.council.members.iter().any(|m| m.country == "A"));
}

#[test]
fn adding_a_member_twice_changes_nothing() {
    let mut org = InternationalOrganization::new_world_forum(&["A".to_string()], 3);
    let before = org.clone();
    org.add_member("A");
    assert_eq!(org, before);
    org.remove_member("Z");
    assert_eq!(org.member_states, vec!["A".to_string()]);
    assert_eq!(org.id, "ORG-WORLDFORUM");
    assert_eq!(VotingMechanism::QualifiedMajority { threshold_percent: 65 }.as_str(), "Qualified Majority");
}

#[test]
fn test_org_registry_world_forum() {
    let mut registry = OrganizationRegistry::default();
    registry.organizations.push(InternationalOrganization::new_world_forum(&["A".to_string(), "B".to_string()], 1));
    assert!(registry.world_forum().is_some());
    assert_eq!(registry.world_forum().unwrap().name, "World Forum");
    assert!(OrganizationRegistry::default().world_forum().is_none());
}

#[test]
fn test_org_registry_orgs_for_country() {
    let mut registry = OrganizationRegistry::default();
    registry.organizations.push(InternationalOrganization::new_world_forum(&["A".to_string(), "B".to_string()], 1));
    registry.organizations.push(InternationalOrganization::new(
        "ORG-000001".to_string(),
        "Pacific Pact".to_string(),
        vec!["B".to_string(), "C".to_string()],
        IntegrationLevel::CustomsUnion,
        VotingMechanism::QualifiedMajority { threshold_percent: 60 },
        5,
    ));

    let a_orgs = registry.orgs_for_country("A");
    assert_eq!(a_orgs.len(), 1, "A should be in 1 org (World Forum)");

    let b_orgs = registry.orgs_for_country("B");
    assert_eq!(b_orgs.len(), 2, "B should be in 2 orgs");
    assert_eq!(b_orgs[1].name, "Pacific Pact");
}

#[test]
fn test_org_process_turn_integration_advancement() {
    let mut registry = OrganizationRegistry::default();
    registry.organizations.push(InternationalOrganization::new_world_forum(&["A".to_string()], 1));
    let config = OrgConfig { min_turns_for_integration: 10, ..OrgConfig::default() };

    // Before threshold — no advancement
    registry.process_turn(5, &config);
    assert_eq!(registry.organizations[0].integration_level, IntegrationLevel::FreeTradeArea);

    // After threshold — should advance
    registry.process_turn(51, &config);
    assert_ne!(registry.organizations[0].integration_level, IntegrationLevel::FreeTradeArea);
    assert_eq!(registry.organizations[0].integration_level, IntegrationLevel::CustomsUnion);
}

#[test]
fn test_org_process_turn_voting_evolution() {
    let mut registry = OrganizationRegistry::default();
    let mut org = InternationalOrganization::new_world_forum(&["A".to_string()], 1);
    org.integration_level = IntegrationLevel::CommonMarket;
    registry.organizations.push(org);

    let config = OrgConfig::default();

    registry.process_turn(100, &config);
    assert_ne!(
        registry.organizations[0].voting_mechanism,
        VotingMechanism::Unanimity,
        "Voting should evolve past Unanimity at CommonMarket level"
    );
    assert_eq!(registry.organizations[0].voting_mechanism, VotingMechanism::QualifiedMajority { threshold_percent: 65 });
    assert_eq!(registry.organizations[0].integration_level, IntegrationLevel::EconomicUnion);
}

#[test]
fn organization_ids_count_up_padded() {
    let mut registry = OrganizationRegistry::default();
    assert_eq!(registry.next_org_id(), "ORG-000001");
    assert_eq!(registry.next_org_id(), "ORG-000002");
    assert_eq!(registry.next_id, 2);
}

#[test]
fn only_active_sanctions_mark_a_country() {
    let registry = OrganizationRegistry::default();
    let mut sanction = Sanction::new(
        "S1".to_string(),
        "Badland".to_string(),
        "World Forum".to_string(),
        SanctionType::TradeEmbargo,
        1,
        10,
        "test".to_string(),
    );
    assert!(registry.is_country_sanctioned("Badland", &[sanction.clone()]));
    assert!(!registry.is_country_sanctioned("Goodland", &[sanction.clone()]));
    sanction.lift();
    assert!(!registry.is_country_sanctioned("Badland", &[sanction]));
}

#[test]
fn starting_relations_follow_the_drawn_score() {
    let hostile = initial_relation(-80, true);
    assert_eq!(hostile.relations, -80);
    assert!(hostile.ban_import && hostile.ban_export && !hostile.free_trade);
    assert_eq!(hostile.frozen_turns, 0);
    assert_eq!(hostile.treaty_description, "None");
    let friendly = initial_relation(70, true);
    assert!(friendly.free_trade && !friendly.ban_import);
    assert_eq!(initial_relation(70, false), relation(70));
    assert_eq!(initial_relation(0, true), relation(0));
}

fn readings() -> DoctrineReadings {
    DoctrineReadings {
        military_dominant: false,
        resource_deficit: false,
        needed_commodity: "Energy".to_string(),
        reputation_low: false,
        reputation_high: false,
    }
}

#[test]
fn doctrines_follow_their_priority() {
    assert_eq!(doctrine_from_readings(readings()), GeopoliticalDoctrine::Balanced);
    assert_eq!(
        doctrine_from_readings(DoctrineReadings { military_dominant: true, resource_deficit: true, ..readings() }),
        GeopoliticalDoctrine::Expansionist
    );
    assert_eq!(
        doctrine_from_readings(DoctrineReadings { resource_deficit: true, reputation_low: true, ..readings() }),
        GeopoliticalDoctrine::ResourceDependency { commodity: "Energy".to_string() }
    );
    assert_eq!(
        doctrine_from_readings(DoctrineReadings { reputation_low: true, reputation_high: true, ..readings() }),
        GeopoliticalDoctrine::Isolationist
    );
    assert_eq!(
        doctrine_from_readings(DoctrineReadings { reputation_high: true, ..readings() }),
        GeopoliticalDoctrine::AllianceSeeker
    );
}
