use land_registry::registry::RegistryState;
use land_registry::types::Coordinates;
use land_registry::types::Dimensions;
use land_registry::types::LandMetadata;
use land_registry::types::LandRegistration;
use land_registry::types::LandRegistryError;
use land_registry::types::LandType;
use land_registry::types::SearchFilters;
use land_registry::types::TransactionType;
use land_registry::types::NO_SENDER;

const ADMIN: u64 = 1;
const X: u64 = 10;
const Y: u64 = 20;

fn reg_at(x: i32, y: i32, z: i32, w: u32, h: u32, d: u32, desc: &str) -> LandRegistration {
    LandRegistration {
        coordinates: Coordinates { x, y, z },
        dimensions: Dimensions { width: w, height: h, depth: d },
        land_type: LandType::Residential,
        description: desc.to_string(),
        metadata: None,
    }
}

fn no_filters() -> SearchFilters {
    SearchFilters {
        land_type: None,
        min_price: None,
        max_price: None,
        coordinates_range: None,
        min_area: None,
        features: None,
    }
}

/// Scenario A: two touching parcels register; an overlapping third fails.
fn scenario_a() -> RegistryState {
    let mut s = RegistryState::new(ADMIN);
    let id0 = s.register_land(X, reg_at(0, 0, 0, 10, 10, 10, "first parcel"), 1000);
    assert_eq!(id0, Ok(0));
    let id1 = s.register_land(X, reg_at(10, 0, 0, 10, 10, 10, "second parcel"), 1001);
    assert_eq!(id1, Ok(1));
    let id2 = s.register_land(X, reg_at(5, 0, 0, 10, 10, 10, "overlapping parcel"), 1002);
    assert_eq!(id2, Err(LandRegistryError::LandAlreadyExists));
    s
}

/// Scenario A followed by B: X lists land 0 at 100 and Y buys it.
fn scenario_ab() -> RegistryState {
    let mut s = scenario_a();
    assert_eq!(s.list_for_sale(X, 0, 100, 1100), Ok(()));
    assert_eq!(s.get_marketplace_listings().len(), 1);
    assert_eq!(s.buy_land(Y, 0, 1200), Ok(()));
    s
}

#[test]
fn registration_assigns_sequential_ids_and_rejects_overlap() {
    let s = scenario_a();
    assert_eq!(s.get_total_supply(), 2);
    assert_eq!(s.get_next_land_id(), 2);
    assert_eq!(s.get_land_owner(0), Some(X));
    assert_eq!(s.get_land_owner(1), Some(X));
    assert!(s.get_land(2).is_none());
}

#[test]
fn touching_parcel_succeeds_overlapping_by_one_unit_fails() {
    let mut s = RegistryState::new(ADMIN);
    assert_eq!(s.register_land(X, reg_at(0, 0, 0, 10, 10, 10, "base"), 1), Ok(0));
    // shares the x-face exactly: allowed
    assert_eq!(s.register_land(X, reg_at(10, 0, 0, 10, 10, 10, "face"), 2), Ok(1));
    // touches the base box's x-face from the left, despite y/z overlap: allowed
    assert_eq!(s.register_land(X, reg_at(-10, 9, 9, 10, 10, 10, "left face"), 3), Ok(2));
    // one unit into the base box on every axis: rejected
    let overlap = s.register_land(X, reg_at(9, 9, 9, 10, 10, 10, "corner"), 4);
    assert_eq!(overlap, Err(LandRegistryError::LandAlreadyExists));
}

#[test]
fn registration_error_taxonomy() {
    let mut s = RegistryState::new(ADMIN);
    assert_eq!(
        s.register_land(X, reg_at(2_000_000, 0, 0, 10, 10, 10, "far away"), 1),
        Err(LandRegistryError::InvalidCoordinates)
    );
    assert_eq!(
        s.register_land(X, reg_at(0, 0, 0, 0, 10, 10, "flat"), 1),
        Err(LandRegistryError::InvalidDimensions)
    );
    assert_eq!(
        s.register_land(X, reg_at(0, 0, 0, 20_000, 10, 10, "too wide"), 1),
        Err(LandRegistryError::InvalidDimensions)
    );
    assert_eq!(
        s.register_land(X, reg_at(0, 0, 0, 10, 10, 10, "   "), 1),
        Err(LandRegistryError::InvalidInput)
    );
    assert_eq!(
        s.register_land(X, reg_at(0, 0, 0, 10, 10, 10, ""), 1),
        Err(LandRegistryError::InvalidInput)
    );
    // nothing was stored by the failed attempts
    assert_eq!(s.get_total_supply(), 0);
    assert_eq!(s.get_next_land_id(), 0);
}

#[test]
fn buying_a_listed_parcel_moves_ownership_and_records_a_sale() {
    let s = scenario_ab();
    assert_eq!(s.get_land_owner(0), Some(Y));
    assert!(s.get_marketplace_listings().is_empty());
    let ledger = s.get_transaction_history(None);
    assert_eq!(ledger.len(), 3);
    let last = ledger[2];
    assert_eq!(last.land_id, 0);
    assert_eq!(last.from, X);
    assert_eq!(last.to, Y);
    assert_eq!(last.price, Some(100));
    assert_eq!(last.transaction_type, TransactionType::Sale);
    assert_eq!(last.timestamp, 1200);
}

#[test]
fn registration_ledger_entry_uses_the_sentinel_sender() {
    let s = scenario_a();
    let ledger = s.get_transaction_history(None);
    assert_eq!(ledger.len(), 2);
    assert_eq!(ledger[0].from, NO_SENDER);
    assert_eq!(ledger[0].to, X);
    assert_eq!(ledger[0].price, None);
    assert_eq!(ledger[0].transaction_type, TransactionType::Registration);
}

#[test]
fn seller_who_transferred_away_cannot_relist() {
    let mut s = scenario_a();
    assert_eq!(s.transfer_land(X, 1, Y, 2000), Ok(()));
    assert_eq!(s.list_for_sale(X, 1, 50, 2001), Err(LandRegistryError::Unauthorized));
    assert_eq!(s.get_land_owner(1), Some(Y));
}

#[test]
fn statistics_after_scenarios_a_and_b() {
    let s = scenario_ab();
    let stats = s.get_land_statistics();
    assert_eq!(stats.total_lands, 2);
    assert_eq!(stats.total_owners, 2); // X owns land 1, Y owns land 0
    assert_eq!(stats.lands_for_sale, 0);
    assert_eq!(stats.average_price, None);
    assert_eq!(stats.total_transactions, 3);
}

#[test]
fn average_price_rounds_down() {
    let mut s = scenario_a();
    assert_eq!(s.list_for_sale(X, 0, 100, 1100), Ok(()));
    assert_eq!(s.list_for_sale(X, 1, 51, 1101), Ok(()));
    let stats = s.get_land_statistics();
    assert_eq!(stats.lands_for_sale, 2);
    assert_eq!(stats.average_price, Some(75)); // (100 + 51) / 2, rounded down
}

#[test]
fn remove_from_sale_twice_gives_success_then_not_for_sale() {
    let mut s = scenario_a();
    assert_eq!(s.list_for_sale(X, 0, 100, 1100), Ok(()));
    assert_eq!(s.remove_from_sale(X, 0), Ok(()));
    assert_eq!(s.remove_from_sale(X, 0), Err(LandRegistryError::LandNotForSale));
}

#[test]
fn marketplace_error_taxonomy() {
    let mut s = scenario_a();
    assert_eq!(s.list_for_sale(X, 7, 100, 1100), Err(LandRegistryError::LandNotFound));
    assert_eq!(s.list_for_sale(Y, 0, 100, 1100), Err(LandRegistryError::Unauthorized));
    assert_eq!(s.list_for_sale(X, 0, 0, 1100), Err(LandRegistryError::InvalidInput));
    assert_eq!(s.buy_land(Y, 0, 1200), Err(LandRegistryError::LandNotForSale));
    assert_eq!(s.list_for_sale(X, 0, 100, 1100), Ok(()));
    assert_eq!(s.buy_land(X, 0, 1200), Err(LandRegistryError::InvalidInput)); // own listing
    assert_eq!(s.remove_from_sale(Y, 0), Err(LandRegistryError::Unauthorized));
}

#[test]
fn transfer_error_taxonomy() {
    let mut s = scenario_a();
    assert_eq!(s.transfer_land(X, 9, Y, 2000), Err(LandRegistryError::LandNotFound));
    assert_eq!(s.transfer_land(Y, 0, X, 2000), Err(LandRegistryError::Unauthorized));
    assert_eq!(s.transfer_land(X, 0, X, 2000), Err(LandRegistryError::InvalidInput));
}

#[test]
fn transfer_drops_the_listing() {
    let mut s = scenario_a();
    assert_eq!(s.list_for_sale(X, 0, 100, 1100), Ok(()));
    assert_eq!(s.transfer_land(X, 0, Y, 2000), Ok(()));
    assert!(s.get_marketplace_listing(0).is_none());
    let ledger = s.get_transaction_history(Some(0));
    assert_eq!(ledger.len(), 2); // registration + transfer
    assert_eq!(ledger[1].transaction_type, TransactionType::Transfer);
    assert_eq!(ledger[1].price, None);
}

#[test]
fn listing_snapshots_the_record_at_listing_time() {
    let mut s = scenario_a();
    assert_eq!(s.list_for_sale(X, 0, 100, 1100), Ok(()));
    let meta = LandMetadata {
        environment: Some("coastal".to_string()),
        special_features: vec!["beach access".to_string()],
        access_roads: vec![],
        utilities: vec![],
    };
    assert_eq!(s.update_land_metadata(X, 0, meta, 1150), Ok(()));
    let listing = s.get_marketplace_listing(0).unwrap();
    assert_eq!(listing.seller, X);
    assert_eq!(listing.price, 100);
    assert_eq!(listing.listed_at, 1100);
    assert!(listing.land_info.metadata.is_none()); // snapshot, not re-synced
    assert!(s.get_land(0).unwrap().metadata.is_some());
    assert_eq!(s.get_land(0).unwrap().last_updated, 1150);
}

#[test]
fn metadata_update_requires_ownership() {
    let mut s = scenario_a();
    let meta = LandMetadata {
        environment: None,
        special_features: vec![],
        access_roads: vec![],
        utilities: vec![],
    };
    assert_eq!(s.update_land_metadata(Y, 0, meta, 1150), Err(LandRegistryError::Unauthorized));
    let meta2 = LandMetadata {
        environment: None,
        special_features: vec![],
        access_roads: vec![],
        utilities: vec![],
    };
    assert_eq!(s.update_land_metadata(X, 42, meta2, 1150), Err(LandRegistryError::LandNotFound));
}

#[test]
fn admin_rights_gate_admin_operations() {
    let mut s = scenario_a();
    assert!(s.is_admin(ADMIN));
    assert!(!s.is_admin(X));
    assert_eq!(s.add_admin(X, Y), Err(LandRegistryError::Unauthorized));
    assert_eq!(s.add_admin(ADMIN, X), Ok(()));
    assert!(s.is_admin(X));
    assert_eq!(s.remove_land(Y, 0), Err(LandRegistryError::Unauthorized));
    assert_eq!(s.remove_land(ADMIN, 0), Ok(()));
    assert!(s.get_land(0).is_none());
    assert_eq!(s.get_total_supply(), 1);
    // removing an absent parcel still succeeds, doing nothing
    assert_eq!(s.remove_land(ADMIN, 0), Ok(()));
}

#[test]
fn remove_land_prunes_the_marketplace_but_not_the_ledger() {
    let mut s = scenario_a();
    assert_eq!(s.list_for_sale(X, 0, 100, 1100), Ok(()));
    assert_eq!(s.remove_land(ADMIN, 0), Ok(()));
    assert!(s.get_marketplace_listing(0).is_none());
    assert_eq!(s.get_transaction_history(None).len(), 2); // no removal entry
}

#[test]
fn backup_then_restore_reproduces_the_store() {
    let mut s = scenario_ab();
    assert_eq!(s.list_for_sale(Y, 0, 300, 1300), Ok(()));
    let before = s.get_all_lands();
    let next_before = s.get_next_land_id();
    let backup = s.backup_lands(ADMIN);
    assert_eq!(backup.len(), 2);
    assert_eq!(s.restore_lands(ADMIN, backup), Ok(()));
    let after = s.get_all_lands();
    assert_eq!(before.len(), after.len());
    for (a, b) in before.iter().zip(after.iter()) {
        assert_eq!(a.id, b.id);
        assert_eq!(a.owner, b.owner);
        assert_eq!(a.description, b.description);
        assert_eq!(a.created_at, b.created_at);
        assert_eq!(a.last_updated, b.last_updated);
    }
    assert_eq!(s.get_next_land_id(), next_before);
    // the still-consistent listing survives the restore
    assert!(s.get_marketplace_listing(0).is_some());
}

#[test]
fn backup_for_non_admin_is_empty_and_restore_refused() {
    let mut s = scenario_a();
    assert!(s.backup_lands(X).is_empty());
    assert_eq!(s.restore_lands(X, Vec::new()), Err(LandRegistryError::Unauthorized));
}

#[test]
fn restore_rejects_an_inconsistent_snapshot() {
    let mut s = RegistryState::new(ADMIN);
    assert_eq!(s.register_land(X, reg_at(0, 0, 0, 10, 10, 10, "kept"), 1), Ok(0));
    let mut snapshot = s.backup_lands(ADMIN);
    let mut clash = s.backup_lands(ADMIN);
    let mut second = clash.pop().unwrap();
    second.id = 5;
    second.coordinates = Coordinates { x: 5, y: 5, z: 5 }; // overlaps the first
    snapshot.push(second);
    assert_eq!(s.restore_lands(ADMIN, snapshot), Err(LandRegistryError::InvalidInput));
    // nothing changed
    assert_eq!(s.get_total_supply(), 1);
    assert_eq!(s.get_next_land_id(), 1);
}

#[test]
fn restore_raises_the_identifier_counter() {
    let mut s = RegistryState::new(ADMIN);
    assert_eq!(s.register_land(X, reg_at(0, 0, 0, 10, 10, 10, "kept"), 1), Ok(0));
    let mut snapshot = s.backup_lands(ADMIN);
    snapshot[0].id = 41;
    assert_eq!(s.restore_lands(ADMIN, snapshot), Ok(()));
    assert_eq!(s.get_next_land_id(), 42);
    // the next registration uses the raised counter
    assert_eq!(s.register_land(X, reg_at(100, 100, 0, 10, 10, 10, "next"), 2), Ok(42));
}

#[test]
fn lands_by_owner_and_ownership_checks() {
    let s = scenario_ab();
    let of_x = s.get_lands_by_owner(X);
    assert_eq!(of_x.len(), 1);
    assert_eq!(of_x[0].id, 1);
    let of_y = s.get_lands_by_owner(Y);
    assert_eq!(of_y.len(), 1);
    assert_eq!(of_y[0].id, 0);
    assert_eq!(s.get_land_count_by_owner(X), 1);
    assert_eq!(s.get_land_count_by_owner(77), 0);
    assert!(s.verify_land_ownership(0, Y));
    assert!(!s.verify_land_ownership(0, X));
    assert!(!s.verify_land_ownership(9, X));
}

#[test]
fn search_by_type_area_and_coordinates() {
    let mut s = RegistryState::new(ADMIN);
    let mut big = reg_at(0, 0, 0, 100, 100, 10, "big commercial");
    big.land_type = LandType::Commercial;
    assert_eq!(s.register_land(X, big, 1), Ok(0));
    assert_eq!(s.register_land(X, reg_at(500, 500, 0, 10, 10, 10, "small home"), 2), Ok(1));

    let mut by_type = no_filters();
    by_type.land_type = Some(LandType::Commercial);
    let found = s.search_lands(by_type);
    assert_eq!(found.len(), 1);
    assert_eq!(found[0].id, 0);

    let mut by_area = no_filters();
    by_area.min_area = Some(101);
    let found = s.search_lands(by_area);
    assert_eq!(found.len(), 1);
    assert_eq!(found[0].id, 0);

    let mut by_range = no_filters();
    by_range.coordinates_range = Some((
        Coordinates { x: 400, y: 400, z: -10 },
        Coordinates { x: 600, y: 600, z: 10 },
    ));
    let found = s.search_lands(by_range);
    assert_eq!(found.len(), 1);
    assert_eq!(found[0].id, 1);

    assert_eq!(s.get_lands_by_type(LandType::Commercial).len(), 1);
    assert_eq!(s.get_lands_by_type(LandType::Industrial).len(), 0);

    let in_box = s.search_by_coordinates(
        Coordinates { x: -1, y: -1, z: -1 },
        Coordinates { x: 1, y: 1, z: 1 },
    );
    assert_eq!(in_box.len(), 1);
    assert_eq!(in_box[0].id, 0);
}

#[test]
fn feature_search_matches_substrings_and_excludes_bare_records() {
    let mut s = RegistryState::new(ADMIN);
    let mut with_meta = reg_at(0, 0, 0, 10, 10, 10, "featured");
    with_meta.metadata = Some(LandMetadata {
        environment: Some("forest".to_string()),
        special_features: vec!["river frontage".to_string(), "old growth".to_string()],
        access_roads: vec!["north road".to_string()],
        utilities: vec![],
    });
    assert_eq!(s.register_land(X, with_meta, 1), Ok(0));
    assert_eq!(s.register_land(X, reg_at(100, 0, 0, 10, 10, 10, "plain"), 2), Ok(1));

    let mut wants_river = no_filters();
    wants_river.features = Some(vec!["river".to_string()]);
    let found = s.search_lands(wants_river);
    assert_eq!(found.len(), 1);
    assert_eq!(found[0].id, 0);

    let mut wants_both = no_filters();
    wants_both.features = Some(vec!["river".to_string(), "growth".to_string()]);
    assert_eq!(s.search_lands(wants_both).len(), 1);

    let mut wants_missing = no_filters();
    wants_missing.features = Some(vec!["volcano".to_string()]);
    assert!(s.search_lands(wants_missing).is_empty());

    // an empty feature list does not exclude metadata-less parcels
    let mut empty_features = no_filters();
    empty_features.features = Some(vec![]);
    assert_eq!(s.search_lands(empty_features).len(), 2);
}

#[test]
fn marketplace_search_applies_price_bounds() {
    let mut s = scenario_a();
    assert_eq!(s.list_for_sale(X, 0, 100, 1100), Ok(()));
    assert_eq!(s.list_for_sale(X, 1, 500, 1101), Ok(()));

    let mut cheap = no_filters();
    cheap.max_price = Some(200);
    let found = s.search_marketplace(cheap);
    assert_eq!(found.len(), 1);
    assert_eq!(found[0].land_id, 0);

    let mut pricey = no_filters();
    pricey.min_price = Some(200);
    let found = s.search_marketplace(pricey);
    assert_eq!(found.len(), 1);
    assert_eq!(found[0].land_id, 1);

    let everything = s.search_marketplace(no_filters());
    assert_eq!(everything.len(), 2);

    let by_type = s.get_lands_for_sale_by_type(LandType::Residential);
    assert_eq!(by_type.len(), 2);
    assert!(s.get_lands_for_sale_by_type(LandType::Mixed).is_empty());
}

#[test]
fn marketplace_search_applies_the_feature_filter() {
    let mut s = RegistryState::new(ADMIN);
    let mut with_meta = reg_at(0, 0, 0, 10, 10, 10, "featured parcel");
    with_meta.metadata = Some(LandMetadata {
        environment: None,
        special_features: vec!["river frontage".to_string()],
        access_roads: vec![],
        utilities: vec![],
    });
    assert_eq!(s.register_land(X, with_meta, 1), Ok(0));
    assert_eq!(s.register_land(X, reg_at(100, 0, 0, 10, 10, 10, "bare parcel"), 2), Ok(1));
    assert_eq!(s.list_for_sale(X, 0, 100, 10), Ok(()));
    assert_eq!(s.list_for_sale(X, 1, 200, 11), Ok(()));

    // the metadata-less snapshot is excluded by any non-empty feature request
    let mut wants_river = no_filters();
    wants_river.features = Some(vec!["river".to_string()]);
    let found = s.search_marketplace(wants_river);
    assert_eq!(found.len(), 1);
    assert_eq!(found[0].land_id, 0);

    let mut wants_missing = no_filters();
    wants_missing.features = Some(vec!["volcano".to_string()]);
    assert!(s.search_marketplace(wants_missing).is_empty());

    // an empty feature list excludes nothing
    let mut empty_features = no_filters();
    empty_features.features = Some(vec![]);
    assert_eq!(s.search_marketplace(empty_features).len(), 2);
}

#[test]
fn marketplace_feature_filter_judges_the_snapshot() {
    let mut s = RegistryState::new(ADMIN);
    assert_eq!(s.register_land(X, reg_at(0, 0, 0, 10, 10, 10, "plain at listing"), 1), Ok(0));
    assert_eq!(s.list_for_sale(X, 0, 100, 10), Ok(()));
    // metadata arrives only after the listing snapshot was taken
    let meta = LandMetadata {
        environment: None,
        special_features: vec!["river frontage".to_string()],
        access_roads: vec![],
        utilities: vec![],
    };
    assert_eq!(s.update_land_metadata(X, 0, meta, 20), Ok(()));
    let mut wants_river = no_filters();
    wants_river.features = Some(vec!["river".to_string()]);
    // the snapshot has no metadata, so the listing stays excluded ...
    assert!(s.search_marketplace(wants_river).is_empty());
    // ... while the parcel search sees the updated record
    let mut wants_river_again = no_filters();
    wants_river_again.features = Some(vec!["river".to_string()]);
    assert_eq!(s.search_lands(wants_river_again).len(), 1);
}

#[test]
fn nearness_is_per_axis_not_euclidean() {
    let mut s = RegistryState::new(ADMIN);
    assert_eq!(s.register_land(X, reg_at(30, 40, 0, 10, 10, 10, "corner"), 1), Ok(0));
    // Euclidean distance from the origin is 50, but each axis is within 40
    let near = s.get_lands_near_coordinates(Coordinates { x: 0, y: 0, z: 0 }, 40);
    assert_eq!(near.len(), 1);
    let near = s.get_lands_near_coordinates(Coordinates { x: 0, y: 0, z: 0 }, 39);
    assert!(near.is_empty());
}

#[test]
fn transaction_history_filters_by_land_and_user() {
    let mut s = scenario_ab();
    assert_eq!(s.transfer_land(X, 1, Y, 2000), Ok(()));
    let all = s.get_transaction_history(None);
    assert_eq!(all.len(), 4);
    assert_eq!(s.get_transaction_history(Some(0)).len(), 2); // registration + sale
    assert_eq!(s.get_transaction_history(Some(1)).len(), 2); // registration + transfer
    assert_eq!(s.get_user_transactions(Y).len(), 2); // bought 0, received 1
    assert_eq!(s.get_user_transactions(X).len(), 4);
    assert_eq!(s.get_user_transactions(77).len(), 0);
}

#[test]
fn price_history_lists_only_priced_entries() {
    let mut s = scenario_ab();
    let history = s.get_price_history(0);
    assert_eq!(history, vec![(1200, 100)]);
    assert!(s.get_price_history(1).is_empty());
}

#[test]
fn recent_transactions_keep_ledger_order() {
    let s = scenario_ab();
    let recent = s.get_recent_transactions(2);
    assert_eq!(recent.len(), 2);
    assert_eq!(recent[0].land_id, 1); // second registration
    assert_eq!(recent[1].land_id, 0); // the sale
    assert_eq!(s.get_recent_transactions(100).len(), 3);
    assert!(s.get_recent_transactions(0).is_empty());
}

#[test]
fn unicode_whitespace_description_is_blank() {
    let mut s = RegistryState::new(ADMIN);
    assert_eq!(
        s.register_land(X, reg_at(0, 0, 0, 10, 10, 10, "\u{2003}\u{00A0}\t"), 1),
        Err(LandRegistryError::InvalidInput)
    );
    assert_eq!(s.register_land(X, reg_at(0, 0, 0, 10, 10, 10, " ok "), 1), Ok(0));
}

#[test]
fn relisting_replaces_the_old_listing() {
    let mut s = scenario_a();
    assert_eq!(s.list_for_sale(X, 0, 100, 1100), Ok(()));
    assert_eq!(s.list_for_sale(X, 0, 250, 1105), Ok(()));
    let listings = s.get_marketplace_listings();
    assert_eq!(listings.len(), 1);
    assert_eq!(listings[0].price, 250);
    assert_eq!(listings[0].listed_at, 1105);
}

#[test]
fn feature_search_handles_multibyte_text() {
    let mut s = RegistryState::new(ADMIN);
    let mut with_meta = reg_at(0, 0, 0, 10, 10, 10, "am Fluss");
    with_meta.metadata = Some(LandMetadata {
        environment: None,
        special_features: vec!["sch\u{f6}ne Flussn\u{e4}he".to_string()],
        access_roads: vec![],
        utilities: vec![],
    });
    assert_eq!(s.register_land(X, with_meta, 1), Ok(0));
    let mut wants = no_filters();
    wants.features = Some(vec!["\u{f6}ne Flussn".to_string()]);
    assert_eq!(s.search_lands(wants).len(), 1);
    let mut wants_other = no_filters();
    wants_other.features = Some(vec!["Fl\u{fc}sse".to_string()]);
    assert!(s.search_lands(wants_other).is_empty());
}

#[test]
fn total_land_area_sums_ground_areas() {
    let s = scenario_a();
    assert_eq!(s.calculate_total_land_area(), 200); // two 10 x 10 parcels
}
