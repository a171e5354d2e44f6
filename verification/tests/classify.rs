use squadreplay::classify::{
    classify_deployable_event_type, extract_raas_flag_from_path, infer_component_type,
    infer_component_type_name, infer_group_leaf, is_capture_zone_type, is_deployable_primary_type,
    is_helicopter_type, is_raas_flag_path, is_soldier_type, is_vehicle_type, normalize_type,
    ClassifyFlags,
};

#[test]
fn raas_flag_extraction_works() {
    let result = extract_raas_flag_from_path(
        "/Game/Maps/Manicouagan/PersistentLevelC1-Diefenbunker?DefaultSceneRoot",
    );
    assert!(result.is_some());
    let (lane, num, name) = result.unwrap();
    assert_eq!(lane, 'C');
    assert_eq!(num, 1);
    assert_eq!(name, "C1-Diefenbunker");

    let result =
        extract_raas_flag_from_path("PersistentLevelB3-Village?DefaultSceneRoot?SQCaptureZone");
    assert!(result.is_some());
    let (lane, num, name) = result.unwrap();
    assert_eq!(lane, 'B');
    assert_eq!(num, 3);
    assert_eq!(name, "B3-Village");

    assert!(extract_raas_flag_from_path("PersistentLevel00-Team1Main").is_none());
    assert!(extract_raas_flag_from_path("/Script/Squad.SQCaptureZone").is_none());
    assert!(extract_raas_flag_from_path("PersistentLevelA1-LoggingCamp").is_none());
}

#[test]
fn vehicle_seat_components_are_classified_as_seats() {
    assert_eq!(
        infer_component_type("/Script/Squad.SQVehicleSeatComponent", None),
        "seat"
    );
}

#[test]
fn helicopter_classification_covers_current_families() {
    for name in [
        "BP_UH60M_C",
        "BP_CH146_Utility_C",
        "BP_CH178_Transport_C",
        "BP_Mi8MTV5_C",
        "BP_MRH90_C",
        "BP_SA330_C",
        "BP_Z8G_C",
        "BP_Z9A_C",
    ] {
        assert!(is_helicopter_type(name), "{name} should be a helicopter");
        assert!(is_vehicle_type(name), "{name} should be a vehicle");
    }
}

#[test]
fn types_are_normalized() {
    assert_eq!(normalize_type(""), None);
    assert_eq!(normalize_type("/Game/A.B.BP_X_C"), Some("BP_X_C".to_string()));
    assert_eq!(normalize_type("BP_X_C"), Some("BP_X_C".to_string()));
    assert_eq!(normalize_type("a."), Some(String::new()));
    assert_eq!(infer_group_leaf("/Script/Squad.SQRotorComponent"), "SQRotorComponent");
    assert_eq!(infer_group_leaf("/Game/Vehicles/BP_X"), "BP_X");
    assert_eq!(infer_group_leaf("a.b/c"), "b/c");
    assert_eq!(infer_group_leaf("plain"), "plain");
    assert_eq!(infer_group_leaf(""), "");
}

#[test]
fn classes_are_told_apart() {
    assert!(is_soldier_type("BP_SOLDIER_RU"));
    assert!(!is_vehicle_type("BP_Soldier_Tank"));
    assert!(is_vehicle_type("BP_T72B3_C"));
    assert!(!is_vehicle_type("BP_T72B3_Turret_C"));
    assert!(!is_vehicle_type("BP_Rock_C"));
    assert!(!is_vehicle_type("BP_UH60_DoorGun_C"));
    assert!(is_deployable_primary_type("BP_FOBRadio_RUS_C"));
    assert!(!is_deployable_primary_type("BP_FOBRadio_Weapon_C"));
    assert!(!is_deployable_primary_type("BP_Emplaced_Kord_Tripod_C"));
    assert!(!is_vehicle_type("BP_Vehicle_Repair_C"));
    assert!(is_capture_zone_type("BP_CaptureZone_C"));
    assert!(!is_capture_zone_type("BP_Zone_C"));
}

#[test]
fn deployables_and_components_have_kinds() {
    let kinds = [
        ("BP_FOBRadio_C", "RADIO"),
        ("BP_HAB_Desert", "HAB"),
        ("BP_RallyPoint_C", "RALLY"),
        ("BP_AmmoCrate_C", "AMMO"),
        ("BP_Vehicle_Repair_C", "REPAIR"),
        ("BP_Mortar_C", "MORTAR"),
        ("BP_TOW_C", "EMPLACEMENT"),
        ("BP_Sandbag_C", "DEPLOYABLE"),
    ];
    for (name, kind) in kinds {
        assert_eq!(classify_deployable_event_type(name), kind);
    }
    assert_eq!(infer_component_type_name("/Script/Squad.SQRotorComponent", None), "rotor");
    assert_eq!(infer_component_type_name("x", Some("LeftTrack")), "track");
    assert_eq!(infer_component_type_name("SQVehicleAmmoBox", None), "ammorack");
    assert_eq!(infer_component_type_name("", Some("Wheel3")), "wheel");
    assert_eq!(infer_component_type_name("", None), "component");
}

#[test]
fn flags_hold_the_answers() {
    let flags = ClassifyFlags::from_group_leaf("BP_UH60_C");
    assert_eq!(flags.0, 6);
    assert!(flags.is_vehicle() && flags.is_helicopter());
    assert!(!flags.is_soldier() && !flags.is_deployable_primary());
    assert_eq!(ClassifyFlags::from_group_leaf("BP_Soldier_C").0, 1);
    assert_eq!(ClassifyFlags::from_group_leaf("BP_FOBRadio_C").0, 8);
    assert_eq!(ClassifyFlags::from_group_leaf("").0, 0);
    for name in ["bp_uh60_c", "BP_UH60_C", "Bp_Uh60_c"] {
        assert_eq!(ClassifyFlags::from_group_leaf(name), flags);
    }
}

#[test]
fn only_well_shaped_flags_are_found() {
    assert!(is_raas_flag_path("PersistentLevelC1-X?DefaultSceneRoot"));
    assert!(is_raas_flag_path("A0-Hill DefaultSceneRoot"));
    assert!(!is_raas_flag_path("c1-Hill DefaultSceneRoot"));
    assert!(!is_raas_flag_path("CC-Hill DefaultSceneRoot"));
    assert!(!is_raas_flag_path("C1_Hill DefaultSceneRoot"));
    assert!(!is_raas_flag_path("PersistentLevelC1-?DefaultSceneRoot"));
    assert_eq!(
        extract_raas_flag_from_path("PersistentLevelZ9-Two_Words?DefaultSceneRoot"),
        Some(('Z', 9, "Z9-Two".to_string()))
    );
}
