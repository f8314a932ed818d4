use wispers_connect::foreign::{
    check_callbacks, delete_outcome, entry_status, registration_load_step, root_key_load_outcome, save_outcome,
    CallbackPresence, ForeignStoreError, RegistrationLoadStep, WispersStatus,
    INITIAL_REGISTRATION_BUFFER,
};
use wispers_connect::storage::{
    load_in_order, registration_file_action, root_key_file, write_in_order,
    RegistrationFileAction,
    root_key_from_bytes, FileNodeStateStore, InMemoryNodeStateStore, NodeRegistration, NodeState,
    NodeStateStore, RootKey,
};

fn sample_state(group: &str, node: i32) -> NodeState {
    NodeState {
        root_key: RootKey::from_bytes([7u8; 32]),
        registration: Some(NodeRegistration {
            connectivity_group_id: group.to_string(),
            node_number: node,
        }),
    }
}

#[test]
fn in_memory_round_trip() {
    let mut store = InMemoryNodeStateStore::new();
    assert!(store.load().unwrap().is_none());

    store.save(&sample_state("g1", 4)).unwrap();
    let loaded = store.load().unwrap().unwrap();
    assert_eq!(loaded.root_key.as_bytes(), &[7u8; 32]);
    let reg = loaded.registration.unwrap();
    assert_eq!(reg.connectivity_group_id, "g1");
    assert_eq!(reg.node_number, 4);

    store.save(&sample_state("g2", 9)).unwrap();
    let reg = store.load().unwrap().unwrap().registration.unwrap();
    assert_eq!(reg.connectivity_group_id, "g2");
    assert_eq!(reg.node_number, 9);

    store.delete().unwrap();
    assert!(store.load().unwrap().is_none());
    store.delete().unwrap();
    assert!(store.load().unwrap().is_none());
}

#[test]
fn in_memory_keeps_an_unregistered_state() {
    let mut store = InMemoryNodeStateStore::new();
    let state = NodeState { root_key: RootKey::from_bytes([1u8; 32]), registration: None };
    store.save(&state).unwrap();
    let loaded = store.load().unwrap().unwrap();
    assert!(loaded.registration.is_none());
    assert_eq!(loaded.root_key.as_bytes(), &[1u8; 32]);
}

#[test]
fn file_store_paths() {
    let store = FileNodeStateStore::new("/var/lib/wconnect/default".to_string());
    assert_eq!(store.dir(), "/var/lib/wconnect/default");
    assert_eq!(store.root_key_path(), "/var/lib/wconnect/default/root_key.bin");
    assert_eq!(
        store.registration_path(),
        "/var/lib/wconnect/default/registration.json"
    );
    let store = FileNodeStateStore::new("cfg/".to_string());
    assert_eq!(store.root_key_path(), "cfg/root_key.bin");
    let store = FileNodeStateStore::new(String::new());
    assert_eq!(store.registration_path(), "registration.json");
}

#[test]
fn root_key_file_must_hold_exactly_the_key() {
    let bytes: Vec<u8> = (0u8..32).collect();
    let key = root_key_from_bytes(&bytes).unwrap();
    assert_eq!(key.as_bytes().to_vec(), bytes);
    assert!(root_key_from_bytes(&bytes[..31]).is_none());
    let mut longer = bytes.clone();
    longer.push(0);
    assert!(root_key_from_bytes(&longer).is_none());
    assert!(root_key_from_bytes(&[]).is_none());
}

fn all_present() -> CallbackPresence {
    CallbackPresence {
        load_root_key: true,
        save_root_key: true,
        delete_root_key: true,
        load_registration: true,
        save_registration: true,
        delete_registration: true,
    }
}

#[test]
fn callbacks_must_all_be_present() {
    assert!(check_callbacks(&all_present()).is_ok());
    let mut p = all_present();
    p.delete_root_key = false;
    p.save_registration = false;
    match check_callbacks(&p) {
        Err(e) => assert_eq!(e.message(), "missing callback: delete_root_key"),
        Ok(()) => panic!("expected a missing callback"),
    }
    let mut p = all_present();
    p.delete_registration = false;
    match check_callbacks(&p) {
        Err(ForeignStoreError::MissingCallback(name)) => assert_eq!(name, "delete_registration"),
        _ => panic!("expected a missing callback"),
    }
}

#[test]
fn callback_status_meanings() {
    assert!(matches!(root_key_load_outcome(WispersStatus::Success), Ok(true)));
    assert!(matches!(root_key_load_outcome(WispersStatus::NotFound), Ok(false)));
    assert!(matches!(
        root_key_load_outcome(WispersStatus::StoreError),
        Err(ForeignStoreError::Status(WispersStatus::StoreError))
    ));
    assert!(save_outcome(WispersStatus::Success).is_ok());
    assert!(matches!(
        save_outcome(WispersStatus::NotFound),
        Err(ForeignStoreError::Status(WispersStatus::NotFound))
    ));
    assert!(delete_outcome(WispersStatus::Success).is_ok());
    assert!(delete_outcome(WispersStatus::NotFound).is_ok());
    assert!(delete_outcome(WispersStatus::NullPointer).is_err());
}

#[test]
fn registration_load_steps() {
    assert!(matches!(
        registration_load_step(WispersStatus::Success, 40, INITIAL_REGISTRATION_BUFFER),
        RegistrationLoadStep::Decode(40)
    ));
    assert!(matches!(
        registration_load_step(WispersStatus::Success, 1000, INITIAL_REGISTRATION_BUFFER),
        RegistrationLoadStep::Decode(256)
    ));
    assert!(matches!(
        registration_load_step(WispersStatus::NotFound, 0, 256),
        RegistrationLoadStep::Absent
    ));
    assert!(matches!(
        registration_load_step(WispersStatus::BufferTooSmall, 1000, 256),
        RegistrationLoadStep::Grow(1000)
    ));
    assert!(matches!(
        registration_load_step(WispersStatus::BufferTooSmall, 0, 256),
        RegistrationLoadStep::Fail(ForeignStoreError::Status(WispersStatus::BufferTooSmall))
    ));
    assert!(matches!(
        registration_load_step(WispersStatus::HubError, 0, 256),
        RegistrationLoadStep::Fail(ForeignStoreError::Status(WispersStatus::HubError))
    ));
}

#[test]
fn foreign_error_messages() {
    assert_eq!(
        ForeignStoreError::RegistrationEncode.message(),
        "failed to encode registration"
    );
    assert_eq!(
        ForeignStoreError::RegistrationDecode.message(),
        "failed to decode registration"
    );
    assert_eq!(
        ForeignStoreError::Status(WispersStatus::BufferTooSmall).message(),
        "store callback returned BufferTooSmall"
    );
    assert_eq!(WispersStatus::InvalidPairingCode.name(), "InvalidPairingCode");
}

#[test]
fn foreign_error_statuses() {
    assert_eq!(
        ForeignStoreError::Status(WispersStatus::NotFound).status(),
        WispersStatus::NotFound
    );
    assert_eq!(
        ForeignStoreError::MissingCallback("save_root_key").status(),
        WispersStatus::MissingCallback
    );
    assert_eq!(ForeignStoreError::RegistrationEncode.status(), WispersStatus::StoreError);
    assert_eq!(ForeignStoreError::RegistrationDecode.status(), WispersStatus::StoreError);
}

#[test]
fn ffi_entry_statuses() {
    assert_eq!(entry_status(true, true), WispersStatus::NullPointer);
    assert_eq!(entry_status(true, false), WispersStatus::NullPointer);
    assert_eq!(entry_status(false, false), WispersStatus::MissingCallback);
    assert_eq!(entry_status(false, true), WispersStatus::Success);
}

#[test]
fn root_key_file_cases() {
    assert!(matches!(root_key_file(None), Some(None)));
    let key = root_key_file(Some(&[5u8; 32])).unwrap().unwrap();
    assert_eq!(key.as_bytes(), &[5u8; 32]);
    assert!(root_key_file(Some(&[5u8; 33])).is_none());
    assert!(root_key_file(Some(&[])).is_none());
}

#[test]
fn registration_file_follows_the_state() {
    assert_eq!(registration_file_action(true, false), RegistrationFileAction::Write);
    assert_eq!(registration_file_action(true, true), RegistrationFileAction::Write);
    assert_eq!(registration_file_action(false, true), RegistrationFileAction::Remove);
    assert_eq!(registration_file_action(false, false), RegistrationFileAction::Keep);
}

#[test]
fn load_asks_for_the_registration_only_after_a_key() {
    let asked = std::cell::Cell::new(false);
    let r: Result<Option<NodeState>, String> = load_in_order(
        || Ok(None),
        || {
            asked.set(true);
            Ok(None)
        },
    );
    assert!(r.unwrap().is_none());
    assert!(!asked.get());

    let r: Result<Option<NodeState>, String> =
        load_in_order(|| Err("key".to_string()), || Err("reg".to_string()));
    assert_eq!(r.unwrap_err(), "key");

    let r: Result<Option<NodeState>, String> = load_in_order(
        || Ok(Some(RootKey::from_bytes([2u8; 32]))),
        || {
            Ok(Some(NodeRegistration { connectivity_group_id: "g".to_string(), node_number: 8 }))
        },
    );
    let state = r.unwrap().unwrap();
    assert_eq!(state.root_key.as_bytes(), &[2u8; 32]);
    assert_eq!(state.registration.unwrap().node_number, 8);

    let r: Result<Option<NodeState>, String> = load_in_order(
        || Ok(Some(RootKey::from_bytes([2u8; 32]))),
        || Err("reg".to_string()),
    );
    assert_eq!(r.unwrap_err(), "reg");
}

#[test]
fn writes_stop_at_the_first_failure() {
    let second_ran = std::cell::Cell::new(false);
    let r: Result<(), String> = write_in_order(
        || Err("first".to_string()),
        || {
            second_ran.set(true);
            Ok(())
        },
    );
    assert_eq!(r.unwrap_err(), "first");
    assert!(!second_ran.get());
    let r: Result<(), String> = write_in_order(|| Ok(()), || Err("second".to_string()));
    assert_eq!(r.unwrap_err(), "second");
    let r: Result<(), String> = write_in_order(|| Ok(()), || Ok(()));
    assert!(r.is_ok());
}
