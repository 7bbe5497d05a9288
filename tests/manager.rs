use canister_store::manager::{
    canister_settings_plan, cycles_to_accept, parse_canister_id, provision_next, provision_start,
    InstallArgs, ManagerError, ProvisionError, ProvisionEvent, ProvisionState, ProvisionStep,
    CREATE_CANISTER_CYCLES, DEPOSIT_CYCLES, WASM_MEMORY_LIMIT,
};

#[test]
fn management_canister_text_parses_to_no_bytes() {
    assert_eq!(parse_canister_id("aaaaa-aa").unwrap(), Vec::<u8>::new());
}

#[test]
fn anonymous_principal_text_parses() {
    assert_eq!(parse_canister_id("2vxsx-fae").unwrap(), vec![4u8]);
}

#[test]
fn malformed_principal_is_refused() {
    assert!(matches!(parse_canister_id("not a principal"), Err(ManagerError::InvalidPrincipal(_))));
    assert!(matches!(parse_canister_id(""), Err(ManagerError::InvalidPrincipal(_))));
}

#[test]
fn accepted_cycles_are_capped() {
    assert_eq!(cycles_to_accept(0), 0);
    assert_eq!(cycles_to_accept(5), 5);
    assert_eq!(cycles_to_accept(DEPOSIT_CYCLES), 1_000_000_000_000);
    assert_eq!(cycles_to_accept(u64::MAX), 1_000_000_000_000);
}

#[test]
fn settings_make_manager_sole_controller() {
    let s = canister_settings_plan(vec![1, 2, 3]);
    assert_eq!(s.controllers, vec![vec![1u8, 2, 3]]);
    assert_eq!(s.compute_allocation, 0);
    assert_eq!(s.memory_allocation, 0);
    assert_eq!(s.freezing_threshold, 0);
    assert_eq!(s.reserved_cycles_limit, 0);
    assert!(s.public_logs);
    assert_eq!(s.wasm_memory_limit, 4_194_304);
    assert_eq!(WASM_MEMORY_LIMIT, 4_194_304);
}

#[test]
fn provisioning_creates_then_installs() {
    let (state, step) = provision_start(vec![9], InstallArgs::Empty);
    match step {
        ProvisionStep::CreateCanister { settings, cycles } => {
            assert_eq!(cycles, 900_000_000_000);
            assert_eq!(cycles, CREATE_CANISTER_CYCLES);
            assert_eq!(settings.controllers, vec![vec![9u8]]);
        }
        other => panic!("unexpected step {:?}", other),
    }
    let (state, step) = provision_next(state, ProvisionEvent::Created { canister_id: vec![1, 2] });
    match &step {
        ProvisionStep::InstallCode { canister_id, arg } => {
            assert_eq!(canister_id, &vec![1u8, 2]);
            assert_eq!(arg, &b"DIDL\x00\x00".to_vec());
        }
        other => panic!("unexpected step {:?}", other),
    }
    let (state, step) = provision_next(state, ProvisionEvent::Installed);
    assert!(matches!(state, ProvisionState::Finished));
    match step {
        ProvisionStep::Done(Ok(id)) => assert_eq!(id, vec![1u8, 2]),
        other => panic!("unexpected step {:?}", other),
    }
}

#[test]
fn streaming_canister_gets_title_and_description() {
    let args = InstallArgs::TitleAndDescription { title: "T".to_string(), description: "D".to_string() };
    let (state, _) = provision_start(vec![9], args);
    let (_, step) = provision_next(state, ProvisionEvent::Created { canister_id: vec![3] });
    match step {
        ProvisionStep::InstallCode { arg, .. } => {
            let expected = candid::encode_args(("T".to_string(), "D".to_string())).unwrap();
            assert_eq!(arg, expected);
            assert!(arg.starts_with(b"DIDL"));
            assert!(arg.len() > 6);
        }
        other => panic!("unexpected step {:?}", other),
    }
}

#[test]
fn create_failure_ends_provisioning() {
    let (state, _) = provision_start(vec![9], InstallArgs::Empty);
    let (state, step) = provision_next(state, ProvisionEvent::CreateFailed { detail: "no cycles".to_string() });
    assert!(matches!(state, ProvisionState::Finished));
    match step {
        ProvisionStep::Done(Err(ProvisionError::CreateFailed(d))) => assert_eq!(d, "no cycles"),
        other => panic!("unexpected step {:?}", other),
    }
}

#[test]
fn install_failure_ends_provisioning() {
    let (state, _) = provision_start(vec![9], InstallArgs::Empty);
    let (state, _) = provision_next(state, ProvisionEvent::Created { canister_id: vec![1] });
    let (state, step) = provision_next(state, ProvisionEvent::InstallFailed { detail: "bad wasm".to_string() });
    assert!(matches!(state, ProvisionState::Finished));
    match step {
        ProvisionStep::Done(Err(ProvisionError::InstallFailed(d))) => assert_eq!(d, "bad wasm"),
        other => panic!("unexpected step {:?}", other),
    }
}

#[test]
fn event_out_of_order_ends_provisioning() {
    let (state, _) = provision_start(vec![9], InstallArgs::Empty);
    let (state, step) = provision_next(state, ProvisionEvent::Installed);
    assert!(matches!(state, ProvisionState::Finished));
    assert!(matches!(step, ProvisionStep::Done(Err(ProvisionError::OutOfOrder))));
    let (_, step) = provision_next(ProvisionState::Finished, ProvisionEvent::Created { canister_id: vec![] });
    assert!(matches!(step, ProvisionStep::Done(Err(ProvisionError::OutOfOrder))));
}
