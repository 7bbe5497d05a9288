use vstd::prelude::*;
use crate::bytes::copy_bytes;

verus! {

#[verifier::external_type_specification]
#[verifier::external_body]
pub struct ExPrincipalError(candid::types::principal::PrincipalError);

#[verifier::external_type_specification]
#[verifier::external_body]
pub struct ExCandidError(candid::Error);

/// Cycles attached to the creation of a new canister.
pub const CREATE_CANISTER_CYCLES: u128 = 900_000_000_000;

/// Cycles deposited into a canister on request, and the most that the
/// manager accepts from the request's own attached cycles.
pub const DEPOSIT_CYCLES: u64 = 1_000_000_000_000;

/// Wasm memory limit of a new canister, in bytes.
pub const WASM_MEMORY_LIMIT: u64 = 4 * 1024 * 1024;

/// The principal bytes that a text parses to, where it is the textual form
/// of a principal.
pub uninterp spec fn principal_text_bytes(text: Seq<char>) -> Option<Seq<u8>>;

/// Relies on candid's `Principal::from_text`: it parses the textual form of a
/// principal, and a principal has at most 29 bytes.
#[verifier::external_body]
fn principal_from_text(text: &str) -> (r: Result<Vec<u8>, candid::types::principal::PrincipalError>)
    ensures
        match r {
            Ok(b) => principal_text_bytes(text@) == Some(b@) && b@.len() <= 29,
            Err(_) => principal_text_bytes(text@) is None,
        },
{
    candid::Principal::from_text(text).map(|p| p.as_slice().to_vec())
}

/// The candid argument bytes of a (title, description) pair of texts.
pub uninterp spec fn candid_text_args(title: Seq<char>, description: Seq<char>) -> Seq<u8>;

/// Relies on `candid::encode_args`: it encodes the pair (title, description)
/// as candid arguments.
#[verifier::external_body]
fn encode_text_args(title: &String, description: &String) -> (r: Result<Vec<u8>, candid::Error>)
    ensures
        r is Ok ==> r->Ok_0@ == candid_text_args(title@, description@),
{
    candid::encode_args((title, description))
}

/// The candid encoding of an empty argument list: the magic `DIDL`, an
/// empty type table and no arguments.
pub open spec fn candid_empty_args() -> Seq<u8> {
    seq![0x44u8, 0x49, 0x44, 0x4c, 0x00, 0x00]
}

/// Relies on `candid::encode_args`: an empty argument list is the magic
/// `DIDL` followed by a zero type-table length and a zero argument count.
#[verifier::external_body]
fn encode_empty_args() -> (r: Result<Vec<u8>, candid::Error>)
    ensures
        r is Ok ==> r->Ok_0@ == candid_empty_args(),
{
    candid::encode_args(())
}

/// Why a management request was refused before any call was made.
#[derive(Debug)]
pub enum ManagerError {
    InvalidPrincipal(candid::types::principal::PrincipalError),
}

/// The bytes of the canister named by `text`.
pub fn parse_canister_id(text: &str) -> (r: Result<Vec<u8>, ManagerError>)
    ensures
        match r {
            Ok(b) => principal_text_bytes(text@) == Some(b@) && b@.len() <= 29,
            Err(ManagerError::InvalidPrincipal(_)) => principal_text_bytes(text@) is None,
        },
{
    match principal_from_text(text) {
        Ok(b) => Ok(b),
        Err(e) => Err(ManagerError::InvalidPrincipal(e)),
    }
}

/// How many of the `available` cycles attached to a deposit request the
/// manager accepts.
pub fn cycles_to_accept(available: u64) -> (r: u64)
    ensures
        r == if available < DEPOSIT_CYCLES { available } else { DEPOSIT_CYCLES },
{
    if available < DEPOSIT_CYCLES {
        available
    } else {
        DEPOSIT_CYCLES
    }
}

/// The settings a new canister is created with.
#[derive(Debug)]
pub struct CanisterSettingsPlan {
    pub controllers: Vec<Vec<u8>>,
    pub compute_allocation: u64,
    pub memory_allocation: u64,
    pub freezing_threshold: u64,
    pub reserved_cycles_limit: u64,
    pub public_logs: bool,
    pub wasm_memory_limit: u64,
}

/// What a settings plan for a canister controlled by `manager` holds.
pub open spec fn settings_for(s: CanisterSettingsPlan, manager: Seq<u8>) -> bool {
    &&& s.controllers@.len() == 1
    &&& s.controllers@[0]@ == manager
    &&& s.compute_allocation == 0
    &&& s.memory_allocation == 0
    &&& s.freezing_threshold == 0
    &&& s.reserved_cycles_limit == 0
    &&& s.public_logs
    &&& s.wasm_memory_limit == WASM_MEMORY_LIMIT
}

/// Settings that make `manager_id` the only controller, with no reserved
/// allocations, public logs and the wasm memory limit.
pub fn canister_settings_plan(manager_id: Vec<u8>) -> (r: CanisterSettingsPlan)
    ensures
        settings_for(r, manager_id@),
{
    let mut controllers: Vec<Vec<u8>> = Vec::new();
    controllers.push(manager_id);
    CanisterSettingsPlan {
        controllers,
        compute_allocation: 0,
        memory_allocation: 0,
        freezing_threshold: 0,
        reserved_cycles_limit: 0,
        public_logs: true,
        wasm_memory_limit: WASM_MEMORY_LIMIT,
    }
}

/// The argument a new canister's code is installed with.
#[derive(Debug)]
pub enum InstallArgs {
    Empty,
    TitleAndDescription { title: String, description: String },
}

/// Where the creation of a canister and the installation of its code stand.
#[derive(Debug)]
pub enum ProvisionState {
    Creating { args: InstallArgs },
    Installing { canister_id: Vec<u8> },
    Finished,
}

/// What the host answered to the last step.
#[derive(Debug)]
pub enum ProvisionEvent {
    Created { canister_id: Vec<u8> },
    CreateFailed { detail: String },
    Installed,
    InstallFailed { detail: String },
}

/// Why provisioning a canister failed.
#[derive(Debug)]
pub enum ProvisionError {
    CreateFailed(String),
    EncodeFailed(candid::Error),
    InstallFailed(String),
    OutOfOrder,
}

/// What the host is to do next.
#[derive(Debug)]
pub enum ProvisionStep {
    CreateCanister { settings: CanisterSettingsPlan, cycles: u128 },
    InstallCode { canister_id: Vec<u8>, arg: Vec<u8> },
    Done(Result<Vec<u8>, ProvisionError>),
}

/// Provisioning is over with the error `e`.
pub open spec fn finished_with_error(r: (ProvisionState, ProvisionStep), e: ProvisionError) -> bool {
    r.0 is Finished && r.1 == ProvisionStep::Done(Err(e))
}

/// The code of canister `id` is being installed.
pub open spec fn installing(r: (ProvisionState, ProvisionStep), id: Seq<u8>) -> bool {
    match r {
        (ProvisionState::Installing { canister_id: a }, ProvisionStep::InstallCode { canister_id: b, arg: _ }) => a@
            == id && b@ == id,
        _ => false,
    }
}

/// Starts provisioning a canister controlled by `manager_id`, whose code
/// will be installed with `args`: the first step creates it.
pub fn provision_start(manager_id: Vec<u8>, args: InstallArgs) -> (r: (ProvisionState, ProvisionStep))
    ensures
        r.0 == (ProvisionState::Creating { args }),
        match r.1 {
            ProvisionStep::CreateCanister { settings, cycles } => settings_for(settings, manager_id@)
                && cycles == CREATE_CANISTER_CYCLES,
            _ => false,
        },
{
    (
        ProvisionState::Creating { args },
        ProvisionStep::CreateCanister {
            settings: canister_settings_plan(manager_id),
            cycles: CREATE_CANISTER_CYCLES,
        },
    )
}

/// The state and step that follow `event` in `state`. A created canister
/// gets its code installed with the encoded arguments; the installed
/// canister's id is the result; a failure of either call, or of the
/// encoding, ends provisioning with that error, as does an event that does
/// not answer the step of `state`.
pub fn provision_next(state: ProvisionState, event: ProvisionEvent) -> (r: (ProvisionState, ProvisionStep))
    ensures
        match (state, event) {
            (ProvisionState::Creating { args }, ProvisionEvent::Created { canister_id }) => {
                ||| installing(r, canister_id@) && match (args, r.1) {
                    (InstallArgs::Empty, ProvisionStep::InstallCode { canister_id: _, arg }) => arg@
                        == candid_empty_args(),
                    (
                        InstallArgs::TitleAndDescription { title, description },
                        ProvisionStep::InstallCode { canister_id: _, arg },
                    ) => arg@ == candid_text_args(title@, description@),
                    _ => true,
                }
                ||| r.0 is Finished && match r.1 {
                    ProvisionStep::Done(Err(ProvisionError::EncodeFailed(_))) => true,
                    _ => false,
                }
            },
            (ProvisionState::Creating { .. }, ProvisionEvent::CreateFailed { detail }) => finished_with_error(
                r,
                ProvisionError::CreateFailed(detail),
            ),
            (ProvisionState::Installing { canister_id }, ProvisionEvent::Installed) => r.0 is Finished && r.1
                == ProvisionStep::Done(Ok(canister_id)),
            (ProvisionState::Installing { .. }, ProvisionEvent::InstallFailed { detail }) => finished_with_error(
                r,
                ProvisionError::InstallFailed(detail),
            ),
            _ => finished_with_error(r, ProvisionError::OutOfOrder),
        },
{
    match (state, event) {
        (ProvisionState::Creating { args }, ProvisionEvent::Created { canister_id }) => {
            let encoded = match &args {
                InstallArgs::Empty => encode_empty_args(),
                InstallArgs::TitleAndDescription { title, description } => encode_text_args(title, description),
            };
            match encoded {
                Ok(arg) => {
                    let id = copy_bytes(&canister_id);
                    (ProvisionState::Installing { canister_id }, ProvisionStep::InstallCode { canister_id: id, arg })
                },
                Err(e) => (ProvisionState::Finished, ProvisionStep::Done(Err(ProvisionError::EncodeFailed(e)))),
            }
        },
        (ProvisionState::Creating { .. }, ProvisionEvent::CreateFailed { detail }) => {
            (ProvisionState::Finished, ProvisionStep::Done(Err(ProvisionError::CreateFailed(detail))))
        },
        (ProvisionState::Installing { canister_id }, ProvisionEvent::Installed) => {
            (ProvisionState::Finished, ProvisionStep::Done(Ok(canister_id)))
        },
        (ProvisionState::Installing { .. }, ProvisionEvent::InstallFailed { detail }) => {
            (ProvisionState::Finished, ProvisionStep::Done(Err(ProvisionError::InstallFailed(detail))))
        },
        _ => (ProvisionState::Finished, ProvisionStep::Done(Err(ProvisionError::OutOfOrder))),
    }
}

} // verus!
