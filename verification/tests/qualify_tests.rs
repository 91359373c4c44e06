use indy_cli::context::CommandContext;
use indy_cli::params::CommandParams;
use indy_cli::qualify;
use indy_cli::report::CommandOutcome;
use indy_cli::sdk::Sdk;

const DID_MY1: &str = "VsKV7grR1BUE29mG2Fm2kX";
const METHOD: &str = "peer";
const WALLET: &str = "wallet1";

fn setup_with_wallet() -> (CommandContext, Sdk, u64) {
    let mut ctx = CommandContext::new();
    let mut sdk = Sdk::new();
    sdk.wallet_create(WALLET).unwrap();
    let handle = sdk.wallet_open(WALLET).unwrap();
    ctx.set_opened_wallet(WALLET.to_string(), handle);
    (ctx, sdk, handle)
}

fn new_did(sdk: &mut Sdk, handle: u64, did: &str) {
    sdk.did_new(handle, did).unwrap();
}

#[test]
pub fn qualify_did_works() {
    let (mut ctx, mut sdk, handle) = setup_with_wallet();
    new_did(&mut sdk, handle, DID_MY1);
    {
        let mut params = CommandParams::new();
        params.insert("did", DID_MY1.to_string());
        params.insert("method", METHOD.to_string());
        qualify::execute(&mut ctx, &mut sdk, &params).unwrap();
    }
}

#[test]
pub fn qualify_did_works_for_active() {
    let (mut ctx, mut sdk, handle) = setup_with_wallet();
    new_did(&mut sdk, handle, DID_MY1);
    ctx.set_active_did(DID_MY1.to_string());
    {
        let mut params = CommandParams::new();
        params.insert("did", DID_MY1.to_string());
        params.insert("method", METHOD.to_string());
        qualify::execute(&mut ctx, &mut sdk, &params).unwrap();
    }
}

#[test]
pub fn qualify_did_works_for_unknown_did() {
    let (mut ctx, mut sdk, _handle) = setup_with_wallet();
    {
        let mut params = CommandParams::new();
        params.insert("did", DID_MY1.to_string());
        params.insert("method", METHOD.to_string());
        qualify::execute(&mut ctx, &mut sdk, &params).unwrap_err();
    }
}

#[test]
pub fn qualify_returns_method_scoped_form() {
    let (mut ctx, mut sdk, handle) = setup_with_wallet();
    new_did(&mut sdk, handle, DID_MY1);
    let mut params = CommandParams::new();
    params.insert("did", DID_MY1.to_string());
    params.insert("method", METHOD.to_string());
    let outcome = qualify::execute(&mut ctx, &mut sdk, &params).unwrap();
    match outcome {
        CommandOutcome::DidQualified(full, updated) => {
            assert_eq!(full, format!("did:peer:{}", DID_MY1));
            assert!(full.starts_with("did:peer:"));
            assert!(!updated);
        },
        other => panic!("unexpected outcome {:?}", other),
    }
}

#[test]
pub fn qualify_updates_active_did() {
    let (mut ctx, mut sdk, handle) = setup_with_wallet();
    new_did(&mut sdk, handle, DID_MY1);
    ctx.set_active_did(DID_MY1.to_string());
    let mut params = CommandParams::new();
    params.insert("did", DID_MY1.to_string());
    params.insert("method", METHOD.to_string());
    let outcome = qualify::execute(&mut ctx, &mut sdk, &params).unwrap();
    let full = format!("did:peer:{}", DID_MY1);
    assert_eq!(outcome, CommandOutcome::DidQualified(full.clone(), true));
    assert_eq!(ctx.get_active_did(), Some(full));
}

#[test]
pub fn qualify_strips_stray_did_prefix_from_method() {
    let (mut ctx, mut sdk, handle) = setup_with_wallet();
    new_did(&mut sdk, handle, DID_MY1);
    let mut params = CommandParams::new();
    params.insert("did", DID_MY1.to_string());
    params.insert("method", "did:peer".to_string());
    let outcome = qualify::execute(&mut ctx, &mut sdk, &params).unwrap();
    assert_eq!(
        outcome,
        CommandOutcome::DidQualified(format!("did:peer:{}", DID_MY1), false)
    );
}

#[test]
pub fn qualify_needs_open_wallet() {
    let mut ctx = CommandContext::new();
    let mut sdk = Sdk::new();
    let mut params = CommandParams::new();
    params.insert("did", DID_MY1.to_string());
    params.insert("method", METHOD.to_string());
    let err = qualify::execute(&mut ctx, &mut sdk, &params).unwrap_err();
    assert_eq!(
        err,
        indy_cli::error::CliError::PreconditionViolated(
            indy_cli::error::ContextRequirement::OpenedWallet
        )
    );
}

#[test]
pub fn qualify_rejects_malformed_did() {
    let (mut ctx, mut sdk, _handle) = setup_with_wallet();
    let mut params = CommandParams::new();
    params.insert("did", "not a did!".to_string());
    params.insert("method", METHOD.to_string());
    let err = qualify::execute(&mut ctx, &mut sdk, &params).unwrap_err();
    assert_eq!(
        err,
        indy_cli::error::CliError::InvalidParameterFormat("did".to_string())
    );
}
