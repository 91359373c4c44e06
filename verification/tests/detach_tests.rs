use indy_cli::context::CommandContext;
use indy_cli::detach;
use indy_cli::error::{CliError, ContextRequirement};
use indy_cli::params::CommandParams;
use indy_cli::sdk::Sdk;

const WALLET: &str = "wallet1";

fn create_wallet(sdk: &mut Sdk) {
    sdk.wallet_create(WALLET).unwrap();
}

fn create_and_open_wallet(ctx: &mut CommandContext, sdk: &mut Sdk) -> u64 {
    sdk.wallet_create(WALLET).unwrap();
    let handle = sdk.wallet_open(WALLET).unwrap();
    ctx.set_opened_wallet(WALLET.to_string(), handle);
    handle
}

#[test]
pub fn detach_works() {
    let ctx = CommandContext::new();
    let mut sdk = Sdk::new();
    create_wallet(&mut sdk);
    {
        let mut params = CommandParams::new();
        params.insert("name", WALLET.to_string());
        detach::execute(&CommandContext::new(), &mut sdk, &params).unwrap();
    }

    let wallets = sdk.wallet_list();
    assert_eq!(0, wallets.len());

    create_wallet(&mut sdk);
    sdk.wallet_detach(WALLET).unwrap();
    let _ = ctx;
}

#[test]
pub fn detach_works_for_not_attached() {
    let ctx = CommandContext::new();
    let mut sdk = Sdk::new();

    let mut params = CommandParams::new();
    params.insert("name", WALLET.to_string());
    detach::execute(&ctx, &mut sdk, &params).unwrap_err();
}

#[test]
pub fn detach_works_for_opened() {
    let mut ctx = CommandContext::new();
    let mut sdk = Sdk::new();

    let handle = create_and_open_wallet(&mut ctx, &mut sdk);
    {
        let mut params = CommandParams::new();
        params.insert("name", WALLET.to_string());
        detach::execute(&ctx, &mut sdk, &params).unwrap_err();
    }
    ctx.unset_opened_wallet();
    sdk.wallet_close(handle).unwrap();
    sdk.wallet_detach(WALLET).unwrap();
}

#[test]
pub fn detach_opened_leaves_config_and_closing_allows_detach() {
    let mut ctx = CommandContext::new();
    let mut sdk = Sdk::new();
    let handle = create_and_open_wallet(&mut ctx, &mut sdk);

    let mut params = CommandParams::new();
    params.insert("name", WALLET.to_string());
    let err = detach::execute(&ctx, &mut sdk, &params).unwrap_err();
    assert_eq!(
        err,
        CliError::PreconditionViolated(ContextRequirement::WalletClosed)
    );
    // the refusal left the configuration in place
    assert!(sdk.wallet_config_exists(WALLET));

    ctx.unset_opened_wallet();
    sdk.wallet_close(handle).unwrap();
    detach::execute(&ctx, &mut sdk, &params).unwrap();
    assert!(!sdk.wallet_config_exists(WALLET));
    assert_eq!(sdk.wallet_list().len(), 0);
}

#[test]
pub fn detach_not_attached_is_nothing_to_operate_on() {
    let ctx = CommandContext::new();
    let mut sdk = Sdk::new();
    let mut params = CommandParams::new();
    params.insert("name", WALLET.to_string());
    let err = detach::execute(&ctx, &mut sdk, &params).unwrap_err();
    assert_eq!(err, CliError::NothingToOperateOn);
}
