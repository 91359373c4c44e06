use indy_cli::completion::complete;
use indy_cli::context::CommandContext;
use indy_cli::error::{CliError, ContextRequirement, SdkError};
use indy_cli::executor::{build_registry, execute_line, tokenize, LineOutcome};
use indy_cli::params::{CommandParams, ParamParser};
use indy_cli::registry::Registry;
use indy_cli::report::{error_message, success_message, CommandOutcome};
use indy_cli::sdk::Sdk;

fn shell() -> (Registry, CommandContext, Sdk) {
    (build_registry().unwrap(), CommandContext::new(), Sdk::new())
}

#[test]
fn required_param_absent_is_missing_parameter() {
    let params = CommandParams::new();
    let err = ParamParser::get_str_param("name", &params).unwrap_err();
    assert_eq!(err, CliError::MissingParameter("name".to_string()));
}

#[test]
fn optional_param_absent_is_none_without_error() {
    let params = CommandParams::new();
    assert_eq!(ParamParser::get_opt_str_param("gen_txn_file", &params).unwrap(), None);
}

#[test]
fn empty_value_is_present_not_absent() {
    let mut params = CommandParams::new();
    params.insert("name", String::new());
    assert_eq!(ParamParser::get_str_param("name", &params).unwrap(), String::new());
}

#[test]
fn did_param_rejects_malformed_value() {
    let mut params = CommandParams::new();
    params.insert("did", "0!bad".to_string());
    let err = ParamParser::get_did_param("did", &params).unwrap_err();
    assert_eq!(err, CliError::InvalidParameterFormat("did".to_string()));
}

#[test]
fn registry_lookup_returns_registered_metadata() {
    let reg = build_registry().unwrap();
    let entry = reg.lookup("pool", "create").unwrap();
    assert_eq!(entry.metadata.name, "create");
    let entry = reg.lookup("did", "qualify").unwrap();
    assert_eq!(entry.metadata.name, "qualify");
    assert!(entry.metadata.requires_opened_wallet);
    assert!(reg.lookup("pool", "nope").is_none());
    assert!(reg.lookup("nope", "create").is_none());
}

#[test]
fn unknown_path_is_unknown_command() {
    let (reg, mut ctx, mut sdk) = shell();
    let err = execute_line(&reg, &mut ctx, &mut sdk, "nope create x").unwrap_err();
    assert_eq!(err, CliError::UnknownCommand("nope".to_string()));
    let err = execute_line(&reg, &mut ctx, &mut sdk, "pool nope").unwrap_err();
    assert_eq!(err, CliError::UnknownCommand("nope".to_string()));
}

#[test]
fn context_wallet_guard_tracks_open_state() {
    let mut ctx = CommandContext::new();
    assert!(ctx.ensure_opened_wallet().is_err());
    ctx.set_opened_wallet("w".to_string(), 7);
    assert_eq!(ctx.ensure_opened_wallet().unwrap(), ("w".to_string(), 7));
    ctx.unset_opened_wallet();
    assert!(ctx.ensure_opened_wallet().is_err());
}

#[test]
fn context_pool_guard_tracks_connected_state() {
    let mut ctx = CommandContext::new();
    assert!(ctx.ensure_connected_pool().is_err());
    ctx.set_connected_pool("p".to_string(), 3);
    assert_eq!(ctx.ensure_connected_pool().unwrap(), ("p".to_string(), 3));
    ctx.unset_connected_pool();
    assert!(ctx.ensure_connected_pool().is_err());
}

#[test]
fn prompt_depth_restored_after_matched_pairs() {
    let mut ctx = CommandContext::new();
    let before = ctx.get_prompt_depth();
    ctx.set_sub_prompt(1, "pool(test1)".to_string());
    ctx.set_sub_prompt(2, "wallet(w)".to_string());
    assert_eq!(ctx.get_prompt_depth(), before + 2);
    ctx.unset_sub_prompt(2);
    ctx.unset_sub_prompt(1);
    assert_eq!(ctx.get_prompt_depth(), before);
}

#[test]
fn tokenize_honours_quotes() {
    let toks = tokenize("pool create \"my pool\" gen_txn_file=a").unwrap();
    assert_eq!(
        toks,
        vec![
            "pool".to_string(),
            "create".to_string(),
            "my pool".to_string(),
            "gen_txn_file=a".to_string()
        ]
    );
    assert!(tokenize("pool \"unterminated").is_err());
    assert_eq!(tokenize("   ").unwrap(), Vec::<String>::new());
}

#[test]
fn empty_line_does_nothing() {
    let (reg, mut ctx, mut sdk) = shell();
    assert_eq!(execute_line(&reg, &mut ctx, &mut sdk, "").unwrap(), LineOutcome::Empty);
    assert!(!ctx.is_session_failed());
}

#[test]
fn bare_group_shows_command_listing() {
    let (reg, mut ctx, mut sdk) = shell();
    match execute_line(&reg, &mut ctx, &mut sdk, "pool").unwrap() {
        LineOutcome::GroupHelp(group, names) => {
            assert_eq!(group, "pool");
            assert_eq!(
                names,
                vec![
                    "create".to_string(),
                    "connect".to_string(),
                    "list".to_string(),
                    "disconnect".to_string(),
                    "delete".to_string()
                ]
            );
        },
        other => panic!("unexpected outcome {:?}", other),
    }
}

#[test]
fn missing_required_parameter_fails_before_invocation() {
    let (reg, mut ctx, mut sdk) = shell();
    let err = execute_line(&reg, &mut ctx, &mut sdk, "pool create").unwrap_err();
    assert_eq!(err, CliError::MissingParameter("name".to_string()));
    // nothing was created
    assert!(matches!(
        execute_line(&reg, &mut ctx, &mut sdk, "pool list").unwrap_err(),
        CliError::ExternalSdkError(SdkError::IoError)
    ));
}

#[test]
fn unknown_named_parameter_is_refused() {
    let (reg, mut ctx, mut sdk) = shell();
    let err = execute_line(&reg, &mut ctx, &mut sdk, "pool create test1 bogus=1").unwrap_err();
    assert_eq!(err, CliError::InvalidParameterFormat("bogus".to_string()));
}

#[test]
fn declared_precondition_short_circuits() {
    let (reg, mut ctx, mut sdk) = shell();
    let err = execute_line(
        &reg,
        &mut ctx,
        &mut sdk,
        "did qualify VsKV7grR1BUE29mG2Fm2kX method=peer",
    )
    .unwrap_err();
    assert_eq!(err, CliError::PreconditionViolated(ContextRequirement::OpenedWallet));
}

#[test]
fn create_twice_is_already_exists() {
    let (reg, mut ctx, mut sdk) = shell();
    match execute_line(&reg, &mut ctx, &mut sdk, "pool create test1").unwrap() {
        LineOutcome::Done(CommandOutcome::PoolConfigCreated(n)) => assert_eq!(n, "test1"),
        other => panic!("unexpected outcome {:?}", other),
    }
    let err = execute_line(&reg, &mut ctx, &mut sdk, "pool create test1").unwrap_err();
    assert_eq!(err, CliError::AlreadyExists("test1".to_string()));
}

#[test]
fn disconnect_connect_disconnect_scenario() {
    let (reg, mut ctx, mut sdk) = shell();
    let err = execute_line(&reg, &mut ctx, &mut sdk, "pool disconnect").unwrap_err();
    assert_eq!(err, CliError::NothingToOperateOn);

    execute_line(&reg, &mut ctx, &mut sdk, "pool create test1").unwrap();
    execute_line(&reg, &mut ctx, &mut sdk, "pool connect test1").unwrap();
    assert_eq!(ctx.get_connected_pool_name(), Some("test1".to_string()));

    execute_line(&reg, &mut ctx, &mut sdk, "pool disconnect").unwrap();
    assert_eq!(ctx.get_connected_pool_name(), None);
}

#[test]
fn connect_switches_pools() {
    let (reg, mut ctx, mut sdk) = shell();
    execute_line(&reg, &mut ctx, &mut sdk, "pool create test1").unwrap();
    execute_line(&reg, &mut ctx, &mut sdk, "pool create test2").unwrap();
    execute_line(&reg, &mut ctx, &mut sdk, "pool connect test1").unwrap();
    let depth_connected = ctx.get_prompt_depth();
    match execute_line(&reg, &mut ctx, &mut sdk, "pool connect test2").unwrap() {
        LineOutcome::Done(CommandOutcome::PoolConnected(name, disconnected)) => {
            assert_eq!(name, "test2");
            assert_eq!(disconnected, Some("test1".to_string()));
        },
        other => panic!("unexpected outcome {:?}", other),
    }
    assert_eq!(ctx.get_connected_pool_name(), Some("test2".to_string()));
    assert_eq!(ctx.get_prompt_depth(), depth_connected);
}

#[test]
fn connect_failure_leaves_no_pool_connected() {
    let (reg, mut ctx, mut sdk) = shell();
    execute_line(&reg, &mut ctx, &mut sdk, "pool create test1").unwrap();
    execute_line(&reg, &mut ctx, &mut sdk, "pool connect test1").unwrap();
    // opening a pool with no configuration fails after test1 was closed
    execute_line(&reg, &mut ctx, &mut sdk, "pool connect nosuch").unwrap_err();
    assert_eq!(ctx.get_connected_pool_name(), None);
    assert!(ctx.is_session_failed());
}

#[test]
fn delete_open_pool_is_refused() {
    let (reg, mut ctx, mut sdk) = shell();
    execute_line(&reg, &mut ctx, &mut sdk, "pool create test1").unwrap();
    execute_line(&reg, &mut ctx, &mut sdk, "pool connect test1").unwrap();
    let err = execute_line(&reg, &mut ctx, &mut sdk, "pool delete test1").unwrap_err();
    assert_eq!(err, CliError::ExternalSdkError(SdkError::AlreadyOpen));
    execute_line(&reg, &mut ctx, &mut sdk, "pool disconnect").unwrap();
    execute_line(&reg, &mut ctx, &mut sdk, "pool delete test1").unwrap();
    assert!(matches!(
        execute_line(&reg, &mut ctx, &mut sdk, "pool list").unwrap_err(),
        CliError::ExternalSdkError(SdkError::IoError)
    ));
}

#[test]
fn list_reports_names_and_current_pool() {
    let (reg, mut ctx, mut sdk) = shell();
    execute_line(&reg, &mut ctx, &mut sdk, "pool create test1").unwrap();
    execute_line(&reg, &mut ctx, &mut sdk, "pool create test2").unwrap();
    execute_line(&reg, &mut ctx, &mut sdk, "pool connect test1").unwrap();
    match execute_line(&reg, &mut ctx, &mut sdk, "pool list").unwrap() {
        LineOutcome::Done(CommandOutcome::PoolList(names, cur)) => {
            assert_eq!(names, vec!["test1".to_string(), "test2".to_string()]);
            assert_eq!(cur, Some("test1".to_string()));
        },
        other => panic!("unexpected outcome {:?}", other),
    }
}

#[test]
fn session_failure_is_sticky() {
    let (reg, mut ctx, mut sdk) = shell();
    execute_line(&reg, &mut ctx, &mut sdk, "pool create test1").unwrap();
    assert!(!ctx.is_session_failed());
    execute_line(&reg, &mut ctx, &mut sdk, "pool create test1").unwrap_err();
    assert!(ctx.is_session_failed());
    execute_line(&reg, &mut ctx, &mut sdk, "pool list").unwrap();
    assert!(ctx.is_session_failed());
}

#[test]
fn completion_of_groups_and_commands() {
    let (reg, ctx, sdk) = shell();
    assert_eq!(complete(&reg, &ctx, &sdk, "p"), vec!["pool".to_string()]);
    assert_eq!(
        complete(&reg, &ctx, &sdk, "pool "),
        vec![
            "create".to_string(),
            "connect".to_string(),
            "list".to_string(),
            "disconnect".to_string(),
            "delete".to_string()
        ]
    );
    assert_eq!(
        complete(&reg, &ctx, &sdk, "pool c"),
        vec!["create".to_string(), "connect".to_string()]
    );
    assert_eq!(complete(&reg, &ctx, &sdk, "pool z"), Vec::<String>::new());
}

#[test]
fn completion_of_pool_names() {
    let (reg, mut ctx, mut sdk) = shell();
    execute_line(&reg, &mut ctx, &mut sdk, "pool create test1").unwrap();
    execute_line(&reg, &mut ctx, &mut sdk, "pool create other").unwrap();
    assert_eq!(
        complete(&reg, &ctx, &sdk, "pool connect t"),
        vec!["test1".to_string()]
    );
    assert_eq!(
        complete(&reg, &ctx, &sdk, "pool connect "),
        vec!["test1".to_string(), "other".to_string()]
    );
}

#[test]
fn completion_of_dids_needs_open_wallet() {
    let (reg, mut ctx, mut sdk) = shell();
    // no wallet open: the source is unavailable and yields nothing
    assert_eq!(complete(&reg, &ctx, &sdk, "did qualify V"), Vec::<String>::new());
    sdk.wallet_create("w1").unwrap();
    let handle = sdk.wallet_open("w1").unwrap();
    ctx.set_opened_wallet("w1".to_string(), handle);
    sdk.did_new(handle, "VsKV7grR1BUE29mG2Fm2kX").unwrap();
    assert_eq!(
        complete(&reg, &ctx, &sdk, "did qualify V"),
        vec!["VsKV7grR1BUE29mG2Fm2kX".to_string()]
    );
    assert_eq!(complete(&reg, &ctx, &sdk, "did qualify X"), Vec::<String>::new());
}

#[test]
fn completion_of_wallet_names() {
    let (reg, ctx, mut sdk) = shell();
    sdk.wallet_create("w1").unwrap();
    sdk.wallet_create("other").unwrap();
    assert_eq!(
        complete(&reg, &ctx, &sdk, "wallet detach w"),
        vec!["w1".to_string()]
    );
}

#[test]
fn success_messages_have_the_documented_shape() {
    assert_eq!(
        success_message(&CommandOutcome::PoolConfigCreated("test1".to_string())),
        "Pool config \"test1\" has been created"
    );
    assert_eq!(
        success_message(&CommandOutcome::PoolConnected("test1".to_string(), None)),
        "Pool \"test1\" has been connected"
    );
    assert_eq!(
        success_message(&CommandOutcome::PoolDisconnected("test1".to_string())),
        "Pool \"test1\" has been disconnected"
    );
    assert_eq!(
        success_message(&CommandOutcome::WalletDetached("w1".to_string())),
        "Wallet \"w1\" has been detached"
    );
    assert_eq!(
        success_message(&CommandOutcome::PoolList(
            vec!["test1".to_string(), "test2".to_string()],
            Some("test1".to_string())
        )),
        "test1\ntest2\nCurrent pool \"test1\""
    );
    assert_eq!(
        success_message(&CommandOutcome::PoolList(Vec::new(), None)),
        "There are no pool"
    );
}

#[test]
fn error_messages_have_the_documented_shape() {
    assert_eq!(
        error_message(&CliError::MissingParameter("name".to_string())),
        "Missing required parameter \"name\""
    );
    assert_eq!(
        error_message(&CliError::UnknownCommand("nope".to_string())),
        "Unknown command \"nope\""
    );
    assert_eq!(
        error_message(&CliError::PreconditionViolated(ContextRequirement::ConnectedPool)),
        "There is no connected pool now"
    );
    assert_eq!(
        error_message(&CliError::AlreadyExists("test1".to_string())),
        "Pool config \"test1\" already exists"
    );
}
