//! The `pool` command group: create, connect, list, disconnect and delete
//! pool configurations.  Connecting switches: at most one pool is connected,
//! and connecting to a new pool first disconnects the old one; if closing
//! the old pool fails nothing changes, and if opening the new pool fails the
//! session ends up with no pool connected.
//!
//! Each command's behaviour is stated once, as a spec predicate over the
//! session, the service, the parameter bindings and the result; the
//! command's `ensures` and the dispatcher's contract both speak of it.

use vstd::prelude::*;

use crate::context::{ctx_same_but_status, prompt_set, prompt_unset, CommandContext};
use crate::error::{CliError, ErrView, SdkError};
use crate::metadata::{CommandMetadata, CommandMetadataV, DynamicCompletionType, GroupMetadata};
use crate::params::{lookup, CommandParams, ParamParser};
use crate::report::{framed, CommandOutcome, OutcomeView};
use crate::sdk::Sdk;

verus! {

/// The `pool` command group.
pub struct Group {
    pub metadata: GroupMetadata,
}

impl Group {
    pub fn new() -> (r: Group)
        ensures
            r.metadata.name@ == "pool"@,
            r.metadata.help@ == "Pool management commands"@,
    {
        Group { metadata: GroupMetadata::new("pool", "Pool management commands") }
    }

    pub fn metadata(&self) -> (r: &GroupMetadata)
        ensures
            r.name@ == self.metadata.name@,
            r.help@ == self.metadata.help@,
    {
        &self.metadata
    }
}

/// The default genesis-transaction file name used when none is given.
pub open spec fn default_genesis() -> Seq<char> {
    "pool_transactions_genesis"@
}

/// The genesis file a `pool create` invocation asks for.
pub open spec fn genesis_of(b: Seq<(Seq<char>, Seq<char>)>) -> Seq<char> {
    match lookup(b, "gen_txn_file"@) {
        Some(g) => g,
        None => default_genesis(),
    }
}

/// The configuration document handed to the service for a genesis file.
pub open spec fn config_doc(gen: Seq<char>) -> Seq<char> {
    "{\"genesis_txn\":\""@ + gen + "\"}"@
}

/// The prompt segment shown while a pool is connected.
pub open spec fn pool_prompt(name: Seq<char>) -> Seq<char> {
    framed("pool("@, name, ")"@)
}

/// The declared description of `pool create`.
pub open spec fn create_metadata_desc(m: CommandMetadataV) -> bool {
    &&& m.name == "create"@
    &&& m.params.len() == 2
    &&& m.params[0].name == "name"@ && m.params[0].is_main && m.params[0].required
    &&& m.params[1].name == "gen_txn_file"@ && !m.params[1].is_main && !m.params[1].required
    &&& !m.requires_opened_wallet && !m.requires_connected_pool
}

/// What running `pool create` with bindings `b` does to the service.
pub open spec fn create_post(
    pre: Sdk,
    b: Seq<(Seq<char>, Seq<char>)>,
    post: Sdk,
    r: Result<CommandOutcome, CliError>,
) -> bool {
    &&& post.open_pools() == pre.open_pools()
    &&& post.wallets() == pre.wallets()
    &&& post.open_wallets() == pre.open_wallets()
    &&& match r {
        Ok(o) => ({
            &&& lookup(b, "name"@) matches Some(n)
            &&& ({
                let n = lookup(b, "name"@)->0;
                &&& o@ == OutcomeView::PoolConfigCreated(n)
                &&& !pre.has_pool_config(n)
                &&& post.pool_configs() == pre.pool_configs().push(
                    (n, config_doc(genesis_of(b))),
                )
            })
        }),
        Err(e) => post == pre && match e@ {
            ErrView::MissingParameter(p) => p == "name"@ && lookup(b, "name"@) is None,
            ErrView::AlreadyExists(n) => lookup(b, "name"@) == Some(n) && pre.has_pool_config(n),
            _ => false,
        },
    }
}

/// The `pool create` command.
pub struct CreateCommand;

impl CreateCommand {
    pub fn metadata() -> (r: CommandMetadata)
        ensures
            create_metadata_desc(r@),
    {
        CommandMetadata::build("create", "Create new pool ledger config with specified name")
            .add_main_param("name", "The name of new pool ledger config").add_param(
            "gen_txn_file",
            true,
            "Path to file with genesis transactions",
        ).finalize()
    }

    /// Creates a pool configuration named by the `name` parameter, storing a
    /// configuration document that points at the genesis file; a taken name
    /// is an `AlreadyExists` error and changes nothing.
    pub fn execute(sdk: &mut Sdk, params: &CommandParams) -> (r: Result<CommandOutcome, CliError>)
        requires
            old(sdk).wf(),
        ensures
            final(sdk).wf(),
            create_post(*old(sdk), params.entries_view(), *final(sdk), r),
    {
        let name = match ParamParser::get_str_param("name", params) {
            Ok(v) => v,
            Err(e) => {
                return Err(e);
            },
        };
        let gen = match ParamParser::get_opt_str_param("gen_txn_file", params) {
            Ok(Some(v)) => v,
            Ok(None) => String::from_str("pool_transactions_genesis"),
            Err(e) => {
                return Err(e);
            },
        };
        let config = String::from_str("{\"genesis_txn\":\"").concat(gen.as_str()).concat("\"}");
        match sdk.pool_create_config(name.as_str(), config.as_str()) {
            Ok(()) => Ok(CommandOutcome::PoolConfigCreated(name)),
            Err(SdkError::AlreadyExists) => Err(CliError::AlreadyExists(name)),
            Err(e) => Err(CliError::ExternalSdkError(e)),
        }
    }
}

/// The declared description of `pool connect`.
pub open spec fn connect_metadata_desc(m: CommandMetadataV) -> bool {
    &&& m.name == "connect"@
    &&& m.params.len() == 1
    &&& m.params[0].name == "name"@ && m.params[0].is_main && m.params[0].required
    &&& m.params[0].completion == Some(DynamicCompletionType::Pool)
    &&& !m.requires_opened_wallet && !m.requires_connected_pool
}

/// What running `pool connect` with bindings `b` does: on success the old
/// pool (if any) is closed and the named one open with prompt slot 1 set;
/// on failure either nothing was committed (the parameter was missing or
/// closing the old pool failed) or the old pool was disconnected, slot 1
/// cleared, and opening the new one failed for a stated reason.  No run
/// leaves two pools connected.
pub open spec fn connect_post(
    pre_ctx: CommandContext,
    pre_sdk: Sdk,
    b: Seq<(Seq<char>, Seq<char>)>,
    post_ctx: CommandContext,
    post_sdk: Sdk,
    r: Result<CommandOutcome, CliError>,
) -> bool {
    &&& post_ctx.opened_wallet() == pre_ctx.opened_wallet()
    &&& post_ctx.active_did() == pre_ctx.active_did()
    &&& post_sdk.pool_configs() == pre_sdk.pool_configs()
    &&& post_sdk.wallets() == pre_sdk.wallets()
    &&& post_sdk.open_wallets() == pre_sdk.open_wallets()
    &&& match r {
        Ok(o) => ({
            &&& lookup(b, "name"@) matches Some(n)
            &&& ({
                let n = lookup(b, "name"@)->0;
                &&& (o@ matches OutcomeView::PoolConnected(n2, d) && n2 == n && (match pre_ctx.connected_pool() {
                    Some(p) => d == Some(p.0),
                    None => d is None,
                }))
                &&& pre_sdk.has_pool_config(n)
                &&& (post_ctx.connected_pool() matches Some(p2) && p2.0 == n
                    && post_sdk.pool_handle_open(p2.1))
                &&& (match pre_ctx.connected_pool() {
                    Some(p) => !post_sdk.pool_handle_open(p.1) && post_ctx.sub_prompts()
                        == prompt_set(prompt_unset(pre_ctx.sub_prompts(), 1), 1, pool_prompt(n)),
                    None => post_ctx.sub_prompts() == prompt_set(
                        pre_ctx.sub_prompts(),
                        1,
                        pool_prompt(n),
                    ),
                })
            })
        }),
        Err(e) => ({
            &&& ((ctx_same_but_status(pre_ctx, post_ctx) && post_sdk == pre_sdk) || (
            post_ctx.connected_pool() is None && post_ctx.sub_prompts() == prompt_unset(
                pre_ctx.sub_prompts(),
                1,
            ) && (pre_ctx.connected_pool() matches Some(p) && !post_sdk.pool_handle_open(p.1))))
            &&& match e@ {
                ErrView::MissingParameter(p) => p == "name"@ && lookup(b, "name"@) is None,
                ErrView::ExternalSdkError(se) => lookup(b, "name"@) is Some && ({
                    let n = lookup(b, "name"@)->0;
                    // either closing the old pool failed and nothing was
                    // committed ...
                    ||| (pre_ctx.connected_pool() matches Some(p) && !pre_sdk.pool_handle_open(
                        p.1,
                    ) && se == SdkError::InvalidHandle && ctx_same_but_status(pre_ctx, post_ctx)
                        && post_sdk == pre_sdk)
                    // ... or the old pool (if any) was disconnected and
                    // opening the new one failed for a stated reason
                    ||| ((match pre_ctx.connected_pool() {
                        Some(p) => pre_sdk.pool_handle_open(p.1),
                        None => true,
                    }) && post_ctx.connected_pool() is None && (se == SdkError::NotFound
                        ==> !pre_sdk.has_pool_config(n)) && (se == SdkError::AlreadyOpen ==> (
                    exists|i: int|
                        0 <= i < pre_sdk.open_pools().len() && (
                        #[trigger] pre_sdk.open_pools()[i]).1 == n && !(pre_ctx.connected_pool()
                            matches Some(p) && pre_sdk.open_pools()[i].0 == p.1))) && (se
                        == SdkError::Exhausted ==> pre_sdk.next_handle() == u64::MAX) && (se
                        == SdkError::NotFound || se == SdkError::AlreadyOpen || se
                        == SdkError::Exhausted))
                }),
                _ => false,
            }
        }),
    }
}

/// The `pool connect` command.
pub struct ConnectCommand;

impl ConnectCommand {
    pub fn metadata() -> (r: CommandMetadata)
        ensures
            connect_metadata_desc(r@),
    {
        CommandMetadata::build(
            "connect",
            "Connect to pool with specified name. Also disconnect from previously connected.",
        ).add_main_param_with_dynamic_completion(
            "name",
            "The name of pool",
            DynamicCompletionType::Pool,
        ).finalize()
    }

    /// Connects to the pool named by the `name` parameter, first
    /// disconnecting a currently connected pool; see `connect_post`.
    pub fn execute(ctx: &mut CommandContext, sdk: &mut Sdk, params: &CommandParams) -> (r: Result<
        CommandOutcome,
        CliError,
    >)
        requires
            old(ctx).wf(),
            old(sdk).wf(),
        ensures
            final(ctx).wf(),
            final(sdk).wf(),
            final(ctx).session_failed() == old(ctx).session_failed(),
            connect_post(
                *old(ctx),
                *old(sdk),
                params.entries_view(),
                *final(ctx),
                *final(sdk),
                r,
            ),
    {
        let name = match ParamParser::get_str_param("name", params) {
            Ok(v) => v,
            Err(e) => {
                return Err(e);
            },
        };
        let mut disconnected: Option<String> = None;
        match ctx.get_connected_pool() {
            Some(old_pool) => {
                match sdk.pool_close(old_pool.1) {
                    Ok(()) => {
                        ctx.unset_sub_prompt(1);
                        ctx.unset_connected_pool();
                        disconnected = Some(old_pool.0);
                    },
                    Err(e) => {
                        return Err(CliError::ExternalSdkError(e));
                    },
                }
            },
            None => {},
        }
        let ghost mid_open = sdk.open_pools();
        match sdk.pool_open(name.as_str()) {
            Ok(handle) => {
                let prompt = String::from_str("pool(").concat(name.as_str()).concat(")");
                ctx.set_sub_prompt(1, prompt);
                ctx.set_connected_pool(name.clone(), handle);
                proof {
                    let finals = sdk.open_pools();
                    assert(finals == mid_open.push((handle, name@)));
                    assert(finals[finals.len() - 1] == (handle, name@));
                    assert(sdk.pool_handle_open(handle));
                    if old(ctx).connected_pool() is Some {
                        let p = old(ctx).connected_pool()->0;
                        let iw = choose|i: int|
                            0 <= i < old(sdk).open_pools().len() && old(sdk).open_pools()[i].0
                                == p.1;
                        assert(p.1 < old(sdk).next_handle());
                        assert(handle == old(sdk).next_handle());
                        assert forall|i: int| 0 <= i < finals.len() implies finals[i].0 != p.1 by {
                            if i < finals.len() - 1 {
                                assert(finals[i] == mid_open[i]);
                            }
                        }
                    }
                }
                Ok(CommandOutcome::PoolConnected(name, disconnected))
            },
            Err(e) => Err(CliError::ExternalSdkError(e)),
        }
    }
}

/// The declared description of `pool list`.
pub open spec fn list_metadata_desc(m: CommandMetadataV) -> bool {
    &&& m.name == "list"@
    &&& m.params.len() == 0
    &&& !m.requires_opened_wallet && !m.requires_connected_pool
}

/// What `pool list` reports: the configuration names in creation order and
/// the connected pool, or the service's input/output error when no
/// configuration exists.  It changes nothing.
pub open spec fn list_post(
    ctx: CommandContext,
    sdk: Sdk,
    r: Result<CommandOutcome, CliError>,
) -> bool {
    match r {
        Ok(o) => ({
            &&& sdk.pool_configs().len() > 0
            &&& (o@ matches OutcomeView::PoolList(ns, cur) && ns.len() == sdk.pool_configs().len()
                && (forall|j: int| 0 <= j < ns.len() ==> ns[j] == sdk.pool_configs()[j].0) && (
            match ctx.connected_pool() {
                Some(p) => cur == Some(p.0),
                None => cur is None,
            }))
        }),
        Err(e) => e@ == ErrView::ExternalSdkError(SdkError::IoError) && sdk.pool_configs().len()
            == 0,
    }
}

/// The `pool list` command.
pub struct ListCommand;

impl ListCommand {
    pub fn metadata() -> (r: CommandMetadata)
        ensures
            list_metadata_desc(r@),
    {
        CommandMetadata::build("list", "List existing pool configs.").finalize()
    }

    /// Lists the pool configuration names; see `list_post`.
    pub fn execute(ctx: &CommandContext, sdk: &Sdk, params: &CommandParams) -> (r: Result<
        CommandOutcome,
        CliError,
    >)
        ensures
            list_post(*ctx, *sdk, r),
    {
        let names = match sdk.pool_list() {
            Ok(v) => v,
            Err(e) => {
                return Err(CliError::ExternalSdkError(e));
            },
        };
        let current = ctx.get_connected_pool_name();
        Ok(CommandOutcome::PoolList(names, current))
    }
}

/// The declared description of `pool disconnect`.
pub open spec fn disconnect_metadata_desc(m: CommandMetadataV) -> bool {
    &&& m.name == "disconnect"@
    &&& m.params.len() == 0
    &&& !m.requires_opened_wallet && !m.requires_connected_pool
}

/// What `pool disconnect` does: with a pool connected whose handle is open
/// it closes it, clears prompt slot 1 and the session's pool; with none
/// connected it demands prior state and fails, changing nothing.
pub open spec fn disconnect_post(
    pre_ctx: CommandContext,
    pre_sdk: Sdk,
    post_ctx: CommandContext,
    post_sdk: Sdk,
    r: Result<CommandOutcome, CliError>,
) -> bool {
    &&& post_ctx.opened_wallet() == pre_ctx.opened_wallet()
    &&& post_ctx.active_did() == pre_ctx.active_did()
    &&& post_sdk.pool_configs() == pre_sdk.pool_configs()
    &&& post_sdk.wallets() == pre_sdk.wallets()
    &&& post_sdk.open_wallets() == pre_sdk.open_wallets()
    &&& match r {
        Ok(o) => ({
            &&& pre_ctx.connected_pool() matches Some(p)
            &&& ({
                let p = pre_ctx.connected_pool()->0;
                &&& o@ == OutcomeView::PoolDisconnected(p.0)
                &&& pre_sdk.pool_handle_open(p.1)
                &&& post_ctx.connected_pool() is None
                &&& !post_sdk.pool_handle_open(p.1)
                &&& post_ctx.sub_prompts() == prompt_unset(pre_ctx.sub_prompts(), 1)
            })
        }),
        Err(e) => ctx_same_but_status(pre_ctx, post_ctx) && post_sdk == pre_sdk && match e@ {
            ErrView::NothingToOperateOn => pre_ctx.connected_pool() is None,
            ErrView::ExternalSdkError(se) => se == SdkError::InvalidHandle && (
            pre_ctx.connected_pool() matches Some(p) && !pre_sdk.pool_handle_open(p.1)),
            _ => false,
        },
    }
}

/// The `pool disconnect` command.
pub struct DisconnectCommand;

impl DisconnectCommand {
    pub fn metadata() -> (r: CommandMetadata)
        ensures
            disconnect_metadata_desc(r@),
    {
        CommandMetadata::build("disconnect", "Disconnect from current pool.").finalize()
    }

    /// Disconnects the currently connected pool; see `disconnect_post`.
    pub fn execute(ctx: &mut CommandContext, sdk: &mut Sdk, params: &CommandParams) -> (r: Result<
        CommandOutcome,
        CliError,
    >)
        requires
            old(ctx).wf(),
            old(sdk).wf(),
        ensures
            final(ctx).wf(),
            final(sdk).wf(),
            final(ctx).session_failed() == old(ctx).session_failed(),
            disconnect_post(*old(ctx), *old(sdk), *final(ctx), *final(sdk), r),
    {
        let pool = match ctx.get_connected_pool() {
            Some(p) => p,
            None => {
                return Err(CliError::NothingToOperateOn);
            },
        };
        match sdk.pool_close(pool.1) {
            Ok(()) => {
                ctx.unset_sub_prompt(1);
                ctx.unset_connected_pool();
                Ok(CommandOutcome::PoolDisconnected(pool.0))
            },
            Err(e) => Err(CliError::ExternalSdkError(e)),
        }
    }
}

/// The declared description of `pool delete`.
pub open spec fn delete_metadata_desc(m: CommandMetadataV) -> bool {
    &&& m.name == "delete"@
    &&& m.params.len() == 1
    &&& m.params[0].name == "name"@ && m.params[0].is_main && m.params[0].required
    &&& !m.requires_opened_wallet && !m.requires_connected_pool
}

/// What running `pool delete` with bindings `b` does to the service.
pub open spec fn delete_post(
    pre: Sdk,
    b: Seq<(Seq<char>, Seq<char>)>,
    post: Sdk,
    r: Result<CommandOutcome, CliError>,
) -> bool {
    &&& post.open_pools() == pre.open_pools()
    &&& post.wallets() == pre.wallets()
    &&& post.open_wallets() == pre.open_wallets()
    &&& match r {
        Ok(o) => ({
            &&& lookup(b, "name"@) matches Some(n)
            &&& ({
                let n = lookup(b, "name"@)->0;
                &&& o@ == OutcomeView::PoolDeleted(n)
                &&& pre.has_pool_config(n)
                &&& !pre.pool_open_by_name(n)
                &&& (exists|i: int|
                    0 <= i < pre.pool_configs().len() && pre.pool_configs()[i].0 == n
                        && post.pool_configs() == pre.pool_configs().remove(i))
                &&& !post.has_pool_config(n)
            })
        }),
        Err(e) => post == pre && match e@ {
            ErrView::MissingParameter(p) => p == "name"@ && lookup(b, "name"@) is None,
            ErrView::ExternalSdkError(se) => (lookup(b, "name"@) matches Some(n) && ((se
                == SdkError::NotFound && !pre.has_pool_config(n)) || (se == SdkError::AlreadyOpen
                && pre.has_pool_config(n) && pre.pool_open_by_name(n)))),
            _ => false,
        },
    }
}

/// The `pool delete` command.
pub struct DeleteCommand;

impl DeleteCommand {
    pub fn metadata() -> (r: CommandMetadata)
        ensures
            delete_metadata_desc(r@),
    {
        CommandMetadata::build("delete", "Delete pool config with specified name").add_main_param(
            "name",
            "The name of deleted pool config",
        ).finalize()
    }

    /// Deletes the pool configuration named by the `name` parameter; see
    /// `delete_post`.
    pub fn execute(sdk: &mut Sdk, params: &CommandParams) -> (r: Result<CommandOutcome, CliError>)
        requires
            old(sdk).wf(),
        ensures
            final(sdk).wf(),
            delete_post(*old(sdk), params.entries_view(), *final(sdk), r),
    {
        let name = match ParamParser::get_str_param("name", params) {
            Ok(v) => v,
            Err(e) => {
                return Err(e);
            },
        };
        match sdk.pool_delete(name.as_str()) {
            Ok(()) => Ok(CommandOutcome::PoolDeleted(name)),
            Err(e) => Err(CliError::ExternalSdkError(e)),
        }
    }
}

} // verus!
