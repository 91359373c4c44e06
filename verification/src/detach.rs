//! The `wallet detach` command: removes a wallet's configuration from the
//! shell.  A wallet that is not attached cannot be detached, and the wallet
//! the session has open is refused — its configuration file stays put.

use vstd::prelude::*;

use crate::context::CommandContext;
use crate::error::{CliError, ContextRequirement, ErrView};
use crate::metadata::{CommandMetadata, CommandMetadataV, DynamicCompletionType};
use crate::params::{lookup, CommandParams, ParamParser};
use crate::report::{CommandOutcome, OutcomeView};
use crate::sdk::Sdk;
use crate::strutil::str_eq;

verus! {

/// The declared description of `wallet detach`.
pub open spec fn metadata_desc(m: CommandMetadataV) -> bool {
    &&& m.name == "detach"@
    &&& m.params.len() == 1
    &&& m.params[0].name == "name"@ && m.params[0].is_main && m.params[0].required
    &&& m.params[0].completion == Some(DynamicCompletionType::Wallet)
    &&& !m.requires_opened_wallet && !m.requires_connected_pool
}

/// What running `wallet detach` with bindings `b` does: an attached wallet
/// of the bound name, not the session's open one, leaves the attached
/// listing; every failure leaves the service untouched, for the stated
/// reason.
pub open spec fn execute_post(
    ctx: CommandContext,
    pre: Sdk,
    b: Seq<(Seq<char>, Seq<char>)>,
    post: Sdk,
    r: Result<CommandOutcome, CliError>,
) -> bool {
    &&& post.pool_configs() == pre.pool_configs()
    &&& post.open_pools() == pre.open_pools()
    &&& post.open_wallets() == pre.open_wallets()
    &&& match r {
        Ok(o) => ({
            &&& lookup(b, "name"@) matches Some(n)
            &&& ({
                let n = lookup(b, "name"@)->0;
                &&& o@ == OutcomeView::WalletDetached(n)
                &&& pre.has_wallet(n)
                &&& (match ctx.opened_wallet() {
                    Some(w) => w.0 != n,
                    None => true,
                })
                &&& (exists|i: int|
                    0 <= i < pre.wallets().len() && pre.wallets()[i].0 == n && post.wallets()
                        == pre.wallets().remove(i))
                &&& !post.has_wallet(n)
            })
        }),
        Err(e) => post == pre && match e@ {
            ErrView::MissingParameter(p) => p == "name"@ && lookup(b, "name"@) is None,
            ErrView::NothingToOperateOn => (lookup(b, "name"@) matches Some(n)
                && !pre.has_wallet(n)),
            ErrView::PreconditionViolated(c) => c == ContextRequirement::WalletClosed && (lookup(
                b,
                "name"@,
            ) matches Some(n) && pre.has_wallet(n) && (ctx.opened_wallet() matches Some(w)
                && w.0 == n)),
            _ => false,
        },
    }
}

/// The declarative description of `wallet detach`.
pub fn metadata() -> (r: CommandMetadata)
    ensures
        metadata_desc(r@),
{
    CommandMetadata::build("detach", "Detach wallet from the shell")
        .add_main_param_with_dynamic_completion(
        "name",
        "Identifier of the wallet",
        DynamicCompletionType::Wallet,
    ).add_example("wallet detach wallet1").finalize()
}

/// Runs `wallet detach`: needs the `name` parameter, an attached wallet of
/// that name, and that the session's open wallet (if any) is a different
/// one; on success the wallet leaves the attached-wallet listing, on failure
/// its configuration is untouched.
pub fn execute(ctx: &CommandContext, sdk: &mut Sdk, params: &CommandParams) -> (r: Result<
    CommandOutcome,
    CliError,
>)
    requires
        old(sdk).wf(),
    ensures
        final(sdk).wf(),
        execute_post(*ctx, *old(sdk), params.entries_view(), *final(sdk), r),
{
    let id = match ParamParser::get_str_param("name", params) {
        Ok(v) => v,
        Err(e) => {
            return Err(e);
        },
    };
    if !sdk.wallet_config_exists(id.as_str()) {
        return Err(CliError::NothingToOperateOn);
    }
    match ctx.get_opened_wallet() {
        Some(w) => {
            if str_eq(w.0.as_str(), id.as_str()) {
                return Err(CliError::PreconditionViolated(ContextRequirement::WalletClosed));
            }
        },
        None => {},
    }
    match sdk.wallet_detach(id.as_str()) {
        Ok(()) => Ok(CommandOutcome::WalletDetached(id)),
        Err(e) => Err(CliError::ExternalSdkError(e)),
    }
}

} // verus!
