//! The `did qualify` command: rewrites a DID stored in the open wallet into
//! its fully qualified, method-scoped form, and keeps the session's active
//! DID in step when it was the one rewritten.

use vstd::prelude::*;

use crate::context::CommandContext;
use crate::error::{CliError, ContextRequirement, ErrView, SdkError};
use crate::metadata::{CommandMetadata, CommandMetadataV, DynamicCompletionType};
use crate::params::{lookup, valid_did, CommandParams, ParamParser};
use crate::report::{CommandOutcome, OutcomeView};
use crate::sdk::{qualified_did, Sdk};
use crate::strutil::str_eq;

verus! {

/// The 4-character method token `did:` starts at position `i` of `s`.
pub open spec fn did_token_at(s: Seq<char>, i: int) -> bool {
    s[i] == 'd' && s[i + 1] == 'i' && s[i + 2] == 'd' && s[i + 3] == ':'
}

/// `s` holds the token `did:` somewhere.
pub open spec fn contains_did_token(s: Seq<char>) -> bool {
    exists|i: int| 0 <= i && i + 4 <= s.len() && did_token_at(s, i)
}

/// The method actually applied: a `did:` prefix the user typed anyway is
/// stripped off (the help asks for the method without it).
pub open spec fn effective_method(s: Seq<char>) -> Seq<char> {
    if contains_did_token(s) {
        s.subrange(4, s.len() as int)
    } else {
        s
    }
}

/// Strips a stray `did:` prefix from the method parameter.
fn normalize_method(s: &str) -> (r: String)
    ensures
        r@ == effective_method(s@),
{
    let n = s.unicode_len();
    let mut i: usize = 0;
    let mut found = false;
    while !found && i < n && n - i >= 4
        invariant
            n == s@.len(),
            i <= n,
            !found ==> forall|j: int| 0 <= j < i ==> !did_token_at(s@, j),
            found ==> contains_did_token(s@),
        decreases n - i + (if found { 0int } else { 1int }),
    {
        if s.get_char(i) == 'd' && s.get_char(i + 1) == 'i' && s.get_char(i + 2) == 'd'
            && s.get_char(i + 3) == ':' {
            proof {
                assert(did_token_at(s@, i as int));
            }
            found = true;
        } else {
            i = i + 1;
        }
    }
    if found {
        s.substring_char(4, n).to_owned()
    } else {
        proof {
            assert forall|j: int| !(0 <= j && j + 4 <= s@.len() && did_token_at(s@, j)) by {
                if 0 <= j && j + 4 <= s@.len() {
                    assert(!did_token_at(s@, j));
                }
            }
        }
        s.to_owned()
    }
}

/// The declared description of `did qualify`.
pub open spec fn metadata_desc(m: CommandMetadataV) -> bool {
    &&& m.name == "qualify"@
    &&& m.params.len() == 2
    &&& m.params[0].name == "did"@ && m.params[0].is_main && m.params[0].required
    &&& m.params[0].completion == Some(DynamicCompletionType::Did)
    &&& m.params[1].name == "method"@ && !m.params[1].is_main && m.params[1].required
    &&& m.requires_opened_wallet && !m.requires_connected_pool
}

/// What running `did qualify` with bindings `b` does: with an open wallet,
/// a well-shaped `did` and a `method`, the stored DID becomes
/// `did:<method>:<did>`, and the active DID follows when it was the one
/// rewritten; every failure leaves the service and the active DID as they
/// were, for the stated reason.
pub open spec fn execute_post(
    pre_ctx: CommandContext,
    pre_sdk: Sdk,
    b: Seq<(Seq<char>, Seq<char>)>,
    post_ctx: CommandContext,
    post_sdk: Sdk,
    r: Result<CommandOutcome, CliError>,
) -> bool {
    &&& post_ctx.opened_wallet() == pre_ctx.opened_wallet()
    &&& post_ctx.connected_pool() == pre_ctx.connected_pool()
    &&& post_ctx.sub_prompts() == pre_ctx.sub_prompts()
    &&& match r {
        Ok(o) => ({
            &&& pre_ctx.opened_wallet() matches Some(w)
            &&& lookup(b, "did"@) matches Some(d) && valid_did(d)
            &&& lookup(b, "method"@) matches Some(m)
            &&& ({
                let w = pre_ctx.opened_wallet()->0;
                let d = lookup(b, "did"@)->0;
                let m = lookup(b, "method"@)->0;
                let full = qualified_did(effective_method(m), d);
                &&& o@ == OutcomeView::DidQualified(full, pre_ctx.active_did() == Some(d))
                &&& pre_sdk.did_in_wallet(w.1, d)
                &&& post_sdk.did_in_wallet(w.1, full)
                &&& post_ctx.active_did() == (if pre_ctx.active_did() == Some(d) {
                    Some(full)
                } else {
                    pre_ctx.active_did()
                })
                &&& post_sdk.pool_configs() == pre_sdk.pool_configs()
                &&& post_sdk.open_pools() == pre_sdk.open_pools()
                &&& post_sdk.open_wallets() == pre_sdk.open_wallets()
            })
        }),
        Err(e) => post_sdk == pre_sdk && post_ctx.active_did() == pre_ctx.active_did() && match e@ {
            ErrView::PreconditionViolated(c) => c == ContextRequirement::OpenedWallet
                && pre_ctx.opened_wallet() is None,
            ErrView::MissingParameter(p) => pre_ctx.opened_wallet() is Some && ((p == "did"@
                && lookup(b, "did"@) is None) || (p == "method"@ && lookup(
                b,
                "method"@,
            ) is None)),
            ErrView::InvalidParameterFormat(p) => p == "did"@ && pre_ctx.opened_wallet() is Some
                && (lookup(b, "did"@) matches Some(d) && !valid_did(d)),
            ErrView::ExternalSdkError(se) => ({
                &&& pre_ctx.opened_wallet() matches Some(w)
                &&& (se == SdkError::InvalidHandle ==> !pre_sdk.wallet_handle_open(
                    (pre_ctx.opened_wallet()->0).1,
                ))
                &&& (se == SdkError::NotFound ==> (lookup(b, "did"@) matches Some(d)
                    && !pre_sdk.did_in_wallet((pre_ctx.opened_wallet()->0).1, d)))
                &&& (se == SdkError::InvalidHandle || se == SdkError::NotFound)
            }),
            _ => false,
        },
    }
}

/// The declarative description of `did qualify`.
pub fn metadata() -> (r: CommandMetadata)
    ensures
        metadata_desc(r@),
{
    CommandMetadata::build(
        "qualify",
        "Update DID stored in the wallet to make fully qualified, or to do other DID maintenance.",
    ).add_main_param_with_dynamic_completion(
        "did",
        "Did stored in wallet",
        DynamicCompletionType::Did,
    ).add_required_param(
        "method",
        "Method to apply to the DID. Note that `did:` prefix must be omitted",
    ).require_opened_wallet().add_example("did qualify VsKV7grR1BUE29mG2Fm2kX method=peer")
        .finalize()
}

/// Runs `did qualify`: needs an open wallet, a well-shaped `did` parameter
/// and a `method` parameter; on success the stored DID is rewritten to
/// `did:<method>:<did>` and, when it was the active DID, the active DID is
/// updated to the rewritten form.
pub fn execute(ctx: &mut CommandContext, sdk: &mut Sdk, params: &CommandParams) -> (r: Result<
    CommandOutcome,
    CliError,
>)
    requires
        old(ctx).wf(),
        old(sdk).wf(),
    ensures
        final(ctx).wf(),
        final(sdk).wf(),
        final(ctx).session_failed() == old(ctx).session_failed(),
        execute_post(*old(ctx), *old(sdk), params.entries_view(), *final(ctx), *final(sdk), r),
{
    let wallet = match ctx.ensure_opened_wallet() {
        Ok(w) => w,
        Err(e) => {
            return Err(e);
        },
    };
    let did = match ParamParser::get_did_param("did", params) {
        Ok(d) => d,
        Err(e) => {
            return Err(e);
        },
    };
    let method_raw = match ParamParser::get_str_param("method", params) {
        Ok(m) => m,
        Err(e) => {
            return Err(e);
        },
    };
    let method = normalize_method(method_raw.as_str());
    let full = match sdk.did_qualify(wallet.1, did.as_str(), method.as_str()) {
        Ok(f) => f,
        Err(e) => {
            return Err(CliError::ExternalSdkError(e));
        },
    };
    let updated = match ctx.get_active_did() {
        Some(active) => str_eq(active.as_str(), did.as_str()),
        None => false,
    };
    if updated {
        ctx.set_active_did(full.clone());
    }
    Ok(CommandOutcome::DidQualified(full, updated))
}

} // verus!
