//! The dispatcher: tokenizes an input line (honouring quoted substrings),
//! resolves the leading tokens against the registry, binds the remaining
//! tokens to the command's parameters, checks the declared context
//! requirements, and invokes the command, tracking the session's overall
//! exit status.

use vstd::prelude::*;

use crate::context::{ctx_same_but_status, CommandContext};
use crate::detach;
use crate::error::{CliError, ContextRequirement, ErrView};
use crate::metadata::{CommandMetadata, CommandMetadataV, GroupMetadata, ParamSpecV};
use crate::params::{lookup, CommandParams};
use crate::pool;
use crate::qualify;
use crate::registry::{command_names, spec_find_command, CommandKind, Registry, RegistryError};
use crate::report::CommandOutcome;
use crate::sdk::Sdk;
use crate::strutil::{push_char, str_eq};

verus! {

/// One tokenizer step at a time: shell-like splitting where a space ends a
/// token, a double quote toggles literal mode, and the quotes themselves are
/// dropped; an unterminated quote fails the whole line.
pub open spec fn spec_tokenize_rec(
    s: Seq<char>,
    cur: Option<Seq<char>>,
    in_quotes: bool,
    acc: Seq<Seq<char>>,
) -> Option<Seq<Seq<char>>>
    decreases s.len(),
{
    if s.len() == 0 {
        if in_quotes {
            None
        } else {
            match cur {
                Some(t) => Some(acc.push(t)),
                None => Some(acc),
            }
        }
    } else {
        let c = s[0];
        let rest = s.drop_first();
        let t = match cur {
            Some(t) => t,
            None => Seq::<char>::empty(),
        };
        if in_quotes {
            if c == '"' {
                spec_tokenize_rec(rest, Some(t), false, acc)
            } else {
                spec_tokenize_rec(rest, Some(t.push(c)), true, acc)
            }
        } else {
            if c == ' ' {
                match cur {
                    Some(t0) => spec_tokenize_rec(rest, None, false, acc.push(t0)),
                    None => spec_tokenize_rec(rest, None, false, acc),
                }
            } else if c == '"' {
                spec_tokenize_rec(rest, Some(t), true, acc)
            } else {
                spec_tokenize_rec(rest, Some(t.push(c)), false, acc)
            }
        }
    }
}

/// The token sequence of a command line, or nothing for an unterminated
/// quote.
pub open spec fn spec_tokenize(s: Seq<char>) -> Option<Seq<Seq<char>>> {
    spec_tokenize_rec(s, None, false, Seq::<Seq<char>>::empty())
}

/// Splits a line into tokens.
pub fn tokenize(line: &str) -> (r: Result<Vec<String>, CliError>)
    ensures
        match r {
            Ok(v) => spec_tokenize(line@) == Some(v@.map_values(|t: String| t@)),
            Err(e) => spec_tokenize(line@) is None && e@ == ErrView::InvalidParameterFormat(
                "quotation"@,
            ),
        },
{
    let n = line.unicode_len();
    let mut i: usize = 0;
    let mut cur = String::new();
    let mut has_cur = false;
    let mut in_quotes = false;
    let mut acc: Vec<String> = Vec::new();
    proof {
        assert(line@.skip(0) =~= line@);
        assert(acc@.map_values(|t: String| t@) =~= Seq::<Seq<char>>::empty());
    }
    while i < n
        invariant
            n == line@.len(),
            i <= n,
            has_cur || cur@ == Seq::<char>::empty(),
            in_quotes ==> has_cur,
            spec_tokenize(line@) == spec_tokenize_rec(
                line@.skip(i as int),
                if has_cur {
                    Some(cur@)
                } else {
                    None
                },
                in_quotes,
                acc@.map_values(|t: String| t@),
            ),
        decreases n - i,
    {
        let c = line.get_char(i);
        proof {
            assert(line@.skip(i as int)[0] == line@[i as int]);
            assert(line@.skip(i as int).drop_first() =~= line@.skip(i as int + 1));
        }
        let ghost pre_acc = acc@.map_values(|t: String| t@);
        if in_quotes {
            if c == '"' {
                in_quotes = false;
            } else {
                push_char(&mut cur, c);
            }
        } else {
            if c == ' ' {
                if has_cur {
                    acc.push(cur);
                    cur = String::new();
                    has_cur = false;
                    proof {
                        assert(acc@.map_values(|t: String| t@) =~= pre_acc.push(
                            acc@.last()@,
                        ));
                    }
                }
            } else if c == '"' {
                in_quotes = true;
                has_cur = true;
            } else {
                has_cur = true;
                push_char(&mut cur, c);
            }
        }
        i = i + 1;
    }
    proof {
        assert(line@.skip(n as int) =~= Seq::<char>::empty());
    }
    if in_quotes {
        return Err(CliError::InvalidParameterFormat("quotation".to_owned()));
    }
    if has_cur {
        acc.push(cur);
        proof {
            assert(acc@.map_values(|t: String| t@) =~= acc@.map_values(
                |t: String| t@,
            ).drop_last().push(acc@.last()@));
        }
    }
    Ok(acc)
}

/// Position of the first `=` in a token, or its length when there is none.
pub open spec fn first_eq(t: Seq<char>) -> int
    decreases t.len(),
{
    if t.len() == 0 {
        0
    } else if t[0] == '=' {
        0
    } else {
        1 + first_eq(t.drop_first())
    }
}

/// A `key=value` token.
pub open spec fn is_named(t: Seq<char>) -> bool {
    first_eq(t) < t.len()
}

/// The key of a named token.
pub open spec fn name_of(t: Seq<char>) -> Seq<char> {
    t.subrange(0, first_eq(t))
}

/// The value of a named token.
pub open spec fn value_of(t: Seq<char>) -> Seq<char> {
    t.subrange(first_eq(t) + 1, t.len() as int)
}

proof fn lemma_first_eq(t: Seq<char>, i: int)
    requires
        0 <= i <= t.len(),
        forall|j: int| 0 <= j < i ==> t[j] != '=',
        i == t.len() || t[i] == '=',
    ensures
        first_eq(t) == i,
    decreases t.len(),
{
    if i == 0 {
    } else {
        assert(t[0] != '=');
        lemma_first_eq(t.drop_first(), i - 1);
    }
}

/// Splits a `key=value` token; a token without `=` is positional.
pub fn split_token(t: &str) -> (r: Option<(String, String)>)
    ensures
        match r {
            Some(nv) => is_named(t@) && nv.0@ == name_of(t@) && nv.1@ == value_of(t@),
            None => !is_named(t@),
        },
{
    let n = t.unicode_len();
    let mut i: usize = 0;
    while i < n && t.get_char(i) != '='
        invariant
            n == t@.len(),
            i <= n,
            forall|j: int| 0 <= j < i ==> t@[j] != '=',
        decreases n - i,
    {
        i = i + 1;
    }
    proof {
        lemma_first_eq(t@, i as int);
    }
    if i < n {
        let name = t.substring_char(0, i).to_owned();
        let value = t.substring_char(i + 1, n).to_owned();
        Some((name, value))
    } else {
        None
    }
}

/// Index of the first main parameter of a command, or the list's length.
pub open spec fn main_index(params: Seq<ParamSpecV>) -> int
    decreases params.len(),
{
    if params.len() == 0 {
        0
    } else if params[0].is_main {
        0
    } else {
        1 + main_index(params.drop_first())
    }
}

/// Some parameter of the command carries this name.
pub open spec fn has_param(params: Seq<ParamSpecV>, n: Seq<char>) -> bool {
    exists|i: int| 0 <= i < params.len() && params[i].name == n
}

/// Binding, one token at a time: named tokens bind their key, the first bare
/// token fills the main positional slot, anything else is refused.
pub open spec fn spec_bind_rec(
    params: Seq<ParamSpecV>,
    tokens: Seq<Seq<char>>,
    main_used: bool,
    acc: Seq<(Seq<char>, Seq<char>)>,
) -> Result<Seq<(Seq<char>, Seq<char>)>, ErrView>
    decreases tokens.len(),
{
    if tokens.len() == 0 {
        Ok(acc)
    } else {
        let t = tokens[0];
        let rest = tokens.drop_first();
        if is_named(t) {
            if has_param(params, name_of(t)) {
                spec_bind_rec(params, rest, main_used, acc.insert(0, (name_of(t), value_of(t))))
            } else {
                Err(ErrView::InvalidParameterFormat(name_of(t)))
            }
        } else {
            if !main_used && main_index(params) < params.len() {
                spec_bind_rec(
                    params,
                    rest,
                    true,
                    acc.insert(0, (params[main_index(params)].name, t)),
                )
            } else {
                Err(ErrView::InvalidParameterFormat(t))
            }
        }
    }
}

/// The first declared required parameter that the bindings leave unbound.
pub open spec fn first_missing(
    params: Seq<ParamSpecV>,
    acc: Seq<(Seq<char>, Seq<char>)>,
) -> Option<Seq<char>>
    decreases params.len(),
{
    if params.len() == 0 {
        None
    } else if params[0].required && lookup(acc, params[0].name) is None {
        Some(params[0].name)
    } else {
        first_missing(params.drop_first(), acc)
    }
}

/// What binding the tokens against a command's parameters yields: the
/// bindings, or the first error — an unknown or duplicate positional token,
/// an unknown key, or a required parameter left unbound.
pub open spec fn spec_bind(meta: CommandMetadataV, tokens: Seq<Seq<char>>) -> Result<
    Seq<(Seq<char>, Seq<char>)>,
    ErrView,
> {
    match spec_bind_rec(meta.params, tokens, false, Seq::empty()) {
        Ok(acc) => match first_missing(meta.params, acc) {
            Some(n) => Err(ErrView::MissingParameter(n)),
            None => Ok(acc),
        },
        Err(e) => Err(e),
    }
}

/// Index of the first parameter carrying `name`.
fn find_param(meta: &CommandMetadata, name: &str) -> (r: Option<usize>)
    ensures
        match r {
            Some(i) => i < meta@.params.len() && meta@.params[i as int].name == name@,
            None => !has_param(meta@.params, name@),
        },
{
    let n = meta.params.len();
    let mut i: usize = 0;
    while i < n
        invariant
            n == meta@.params.len(),
            i <= n,
            forall|j: int| 0 <= j < i ==> meta@.params[j].name != name@,
        decreases n - i,
    {
        if str_eq(meta.params[i].name.as_str(), name) {
            return Some(i);
        }
        i = i + 1;
    }
    None
}

/// Index of the first main parameter, or the parameter count.
fn find_main_param(meta: &CommandMetadata) -> (r: usize)
    ensures
        r == main_index(meta@.params),
        r <= meta@.params.len(),
{
    let n = meta.params.len();
    let mut i: usize = 0;
    proof {
        assert(meta@.params.skip(0) =~= meta@.params);
    }
    while i < n
        invariant
            n == meta@.params.len(),
            i <= n,
            main_index(meta@.params) == i + main_index(meta@.params.skip(i as int)),
            forall|j: int| 0 <= j < i ==> !meta@.params[j].is_main,
        decreases n - i,
    {
        proof {
            assert(meta@.params.skip(i as int)[0] == meta@.params[i as int]);
            assert(meta@.params.skip(i as int).drop_first() =~= meta@.params.skip(i as int + 1));
        }
        if meta.params[i].is_main {
            return i;
        }
        i = i + 1;
    }
    proof {
        assert(meta@.params.skip(n as int) =~= Seq::<ParamSpecV>::empty());
    }
    n
}

proof fn lemma_first_missing(
    params: Seq<ParamSpecV>,
    acc: Seq<(Seq<char>, Seq<char>)>,
    i: int,
)
    requires
        0 <= i <= params.len(),
        forall|j: int| 0 <= j < i ==> !(params[j].required && lookup(acc, params[j].name) is None),
        i == params.len() || (params[i].required && lookup(acc, params[i].name) is None),
    ensures
        first_missing(params, acc) == if i == params.len() {
            None::<Seq<char>>
        } else {
            Some(params[i].name)
        },
    decreases params.len(),
{
    if i == 0 {
    } else {
        lemma_first_missing(params.drop_first(), acc, i - 1);
    }
}

/// Binds the tokens after the command path to the command's parameters.
pub fn bind(meta: &CommandMetadata, tokens: &Vec<String>, start: usize) -> (r: Result<
    CommandParams,
    CliError,
>)
    requires
        start <= tokens@.len(),
    ensures
        match r {
            Ok(p) => spec_bind(meta@, tokens@.map_values(|t: String| t@).skip(start as int))
                matches Ok(b) && p.entries_view() == b,
            Err(e) => spec_bind(meta@, tokens@.map_values(|t: String| t@).skip(start as int))
                == Err::<Seq<(Seq<char>, Seq<char>)>, ErrView>(e@),
        },
{
    let ghost toks = tokens@.map_values(|t: String| t@).skip(start as int);
    let mut params = CommandParams::new();
    let mut main_used = false;
    let mut i: usize = start;
    let n = tokens.len();
    proof {
        assert(toks.skip(0) =~= toks);
    }
    while i < n
        invariant
            n == tokens@.len(),
            start <= i <= n,
            toks == tokens@.map_values(|t: String| t@).skip(start as int),
            spec_bind_rec(meta@.params, toks, false, Seq::empty()) == spec_bind_rec(
                meta@.params,
                toks.skip(i - start),
                main_used,
                params.entries_view(),
            ),
        decreases n - i,
    {
        proof {
            assert(toks.skip(i - start)[0] == tokens@.map_values(|t: String| t@)[i as int]);
            assert(toks.skip(i - start).drop_first() =~= toks.skip(i + 1 - start));
        }
        match split_token(tokens[i].as_str()) {
            Some(nv) => {
                if find_param(meta, nv.0.as_str()).is_some() {
                    params.insert(nv.0.as_str(), nv.1);
                } else {
                    return Err(CliError::InvalidParameterFormat(nv.0));
                }
            },
            None => {
                let m = find_main_param(meta);
                if !main_used && m < meta.params.len() {
                    main_used = true;
                    params.insert(meta.params[m].name.as_str(), tokens[i].clone());
                } else {
                    return Err(CliError::InvalidParameterFormat(tokens[i].clone()));
                }
            },
        }
        i = i + 1;
    }
    proof {
        assert(toks.skip(n - start) =~= Seq::<Seq<char>>::empty());
    }
    // every declared required parameter must be bound
    let np = meta.params.len();
    let mut k: usize = 0;
    while k < np
        invariant
            np == meta@.params.len(),
            k <= np,
            forall|j: int|
                0 <= j < k ==> !(meta@.params[j].required && lookup(
                    params.entries_view(),
                    meta@.params[j].name,
                ) is None),
            spec_bind_rec(meta@.params, toks, false, Seq::empty()) == Ok::<
                Seq<(Seq<char>, Seq<char>)>,
                ErrView,
            >(params.entries_view()),
            toks == tokens@.map_values(|t: String| t@).skip(start as int),
        decreases np - k,
    {
        if meta.params[k].required && params.get(meta.params[k].name.as_str()).is_none() {
            proof {
                lemma_first_missing(meta@.params, params.entries_view(), k as int);
            }
            return Err(CliError::MissingParameter(meta.params[k].name.clone()));
        }
        k = k + 1;
    }
    proof {
        lemma_first_missing(meta@.params, params.entries_view(), np as int);
    }
    Ok(params)
}

/// What one executed line reports when it does not fail.
#[derive(Clone, Debug, PartialEq, Eq)]
pub enum LineOutcome {
    /// The line held no token; nothing was done.
    Empty,
    /// The line named a group alone: its command listing is shown instead of
    /// an error.
    GroupHelp(String, Vec<String>),
    /// A command ran to completion.
    Done(CommandOutcome),
}

/// What the registered command of `kind`, run with bindings `b`, does to
/// the session and the service, and what it returns: each arm applies the
/// command's own behaviour predicate, together with the untouched state for
/// commands that read less than the whole session.
pub open spec fn dispatch_post(
    kind: CommandKind,
    pre_ctx: CommandContext,
    pre_sdk: Sdk,
    b: Seq<(Seq<char>, Seq<char>)>,
    post_ctx: CommandContext,
    post_sdk: Sdk,
    r: Result<CommandOutcome, CliError>,
) -> bool {
    match kind {
        CommandKind::PoolCreate => ctx_same_but_status(pre_ctx, post_ctx) && pool::create_post(
            pre_sdk,
            b,
            post_sdk,
            r,
        ),
        CommandKind::PoolConnect => pool::connect_post(pre_ctx, pre_sdk, b, post_ctx, post_sdk, r),
        CommandKind::PoolList => ctx_same_but_status(pre_ctx, post_ctx) && post_sdk == pre_sdk
            && pool::list_post(pre_ctx, pre_sdk, r),
        CommandKind::PoolDisconnect => pool::disconnect_post(
            pre_ctx,
            pre_sdk,
            post_ctx,
            post_sdk,
            r,
        ),
        CommandKind::PoolDelete => ctx_same_but_status(pre_ctx, post_ctx) && pool::delete_post(
            pre_sdk,
            b,
            post_sdk,
            r,
        ),
        CommandKind::DidQualify => qualify::execute_post(pre_ctx, pre_sdk, b, post_ctx, post_sdk, r),
        CommandKind::WalletDetach => ctx_same_but_status(pre_ctx, post_ctx)
            && detach::execute_post(pre_ctx, pre_sdk, b, post_sdk, r),
    }
}

/// Runs the registered command the kind stands for.
fn dispatch(
    kind: CommandKind,
    ctx: &mut CommandContext,
    sdk: &mut Sdk,
    params: &CommandParams,
) -> (r: Result<CommandOutcome, CliError>)
    requires
        old(ctx).wf(),
        old(sdk).wf(),
    ensures
        final(ctx).wf(),
        final(sdk).wf(),
        final(ctx).session_failed() == old(ctx).session_failed(),
        dispatch_post(
            kind,
            *old(ctx),
            *old(sdk),
            params.entries_view(),
            *final(ctx),
            *final(sdk),
            r,
        ),
{
    match kind {
        CommandKind::PoolCreate => pool::CreateCommand::execute(sdk, params),
        CommandKind::PoolConnect => pool::ConnectCommand::execute(ctx, sdk, params),
        CommandKind::PoolList => pool::ListCommand::execute(ctx, sdk, params),
        CommandKind::PoolDisconnect => pool::DisconnectCommand::execute(ctx, sdk, params),
        CommandKind::PoolDelete => pool::DeleteCommand::execute(sdk, params),
        CommandKind::DidQualify => qualify::execute(ctx, sdk, params),
        CommandKind::WalletDetach => detach::execute(ctx, sdk, params),
    }
}

/// Reads one line to completion: tokenize, resolve against the registry,
/// bind parameters, check the declared context requirements, invoke, and
/// record a failure in the session's exit status.  A bare group name shows
/// the group's command listing rather than erroring; an empty line does
/// nothing.
pub fn execute_line(reg: &Registry, ctx: &mut CommandContext, sdk: &mut Sdk, line: &str) -> (r:
    Result<LineOutcome, CliError>)
    requires
        old(ctx).wf(),
        old(sdk).wf(),
    ensures
        final(ctx).wf(),
        final(sdk).wf(),
        final(ctx).session_failed() == (old(ctx).session_failed() || r is Err),
        match spec_tokenize(line@) {
            None => r matches Err(e) && e@ == ErrView::InvalidParameterFormat("quotation"@)
                && *final(sdk) == *old(sdk) && ctx_same_but_status(*old(ctx), *final(ctx)),
            Some(toks) => if toks.len() == 0 {
                r matches Ok(o) && o matches LineOutcome::Empty && *final(sdk) == *old(sdk) && ctx_same_but_status(*old(ctx), *final(ctx))
            } else {
                match reg.spec_group(toks[0]) {
                    None => r matches Err(e) && e@ == ErrView::UnknownCommand(toks[0]) && *final(sdk) == *old(sdk) && ctx_same_but_status(*old(ctx), *final(ctx)),
                    Some(ge) => if toks.len() == 1 {
                        (r matches Ok(o) && o matches LineOutcome::GroupHelp(g, names) && g@
                            == toks[0] && names@.len() == ge.commands@.len() && (forall|j: int|
                            0 <= j < names@.len() ==> names@[j]@
                                == ge.commands@[j].metadata.name@)) && *final(sdk) == *old(sdk) && ctx_same_but_status(*old(ctx), *final(ctx))
                    } else {
                        match spec_find_command(ge.commands@, toks[1]) {
                            None => r matches Err(e) && e@ == ErrView::UnknownCommand(toks[1])
                                && *final(sdk) == *old(sdk) && ctx_same_but_status(*old(ctx), *final(ctx)),
                            Some(entry) => match spec_bind(entry.metadata@, toks.skip(2)) {
                                Err(be) => r matches Err(e) && e@ == be && *final(sdk) == *old(sdk) && ctx_same_but_status(*old(ctx), *final(ctx)),
                                Ok(b) => if entry.metadata@.requires_opened_wallet && old(ctx).opened_wallet() is None {
                                    r matches Err(e) && e@ == ErrView::PreconditionViolated(
                                        ContextRequirement::OpenedWallet,
                                    ) && *final(sdk) == *old(sdk) && ctx_same_but_status(*old(ctx), *final(ctx))
                                } else if entry.metadata@.requires_connected_pool && old(ctx).connected_pool() is None {
                                    r matches Err(e) && e@ == ErrView::PreconditionViolated(
                                        ContextRequirement::ConnectedPool,
                                    ) && *final(sdk) == *old(sdk) && ctx_same_but_status(*old(ctx), *final(ctx))
                                } else {
                                    // the resolved command ran on the bound
                                    // parameters: its behaviour predicate
                                    // relates the result to the session and
                                    // service state it leaves
                                    match r {
                                        Ok(o) => (o matches LineOutcome::Done(oc)
                                            && dispatch_post(
                                            entry.kind,
                                            *old(ctx),
                                            *old(sdk),
                                            b,
                                            *final(ctx),
                                            *final(sdk),
                                            Ok(oc),
                                        )),
                                        Err(e) => dispatch_post(
                                            entry.kind,
                                            *old(ctx),
                                            *old(sdk),
                                            b,
                                            *final(ctx),
                                            *final(sdk),
                                            Err(e),
                                        ),
                                    }
                                },
                            },
                        }
                    },
                }
            },
        },
{
    let tokens = match tokenize(line) {
        Ok(v) => v,
        Err(e) => {
            ctx.set_failed();
            return Err(e);
        },
    };
    if tokens.len() == 0 {
        return Ok(LineOutcome::Empty);
    }
    let ge = match reg.lookup_group(tokens[0].as_str()) {
        Some(ge) => ge,
        None => {
            ctx.set_failed();
            return Err(CliError::UnknownCommand(tokens[0].clone()));
        },
    };
    if tokens.len() == 1 {
        let names = command_names(ge);
        return Ok(LineOutcome::GroupHelp(tokens[0].clone(), names));
    }
    let entry = match reg.lookup(tokens[0].as_str(), tokens[1].as_str()) {
        Some(e) => e,
        None => {
            ctx.set_failed();
            return Err(CliError::UnknownCommand(tokens[1].clone()));
        },
    };
    let params = match bind(&entry.metadata, &tokens, 2) {
        Ok(p) => p,
        Err(e) => {
            ctx.set_failed();
            return Err(e);
        },
    };
    if entry.metadata.requires_opened_wallet && ctx.get_opened_wallet().is_none() {
        ctx.set_failed();
        return Err(CliError::PreconditionViolated(ContextRequirement::OpenedWallet));
    }
    if entry.metadata.requires_connected_pool && ctx.get_connected_pool().is_none() {
        ctx.set_failed();
        return Err(CliError::PreconditionViolated(ContextRequirement::ConnectedPool));
    }
    match dispatch(entry.kind, ctx, sdk, &params) {
        Ok(o) => Ok(LineOutcome::Done(o)),
        Err(e) => {
            ctx.set_failed();
            Err(e)
        },
    }
}

/// Builds the full command table: the `pool` group with its five commands,
/// the `did` group with `qualify`, and the `wallet` group with `detach`.
#[verifier::rlimit(50)]
pub fn build_registry() -> (r: Result<Registry, RegistryError>)
    ensures
        r matches Ok(reg) && ({
            &&& (reg.spec_lookup("pool"@, "create"@) matches Some(e) && e.kind
                == CommandKind::PoolCreate && pool::create_metadata_desc(e.metadata@))
            &&& (reg.spec_lookup("pool"@, "connect"@) matches Some(e) && e.kind
                == CommandKind::PoolConnect && pool::connect_metadata_desc(e.metadata@))
            &&& (reg.spec_lookup("pool"@, "list"@) matches Some(e) && e.kind
                == CommandKind::PoolList && pool::list_metadata_desc(e.metadata@))
            &&& (reg.spec_lookup("pool"@, "disconnect"@) matches Some(e) && e.kind
                == CommandKind::PoolDisconnect && pool::disconnect_metadata_desc(e.metadata@))
            &&& (reg.spec_lookup("pool"@, "delete"@) matches Some(e) && e.kind
                == CommandKind::PoolDelete && pool::delete_metadata_desc(e.metadata@))
            &&& (reg.spec_lookup("did"@, "qualify"@) matches Some(e) && e.kind
                == CommandKind::DidQualify && qualify::metadata_desc(e.metadata@))
            &&& (reg.spec_lookup("wallet"@, "detach"@) matches Some(e) && e.kind
                == CommandKind::WalletDetach && detach::metadata_desc(e.metadata@))
        }),
{
    proof {
        reveal_strlit("pool");
        reveal_strlit("did");
        reveal_strlit("wallet");
        reveal_strlit("create");
        reveal_strlit("connect");
        reveal_strlit("list");
        reveal_strlit("disconnect");
        reveal_strlit("delete");
        reveal_strlit("qualify");
        reveal_strlit("detach");
        assert("pool"@.len() == 4 && "did"@.len() == 3 && "wallet"@.len() == 6);
        assert("create"@.len() == 6 && "connect"@.len() == 7 && "list"@.len() == 4);
        assert("disconnect"@.len() == 10 && "delete"@.len() == 6);
        assert("create"@[0] == 'c' && "delete"@[0] == 'd');
        assert("did"@ != "pool"@ && "wallet"@ != "pool"@ && "wallet"@ != "did"@);
        assert("connect"@ != "create"@);
        assert("list"@ != "create"@ && "list"@ != "connect"@);
        assert("disconnect"@ != "create"@ && "disconnect"@ != "connect"@ && "disconnect"@
            != "list"@);
        assert("delete"@ != "create"@ && "delete"@ != "connect"@ && "delete"@ != "list"@
            && "delete"@ != "disconnect"@);
    }
    let mut reg = Registry::new();
    let pool_group = pool::Group::new();
    let pool_md = pool_group.metadata;
    proof {
        assert(pool_md.name@ == "pool"@);
        assert(reg.spec_group("pool"@) is None);
    }
    let r = reg.add_group(pool_md);
    proof {
        assert(r is Ok);
        assert(reg.spec_group("pool"@) is Some);
        assert(reg.spec_group("did"@) is None);
        assert(reg.spec_group("wallet"@) is None);
        assert(forall|c: Seq<char>| reg.spec_lookup("pool"@, c) is None);
    }
    let create_md = pool::CreateCommand::metadata();
    let r = reg.add_command("pool", create_md, CommandKind::PoolCreate);
    proof {
        assert(r is Ok);
        assert(reg.spec_group("pool"@) is Some);
        assert(reg.spec_group("did"@) is None);
        assert(reg.spec_group("wallet"@) is None);
        assert(reg.spec_lookup("pool"@, "connect"@) is None);
        assert(reg.spec_lookup("pool"@, "list"@) is None);
        assert(reg.spec_lookup("pool"@, "disconnect"@) is None);
        assert(reg.spec_lookup("pool"@, "delete"@) is None);
    }
    let connect_md = pool::ConnectCommand::metadata();
    let r = reg.add_command("pool", connect_md, CommandKind::PoolConnect);
    proof {
        assert(r is Ok);
        assert(reg.spec_group("pool"@) is Some);
        assert(reg.spec_group("did"@) is None);
        assert(reg.spec_group("wallet"@) is None);
        assert(reg.spec_lookup("pool"@, "list"@) is None);
        assert(reg.spec_lookup("pool"@, "disconnect"@) is None);
        assert(reg.spec_lookup("pool"@, "delete"@) is None);
    }
    let list_md = pool::ListCommand::metadata();
    let r = reg.add_command("pool", list_md, CommandKind::PoolList);
    proof {
        assert(r is Ok);
        assert(reg.spec_group("pool"@) is Some);
        assert(reg.spec_group("did"@) is None);
        assert(reg.spec_group("wallet"@) is None);
        assert(reg.spec_lookup("pool"@, "disconnect"@) is None);
        assert(reg.spec_lookup("pool"@, "delete"@) is None);
    }
    let disconnect_md = pool::DisconnectCommand::metadata();
    let r = reg.add_command("pool", disconnect_md, CommandKind::PoolDisconnect);
    proof {
        assert(r is Ok);
        assert(reg.spec_group("pool"@) is Some);
        assert(reg.spec_group("did"@) is None);
        assert(reg.spec_group("wallet"@) is None);
        assert(reg.spec_lookup("pool"@, "delete"@) is None);
    }
    let delete_md = pool::DeleteCommand::metadata();
    let r = reg.add_command("pool", delete_md, CommandKind::PoolDelete);
    proof {
        assert(r is Ok);
        assert(reg.spec_group("did"@) is None);
        assert(reg.spec_group("wallet"@) is None);
    }
    let did_group = GroupMetadata::new("did", "Identifier management commands");
    let r = reg.add_group(did_group);
    proof {
        assert(r is Ok);
        assert(reg.spec_group("did"@) is Some);
        assert(reg.spec_group("wallet"@) is None);
        assert(reg.spec_lookup("did"@, "qualify"@) is None);
    }
    let qualify_md = qualify::metadata();
    let r = reg.add_command("did", qualify_md, CommandKind::DidQualify);
    proof {
        assert(r is Ok);
        assert(reg.spec_group("wallet"@) is None);
    }
    let wallet_group = GroupMetadata::new("wallet", "Wallet management commands");
    let r = reg.add_group(wallet_group);
    proof {
        assert(r is Ok);
        assert(reg.spec_group("wallet"@) is Some);
        assert(reg.spec_lookup("wallet"@, "detach"@) is None);
    }
    let detach_md = detach::metadata();
    let r = reg.add_command("wallet", detach_md, CommandKind::WalletDetach);
    proof {
        assert(r is Ok);
    }
    let _ = r;
    Ok(reg)
}

} // verus!
