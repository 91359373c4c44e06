//! The dynamic completion engine: given a partially typed line and the
//! current session, the ordered candidates for the token being typed.
//! Command-path positions complete against the registry; a parameter value
//! whose specification declares a dynamic completion source completes
//! against the live session data, and an unavailable source (no wallet open,
//! say) yields no candidates rather than an error.  Nothing is cached: every
//! call recomputes from the current state.

use vstd::prelude::*;

use crate::context::CommandContext;
use crate::executor::{
    is_named, main_index, name_of, spec_tokenize, split_token, tokenize, value_of,
};
use crate::metadata::{DynamicCompletionType, ParamSpecV};
use crate::registry::{command_names, spec_find_command, CommandEntry, Registry};
use crate::sdk::Sdk;
use crate::strutil::str_eq;

verus! {

/// `p` is a prefix of `s`.
pub open spec fn starts_with(s: Seq<char>, p: Seq<char>) -> bool {
    p.len() <= s.len() && s.subrange(0, p.len() as int) == p
}

/// The candidates that begin with the typed prefix, in order.
pub open spec fn filter_prefix(cands: Seq<Seq<char>>, p: Seq<char>) -> Seq<Seq<char>> {
    cands.filter(|s: Seq<char>| starts_with(s, p))
}

/// The cursor stands after a space (or on an empty line): a fresh token is
/// being typed, with an empty prefix.
pub open spec fn completing_fresh(line: Seq<char>) -> bool {
    line.len() == 0 || line[line.len() - 1] == ' '
}

/// The names of all registered groups.
pub open spec fn group_name_seq(reg: Registry) -> Seq<Seq<char>> {
    reg.groups@.map_values(|g: crate::registry::GroupEntry| g.metadata.name@)
}

/// The names of the commands of a group.
pub open spec fn command_name_seq(cmds: Seq<CommandEntry>) -> Seq<Seq<char>> {
    cmds.map_values(|c: CommandEntry| c.metadata.name@)
}

/// The DIDs stored in the wallet open under `h`, or nothing when no such
/// session or record exists.
pub open spec fn dids_of_handle(sdk: Sdk, h: u64) -> Seq<Seq<char>> {
    if exists|i: int, k: int|
        0 <= i < sdk.open_wallets().len() && (#[trigger] sdk.open_wallets()[i]).0 == h && 0 <= k
            < sdk.wallets().len() && (#[trigger] sdk.wallets()[k]).0 == sdk.open_wallets()[i].1 {
        let (i, k) = choose|i: int, k: int|
            0 <= i < sdk.open_wallets().len() && (#[trigger] sdk.open_wallets()[i]).0 == h && 0
                <= k < sdk.wallets().len() && (#[trigger] sdk.wallets()[k]).0
                == sdk.open_wallets()[i].1;
        sdk.wallets()[k].1
    } else {
        Seq::empty()
    }
}

/// The live values a completion source offers right now.
pub open spec fn source_values(
    ct: DynamicCompletionType,
    ctx: CommandContext,
    sdk: Sdk,
) -> Seq<Seq<char>> {
    match ct {
        DynamicCompletionType::Pool => sdk.pool_configs().map_values(
            |c: (Seq<char>, Seq<char>)| c.0,
        ),
        DynamicCompletionType::Wallet => sdk.wallets().map_values(
            |w: (Seq<char>, Seq<Seq<char>>)| w.0,
        ),
        DynamicCompletionType::Did => match ctx.opened_wallet() {
            Some(w) => dids_of_handle(sdk, w.1),
            None => Seq::empty(),
        },
    }
}

/// The completion source feeding the token being typed: the named
/// parameter's source for a `key=` token, else the main parameter's.
pub open spec fn token_source(
    params: Seq<ParamSpecV>,
    prefix: Seq<char>,
) -> Option<DynamicCompletionType> {
    if is_named(prefix) {
        match first_param_named(params, name_of(prefix)) {
            Some(p) => p.completion,
            None => None,
        }
    } else {
        if main_index(params) < params.len() {
            params[main_index(params)].completion
        } else {
            None
        }
    }
}

/// The first parameter carrying `n`, if any.
pub open spec fn first_param_named(params: Seq<ParamSpecV>, n: Seq<char>) -> Option<ParamSpecV>
    decreases params.len(),
{
    if params.len() == 0 {
        None
    } else if params[0].name == n {
        Some(params[0])
    } else {
        first_param_named(params.drop_first(), n)
    }
}

/// What `complete` must return for a tokenized line.
pub open spec fn spec_complete(
    reg: Registry,
    ctx: CommandContext,
    sdk: Sdk,
    line: Seq<char>,
) -> Seq<Seq<char>> {
    match spec_tokenize(line) {
        None => Seq::empty(),
        Some(toks) => {
            let fresh = completing_fresh(line);
            let pos: int = if fresh {
                toks.len() as int
            } else {
                toks.len() as int - 1
            };
            let prefix = if fresh {
                Seq::<char>::empty()
            } else {
                toks.last()
            };
            if pos == 0 {
                filter_prefix(group_name_seq(reg), prefix)
            } else if pos == 1 {
                match reg.spec_group(toks[0]) {
                    Some(ge) => filter_prefix(command_name_seq(ge.commands@), prefix),
                    None => Seq::empty(),
                }
            } else {
                match reg.spec_lookup(toks[0], toks[1]) {
                    Some(entry) => match token_source(entry.metadata@.params, prefix) {
                        Some(ct) => if is_named(prefix) {
                            filter_prefix(source_values(ct, ctx, sdk), value_of(prefix))
                        } else {
                            filter_prefix(source_values(ct, ctx, sdk), prefix)
                        },
                        None => Seq::empty(),
                    },
                    None => Seq::empty(),
                }
            }
        },
    }
}

/// Decides whether `p` is a prefix of `s`.
pub fn str_starts_with(s: &str, p: &str) -> (r: bool)
    ensures
        r == starts_with(s@, p@),
{
    let sn = s.unicode_len();
    let pn = p.unicode_len();
    if pn > sn {
        return false;
    }
    let mut i: usize = 0;
    while i < pn
        invariant
            sn == s@.len(),
            pn == p@.len(),
            pn <= sn,
            i <= pn,
            forall|j: int| 0 <= j < i ==> s@[j] == p@[j],
        decreases pn - i,
    {
        if s.get_char(i) != p.get_char(i) {
            proof {
                assert(s@.subrange(0, pn as int)[i as int] == s@[i as int]);
            }
            return false;
        }
        i = i + 1;
    }
    proof {
        assert(s@.subrange(0, pn as int) =~= p@);
    }
    true
}

/// Keeps the candidates that begin with the prefix, in order.
fn filter_by_prefix(cands: &Vec<String>, prefix: &str) -> (r: Vec<String>)
    ensures
        r@.map_values(|s: String| s@) == filter_prefix(
            cands@.map_values(|s: String| s@),
            prefix@,
        ),
{
    let ghost full = cands@.map_values(|s: String| s@);
    let mut out: Vec<String> = Vec::new();
    let n = cands.len();
    let mut i: usize = 0;
    proof {
        assert(full.subrange(0, 0) =~= Seq::<Seq<char>>::empty());
        reveal(Seq::filter);
        assert(out@.map_values(|s: String| s@) =~= filter_prefix(full.subrange(0, 0), prefix@));
    }
    while i < n
        invariant
            n == cands@.len(),
            i <= n,
            full == cands@.map_values(|s: String| s@),
            out@.map_values(|s: String| s@) == filter_prefix(full.subrange(0, i as int), prefix@),
        decreases n - i,
    {
        let ghost pre = out@.map_values(|s: String| s@);
        proof {
            reveal(Seq::filter);
            assert(full.subrange(0, i as int + 1).drop_last() =~= full.subrange(0, i as int));
            assert(full.subrange(0, i as int + 1).last() == full[i as int]);
        }
        if str_starts_with(cands[i].as_str(), prefix) {
            out.push(cands[i].clone());
            proof {
                assert(out@.map_values(|s: String| s@) =~= pre.push(full[i as int]));
            }
        }
        i = i + 1;
    }
    proof {
        assert(full.subrange(0, n as int) =~= full);
    }
    out
}

/// Candidates for the token being typed at the end of `line`, given the
/// current session and service state.
pub fn complete(reg: &Registry, ctx: &CommandContext, sdk: &Sdk, line: &str) -> (r: Vec<String>)
    requires
        sdk.wf(),
    ensures
        r@.map_values(|s: String| s@) == spec_complete(*reg, *ctx, *sdk, line@),
{
    let empty_out: Vec<String> = Vec::new();
    proof {
        assert(empty_out@.map_values(|s: String| s@) =~= Seq::<Seq<char>>::empty());
    }
    let tokens = match tokenize(line) {
        Ok(v) => v,
        Err(_) => {
            return empty_out;
        },
    };
    let n = line.unicode_len();
    let fresh = n == 0 || line.get_char(n - 1) == ' ';
    let mut prefix = String::new();
    if !fresh {
        proof {
            assert(tokens@.map_values(|t: String| t@).len() > 0) by {
                lemma_tokenize_nonempty(line@);
            }
        }
        prefix = tokens[tokens.len() - 1].clone();
        proof {
            assert(tokens@.map_values(|t: String| t@).last() == tokens@.last()@);
        }
    }
    let pos = if fresh {
        tokens.len()
    } else {
        tokens.len() - 1
    };
    if pos == 0 {
        let names = reg.group_names();
        proof {
            assert(names@.map_values(|s: String| s@) =~= group_name_seq(*reg));
        }
        return filter_by_prefix(&names, prefix.as_str());
    }
    if pos == 1 {
        match reg.lookup_group(tokens[0].as_str()) {
            Some(ge) => {
                let names = command_names(ge);
                proof {
                    assert(names@.map_values(|s: String| s@) =~= command_name_seq(ge.commands@));
                }
                return filter_by_prefix(&names, prefix.as_str());
            },
            None => {
                return empty_out;
            },
        }
    }
    let entry = match reg.lookup(tokens[0].as_str(), tokens[1].as_str()) {
        Some(e) => e,
        None => {
            return empty_out;
        },
    };
    match split_token(prefix.as_str()) {
        Some(nv) => {
            match find_param_spec(&entry.metadata.params, nv.0.as_str()) {
                Some(ct) => {
                    let values = source(ct, ctx, sdk);
                    filter_by_prefix(&values, nv.1.as_str())
                },
                None => empty_out,
            }
        },
        None => {
            let m = main_completion(&entry.metadata.params);
            match m {
                Some(ct) => {
                    let values = source(ct, ctx, sdk);
                    filter_by_prefix(&values, prefix.as_str())
                },
                None => empty_out,
            }
        },
    }
}

/// A tokenized non-fresh line yields at least one token.
proof fn lemma_tokenize_nonempty(line: Seq<char>)
    requires
        line.len() > 0,
        line[line.len() - 1] != ' ',
        spec_tokenize(line) is Some,
    ensures
        spec_tokenize(line)->0.len() > 0,
{
    lemma_tokenize_rec_nonempty(line, None, false, Seq::empty());
}

proof fn lemma_tokenize_rec_nonempty(
    s: Seq<char>,
    cur: Option<Seq<char>>,
    in_quotes: bool,
    acc: Seq<Seq<char>>,
)
    requires
        s.len() > 0 ==> s[s.len() - 1] != ' ',
        s.len() > 0 || cur is Some || acc.len() > 0,
        crate::executor::spec_tokenize_rec(s, cur, in_quotes, acc) is Some,
    ensures
        crate::executor::spec_tokenize_rec(s, cur, in_quotes, acc)->0.len() > 0,
    decreases s.len(),
{
    if s.len() == 0 {
    } else {
        let rest = s.drop_first();
        if rest.len() > 0 {
            assert(rest[rest.len() - 1] == s[s.len() - 1]);
        }
        let c = s[0];
        if in_quotes {
            if c == '"' {
                lemma_tokenize_rec_nonempty(rest, Some(cur_or_empty(cur)), false, acc);
            } else {
                lemma_tokenize_rec_nonempty(rest, Some(cur_or_empty(cur).push(c)), true, acc);
            }
        } else {
            if c == ' ' {
                assert(s.len() > 1);
                match cur {
                    Some(t0) => lemma_tokenize_rec_nonempty(rest, None, false, acc.push(t0)),
                    None => lemma_tokenize_rec_nonempty(rest, None, false, acc),
                }
            } else if c == '"' {
                lemma_tokenize_rec_nonempty(rest, Some(cur_or_empty(cur)), true, acc);
            } else {
                lemma_tokenize_rec_nonempty(rest, Some(cur_or_empty(cur).push(c)), false, acc);
            }
        }
    }
}

spec fn cur_or_empty(cur: Option<Seq<char>>) -> Seq<char> {
    match cur {
        Some(t) => t,
        None => Seq::empty(),
    }
}

/// The completion source of the first parameter carrying `name`.
fn find_param_spec(
    params: &Vec<crate::metadata::ParamSpec>,
    name: &str,
) -> (r: Option<DynamicCompletionType>)
    ensures
        r == match first_param_named(params@.map_values(|p: crate::metadata::ParamSpec| p@), name@) {
            Some(p) => p.completion,
            None => None::<DynamicCompletionType>,
        },
{
    let ghost pv = params@.map_values(|p: crate::metadata::ParamSpec| p@);
    let n = params.len();
    let mut i: usize = 0;
    proof {
        assert(pv.skip(0) =~= pv);
    }
    while i < n
        invariant
            n == params@.len(),
            pv == params@.map_values(|p: crate::metadata::ParamSpec| p@),
            i <= n,
            first_param_named(pv, name@) == first_param_named(pv.skip(i as int), name@),
        decreases n - i,
    {
        proof {
            assert(pv.skip(i as int)[0] == pv[i as int]);
            assert(pv.skip(i as int).drop_first() =~= pv.skip(i as int + 1));
        }
        if str_eq(params[i].name.as_str(), name) {
            return params[i].completion;
        }
        i = i + 1;
    }
    proof {
        assert(pv.skip(n as int) =~= Seq::<ParamSpecV>::empty());
    }
    None
}

/// The completion source of the main parameter, if it declares one.
fn main_completion(params: &Vec<crate::metadata::ParamSpec>) -> (r: Option<DynamicCompletionType>)
    ensures
        r == ({
            let pv = params@.map_values(|p: crate::metadata::ParamSpec| p@);
            if main_index(pv) < pv.len() {
                pv[main_index(pv)].completion
            } else {
                None::<DynamicCompletionType>
            }
        }),
{
    let ghost pv = params@.map_values(|p: crate::metadata::ParamSpec| p@);
    let n = params.len();
    let mut i: usize = 0;
    proof {
        assert(pv.skip(0) =~= pv);
    }
    while i < n
        invariant
            n == params@.len(),
            pv == params@.map_values(|p: crate::metadata::ParamSpec| p@),
            i <= n,
            main_index(pv) == i + main_index(pv.skip(i as int)),
            forall|j: int| 0 <= j < i ==> !pv[j].is_main,
        decreases n - i,
    {
        proof {
            assert(pv.skip(i as int)[0] == pv[i as int]);
            assert(pv.skip(i as int).drop_first() =~= pv.skip(i as int + 1));
        }
        if params[i].is_main {
            return params[i].completion;
        }
        i = i + 1;
    }
    proof {
        assert(pv.skip(n as int) =~= Seq::<ParamSpecV>::empty());
    }
    None
}

/// The live values of one completion source.
fn source(ct: DynamicCompletionType, ctx: &CommandContext, sdk: &Sdk) -> (r: Vec<String>)
    requires
        sdk.wf(),
    ensures
        r@.map_values(|s: String| s@) == source_values(ct, *ctx, *sdk),
{
    match ct {
        DynamicCompletionType::Pool => {
            let out = match sdk.pool_list() {
                Ok(v) => v,
                Err(_) => Vec::new(),
            };
            proof {
                assert(out@.map_values(|s: String| s@) =~= sdk.pool_configs().map_values(
                    |c: (Seq<char>, Seq<char>)| c.0,
                ));
            }
            out
        },
        DynamicCompletionType::Wallet => {
            let out = sdk.wallet_list();
            proof {
                assert(out@.map_values(|s: String| s@) =~= sdk.wallets().map_values(
                    |w: (Seq<char>, Seq<Seq<char>>)| w.0,
                ));
            }
            out
        },
        DynamicCompletionType::Did => {
            match ctx.get_opened_wallet() {
                Some(w) => {
                    match sdk.did_list(w.1) {
                        Ok(v) => {
                            proof {
                                let (n2, k2) = choose|n2: Seq<char>, k2: int|
                                    sdk.open_wallet_has(w.1, n2) && 0 <= k2 < sdk.wallets().len()
                                        && sdk.wallets()[k2].0 == n2 && v@.len()
                                        == sdk.wallets()[k2].1.len() && (forall|j: int|
                                        0 <= j < v@.len() ==> v@[j]@ == sdk.wallets()[k2].1[j]);
                                let i2 = choose|i: int|
                                    0 <= i < sdk.open_wallets().len() && sdk.open_wallets()[i]
                                        == (w.1, n2);
                                let (ic, kc) = choose|i: int, k: int|
                                    0 <= i < sdk.open_wallets().len() && (
                                    #[trigger] sdk.open_wallets()[i]).0 == w.1 && 0 <= k
                                        < sdk.wallets().len() && (#[trigger] sdk.wallets()[k]).0
                                        == sdk.open_wallets()[i].1;
                                assert(ic == i2);
                                assert(kc == k2);
                                assert(v@.map_values(|s: String| s@) =~= dids_of_handle(
                                    *sdk,
                                    w.1,
                                ));
                            }
                            v
                        },
                        Err(_) => {
                            let out: Vec<String> = Vec::new();
                            proof {
                                assert(out@.map_values(|s: String| s@) =~= Seq::<Seq<char>>::empty());
                                assert(dids_of_handle(*sdk, w.1) =~= Seq::<Seq<char>>::empty());
                            }
                            out
                        },
                    }
                },
                None => {
                    let out: Vec<String> = Vec::new();
                    proof {
                        assert(out@.map_values(|s: String| s@) =~= Seq::<Seq<char>>::empty());
                    }
                    out
                },
            }
        },
    }
}

} // verus!
