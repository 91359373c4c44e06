//! Structured command outcomes and their uniform textual rendering.
//! A handler computes a structured outcome or error; turning it into the one
//! terminal line the shell prints is a separate step, done here.

use vstd::prelude::*;

use crate::error::{CliError, ContextRequirement, ErrView, SdkError};

verus! {

/// What a successfully executed command reports.
#[derive(Clone, Debug, PartialEq, Eq)]
pub enum CommandOutcome {
    /// A pool configuration was created under this name.
    PoolConfigCreated(String),
    /// This pool is now connected; the second field names the pool that had
    /// to be disconnected first, if one was.
    PoolConnected(String, Option<String>),
    /// This pool was disconnected.
    PoolDisconnected(String),
    /// This pool configuration was deleted.
    PoolDeleted(String),
    /// The existing pool configurations, and the currently connected pool.
    PoolList(Vec<String>, Option<String>),
    /// A DID was rewritten to its fully qualified form; the flag says
    /// whether the session's active DID was updated along with it.
    DidQualified(String, bool),
    /// This wallet was detached.
    WalletDetached(String),
}

/// Spec-level image of `CommandOutcome`.
pub enum OutcomeView {
    PoolConfigCreated(Seq<char>),
    PoolConnected(Seq<char>, Option<Seq<char>>),
    PoolDisconnected(Seq<char>),
    PoolDeleted(Seq<char>),
    PoolList(Seq<Seq<char>>, Option<Seq<char>>),
    DidQualified(Seq<char>, bool),
    WalletDetached(Seq<char>),
}

impl View for CommandOutcome {
    type V = OutcomeView;

    open spec fn view(&self) -> OutcomeView {
        match self {
            CommandOutcome::PoolConfigCreated(n) => OutcomeView::PoolConfigCreated(n@),
            CommandOutcome::PoolConnected(n, d) => OutcomeView::PoolConnected(
                n@,
                match d {
                    Some(p) => Some(p@),
                    None => None,
                },
            ),
            CommandOutcome::PoolDisconnected(n) => OutcomeView::PoolDisconnected(n@),
            CommandOutcome::PoolDeleted(n) => OutcomeView::PoolDeleted(n@),
            CommandOutcome::PoolList(ns, cur) => OutcomeView::PoolList(
                ns@.map_values(|s: String| s@),
                match cur {
                    Some(p) => Some(p@),
                    None => None,
                },
            ),
            CommandOutcome::DidQualified(d, u) => OutcomeView::DidQualified(d@, *u),
            CommandOutcome::WalletDetached(n) => OutcomeView::WalletDetached(n@),
        }
    }
}

/// Three pieces around one name: `before name after`.
pub open spec fn framed(before: Seq<char>, name: Seq<char>, after: Seq<char>) -> Seq<char> {
    before + name + after
}

/// The names, each followed by a line break, in order.
pub open spec fn joined_lines(ns: Seq<Seq<char>>) -> Seq<char>
    decreases ns.len(),
{
    if ns.len() == 0 {
        Seq::empty()
    } else {
        joined_lines(ns.drop_last()) + ns.last() + "\n"@
    }
}

fn frame(before: &str, name: &str, after: &str) -> (r: String)
    ensures
        r@ == framed(before@, name@, after@),
{
    String::from_str(before).concat(name).concat(after)
}

/// The single terminal success line of an executed command.
pub fn success_message(o: &CommandOutcome) -> (r: String)
    ensures
        match o@ {
            OutcomeView::PoolConfigCreated(n) => r@ == framed(
                "Pool config \""@,
                n,
                "\" has been created"@,
            ),
            OutcomeView::PoolConnected(n, _) => r@ == framed(
                "Pool \""@,
                n,
                "\" has been connected"@,
            ),
            OutcomeView::PoolDisconnected(n) => r@ == framed(
                "Pool \""@,
                n,
                "\" has been disconnected"@,
            ),
            OutcomeView::PoolDeleted(n) => r@ == framed("Pool \""@, n, "\" has been deleted"@),
            OutcomeView::PoolList(ns, cur) => if ns.len() == 0 {
                r@ == "There are no pool"@
            } else {
                r@ == joined_lines(ns) + (match cur {
                    Some(c) => framed("Current pool \""@, c, "\""@),
                    None => Seq::<char>::empty(),
                })
            },
            OutcomeView::DidQualified(d, _) => r@ == framed(
                "Fully qualified DID \""@,
                d,
                "\""@,
            ),
            OutcomeView::WalletDetached(n) => r@ == framed(
                "Wallet \""@,
                n,
                "\" has been detached"@,
            ),
        },
{
    match o {
        CommandOutcome::PoolConfigCreated(n) => frame(
            "Pool config \"",
            n.as_str(),
            "\" has been created",
        ),
        CommandOutcome::PoolConnected(n, _) => frame("Pool \"", n.as_str(), "\" has been connected"),
        CommandOutcome::PoolDisconnected(n) => frame(
            "Pool \"",
            n.as_str(),
            "\" has been disconnected",
        ),
        CommandOutcome::PoolDeleted(n) => frame("Pool \"", n.as_str(), "\" has been deleted"),
        CommandOutcome::PoolList(ns, cur) => {
            if ns.len() == 0 {
                return String::from_str("There are no pool");
            }
            let ghost full = ns@.map_values(|x: String| x@);
            let mut s = String::new();
            let mut i: usize = 0;
            let n = ns.len();
            proof {
                assert(full.subrange(0, 0) =~= Seq::<Seq<char>>::empty());
                assert(s@ =~= joined_lines(full.subrange(0, 0)));
            }
            while i < n
                invariant
                    n == ns@.len(),
                    full == ns@.map_values(|x: String| x@),
                    i <= n,
                    s@ == joined_lines(full.subrange(0, i as int)),
                decreases n - i,
            {
                proof {
                    assert(full.subrange(0, i as int + 1).drop_last() =~= full.subrange(
                        0,
                        i as int,
                    ));
                    assert(full.subrange(0, i as int + 1).last() == full[i as int]);
                }
                s.append(ns[i].as_str());
                s.append("\n");
                proof {
                    assert(s@ =~= joined_lines(full.subrange(0, i as int + 1)));
                }
                i = i + 1;
            }
            proof {
                assert(full.subrange(0, n as int) =~= full);
            }
            match cur {
                Some(c) => {
                    let tail = frame("Current pool \"", c.as_str(), "\"");
                    s.concat(tail.as_str())
                },
                None => s,
            }
        },
        CommandOutcome::DidQualified(d, _) => frame("Fully qualified DID \"", d.as_str(), "\""),
        CommandOutcome::WalletDetached(n) => frame("Wallet \"", n.as_str(), "\" has been detached"),
    }
}

/// The single terminal error line of a failed command.
pub fn error_message(e: &CliError) -> (r: String)
    ensures
        match e@ {
            ErrView::MissingParameter(n) => r@ == framed(
                "Missing required parameter \""@,
                n,
                "\""@,
            ),
            ErrView::InvalidParameterFormat(n) => r@ == framed(
                "Invalid format of parameter \""@,
                n,
                "\""@,
            ),
            ErrView::UnknownCommand(n) => r@ == framed("Unknown command \""@, n, "\""@),
            ErrView::PreconditionViolated(c) => match c {
                ContextRequirement::OpenedWallet => r@ == "There is no opened wallet now"@,
                ContextRequirement::ConnectedPool => r@ == "There is no connected pool now"@,
                ContextRequirement::WalletClosed => r@ == "Wallet is opened"@,
            },
            ErrView::AlreadyExists(n) => r@ == framed("Pool config \""@, n, "\" already exists"@),
            ErrView::NothingToOperateOn => r@ == "There is nothing to do"@,
            ErrView::ExternalSdkError(_) => r@ == "Indy SDK error occurred"@,
        },
{
    match e {
        CliError::MissingParameter(n) => frame("Missing required parameter \"", n.as_str(), "\""),
        CliError::InvalidParameterFormat(n) => frame(
            "Invalid format of parameter \"",
            n.as_str(),
            "\"",
        ),
        CliError::UnknownCommand(n) => frame("Unknown command \"", n.as_str(), "\""),
        CliError::PreconditionViolated(c) => match c {
            ContextRequirement::OpenedWallet => String::from_str("There is no opened wallet now"),
            ContextRequirement::ConnectedPool => String::from_str("There is no connected pool now"),
            ContextRequirement::WalletClosed => String::from_str("Wallet is opened"),
        },
        CliError::AlreadyExists(n) => frame("Pool config \"", n.as_str(), "\" already exists"),
        CliError::NothingToOperateOn => String::from_str("There is nothing to do"),
        CliError::ExternalSdkError(_) => String::from_str("Indy SDK error occurred"),
    }
}

} // verus!
