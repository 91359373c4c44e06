//! The interactive session state: at most one open wallet, at most one
//! connected pool, at most one active DID, and a stack of prompt segments,
//! one slot per nested scope, keyed by nesting depth.

use vstd::prelude::*;

use crate::error::{CliError, ContextRequirement, ErrView};

verus! {

/// The position at which depth `d` lives (or would be inserted) in a
/// depth-sorted prompt stack.
pub open spec fn prompt_pos(s: Seq<(u64, Seq<char>)>, d: u64) -> int
    decreases s.len(),
{
    if s.len() == 0 {
        0
    } else if s[0].0 >= d {
        0
    } else {
        1 + prompt_pos(s.drop_first(), d)
    }
}

/// The prompt stack is strictly sorted by depth, so each depth has one slot.
pub open spec fn prompts_sorted(s: Seq<(u64, Seq<char>)>) -> bool {
    forall|i: int, j: int| 0 <= i < j < s.len() ==> s[i].0 < s[j].0
}

/// Some slot of the stack carries depth `d`.
pub open spec fn prompt_has(s: Seq<(u64, Seq<char>)>, d: u64) -> bool {
    exists|i: int| 0 <= i < s.len() && s[i].0 == d
}

/// The stack after setting the segment of depth `d` to `t`.
pub open spec fn prompt_set(s: Seq<(u64, Seq<char>)>, d: u64, t: Seq<char>) -> Seq<
    (u64, Seq<char>),
> {
    let p = prompt_pos(s, d);
    if p < s.len() && s[p].0 == d {
        s.update(p, (d, t))
    } else {
        s.insert(p, (d, t))
    }
}

/// The stack after clearing the segment of depth `d` (a no-op when absent).
pub open spec fn prompt_unset(s: Seq<(u64, Seq<char>)>, d: u64) -> Seq<(u64, Seq<char>)> {
    let p = prompt_pos(s, d);
    if p < s.len() && s[p].0 == d {
        s.remove(p)
    } else {
        s
    }
}

/// `prompt_pos` is pinned by the usual sorted-insertion characterisation.
proof fn lemma_prompt_pos(s: Seq<(u64, Seq<char>)>, d: u64, i: int)
    requires
        0 <= i <= s.len(),
        forall|j: int| 0 <= j < i ==> s[j].0 < d,
        i == s.len() || s[i].0 >= d,
    ensures
        prompt_pos(s, d) == i,
    decreases s.len(),
{
    if i == 0 {
    } else {
        assert(s[0].0 < d);
        lemma_prompt_pos(s.drop_first(), d, i - 1);
    }
}

/// Setting a fresh depth and clearing it again restores the prompt stack
/// exactly; hence any number of matched set/unset pairs at fresh depths
/// returns the stack, and in particular its depth, to its prior state.
pub proof fn lemma_prompt_set_unset(s: Seq<(u64, Seq<char>)>, d: u64, t: Seq<char>)
    requires
        prompts_sorted(s),
        !prompt_has(s, d),
    ensures
        prompt_unset(prompt_set(s, d, t), d) == s,
        prompt_set(s, d, t).len() == s.len() + 1,
        prompts_sorted(prompt_set(s, d, t)),
{
    let p = prompt_pos(s, d);
    lemma_prompt_pos_in_range(s, d);
    assert(!(p < s.len() && s[p].0 == d));
    let s2 = s.insert(p, (d, t));
    assert forall|j: int| 0 <= j < p implies s2[j].0 < d by {
        assert(s2[j] == s[j]);
    }
    assert(s2[p].0 == d);
    lemma_prompt_pos(s2, d, p);
    assert(prompt_unset(s2, d) =~= s);
    assert forall|i: int, j: int| 0 <= i < j < s2.len() implies s2[i].0 < s2[j].0 by {
        assert(forall|k: int| 0 <= k < s.len() ==> s[k].0 != d);
        if i < p && j == p {
        } else if i == p && j > p {
            assert(s2[j] == s[j - 1]);
            assert(s[j - 1].0 >= d && s[j - 1].0 != d);
        } else if i < p && j > p {
            assert(s2[i] == s[i] && s2[j] == s[j - 1]);
            assert(s[i].0 < d && s[j - 1].0 >= d);
        } else {
        }
    }
}

/// `prompt_pos` lands in range, before depths `>= d` and after depths `< d`.
proof fn lemma_prompt_pos_in_range(s: Seq<(u64, Seq<char>)>, d: u64)
    requires
        prompts_sorted(s),
    ensures
        0 <= prompt_pos(s, d) <= s.len(),
        forall|j: int| 0 <= j < prompt_pos(s, d) ==> s[j].0 < d,
        prompt_pos(s, d) == s.len() || s[prompt_pos(s, d)].0 >= d,
    decreases s.len(),
{
    if s.len() == 0 || s[0].0 >= d {
    } else {
        lemma_prompt_pos_in_range(s.drop_first(), d);
        let p = prompt_pos(s, d);
        assert forall|j: int| 0 <= j < p implies s[j].0 < d by {
            if j > 0 {
                assert(s.drop_first()[j - 1] == s[j]);
            }
        }
        if p < s.len() {
            assert(s.drop_first()[p - 1] == s[p]);
        }
    }
}

/// Everything of the session state but the exit status is the same.
pub open spec fn ctx_same_but_status(a: CommandContext, b: CommandContext) -> bool {
    b.opened_wallet() == a.opened_wallet() && b.connected_pool() == a.connected_pool()
        && b.active_did() == a.active_did() && b.sub_prompts() == a.sub_prompts()
}

/// The session state of the interactive shell; exactly one instance exists
/// per running session, and only command invocations mutate it.
pub struct CommandContext {
    wallet_state: Option<(String, u64)>,
    pool_state: Option<(String, u64)>,
    did_state: Option<String>,
    prompts: Vec<(u64, String)>,
    failed: bool,
}

impl CommandContext {
    /// Name and handle of the open wallet, if one is open.
    pub closed spec fn opened_wallet(self) -> Option<(Seq<char>, u64)> {
        match self.wallet_state {
            Some(w) => Some((w.0@, w.1)),
            None => None,
        }
    }

    /// Name and handle of the connected pool, if one is connected.
    pub closed spec fn connected_pool(self) -> Option<(Seq<char>, u64)> {
        match self.pool_state {
            Some(p) => Some((p.0@, p.1)),
            None => None,
        }
    }

    /// The active DID, if one was set.
    pub closed spec fn active_did(self) -> Option<Seq<char>> {
        match self.did_state {
            Some(d) => Some(d@),
            None => None,
        }
    }

    /// The prompt stack, one slot per nested scope, keyed by depth.
    pub closed spec fn sub_prompts(self) -> Seq<(u64, Seq<char>)> {
        self.prompts@.map_values(|e: (u64, String)| (e.0, e.1@))
    }

    /// The number of active nested scopes.
    pub open spec fn prompt_depth(self) -> nat {
        self.sub_prompts().len()
    }

    /// Whether depth `d` currently carries a prompt segment.
    pub open spec fn has_sub_prompt(self, d: u64) -> bool {
        prompt_has(self.sub_prompts(), d)
    }

    /// Whether any command of this session has failed.
    pub closed spec fn session_failed(self) -> bool {
        self.failed
    }

    /// The prompt stack is strictly sorted by depth.
    pub open spec fn wf(self) -> bool {
        prompts_sorted(self.sub_prompts())
    }

    /// A fresh session: nothing open, nothing connected, no active DID,
    /// an empty prompt stack and a clean exit status.
    pub fn new() -> (r: CommandContext)
        ensures
            r.opened_wallet() is None,
            r.connected_pool() is None,
            r.active_did() is None,
            r.prompt_depth() == 0,
            !r.session_failed(),
            r.wf(),
    {
        CommandContext {
            wallet_state: None,
            pool_state: None,
            did_state: None,
            prompts: Vec::new(),
            failed: false,
        }
    }

    /// Guarded accessor: the open wallet, or a precondition failure when no
    /// wallet is open.  Succeeds exactly when a wallet is open.
    pub fn ensure_opened_wallet(&self) -> (r: Result<(String, u64), CliError>)
        ensures
            match r {
                Ok(w) => self.opened_wallet() == Some((w.0@, w.1)),
                Err(e) => self.opened_wallet() is None
                    && e@ == ErrView::PreconditionViolated(ContextRequirement::OpenedWallet),
            },
    {
        match &self.wallet_state {
            Some(w) => Ok((w.0.clone(), w.1)),
            None => Err(CliError::PreconditionViolated(ContextRequirement::OpenedWallet)),
        }
    }

    /// Guarded accessor: the connected pool, or a precondition failure when
    /// no pool is connected.  Succeeds exactly when a pool is connected.
    pub fn ensure_connected_pool(&self) -> (r: Result<(String, u64), CliError>)
        ensures
            match r {
                Ok(p) => self.connected_pool() == Some((p.0@, p.1)),
                Err(e) => self.connected_pool() is None
                    && e@ == ErrView::PreconditionViolated(ContextRequirement::ConnectedPool),
            },
    {
        match &self.pool_state {
            Some(p) => Ok((p.0.clone(), p.1)),
            None => Err(CliError::PreconditionViolated(ContextRequirement::ConnectedPool)),
        }
    }

    pub fn get_opened_wallet(&self) -> (r: Option<(String, u64)>)
        ensures
            match r {
                Some(w) => self.opened_wallet() == Some((w.0@, w.1)),
                None => self.opened_wallet() is None,
            },
    {
        match &self.wallet_state {
            Some(w) => Some((w.0.clone(), w.1)),
            None => None,
        }
    }

    pub fn get_connected_pool(&self) -> (r: Option<(String, u64)>)
        ensures
            match r {
                Some(p) => self.connected_pool() == Some((p.0@, p.1)),
                None => self.connected_pool() is None,
            },
    {
        match &self.pool_state {
            Some(p) => Some((p.0.clone(), p.1)),
            None => None,
        }
    }

    pub fn get_connected_pool_name(&self) -> (r: Option<String>)
        ensures
            match r {
                Some(n) => self.connected_pool() matches Some(p) && p.0 == n@,
                None => self.connected_pool() is None,
            },
    {
        match &self.pool_state {
            Some(p) => Some(p.0.clone()),
            None => None,
        }
    }

    pub fn get_active_did(&self) -> (r: Option<String>)
        ensures
            match r {
                Some(d) => self.active_did() == Some(d@),
                None => self.active_did() is None,
            },
    {
        match &self.did_state {
            Some(d) => Some(d.clone()),
            None => None,
        }
    }

    pub fn set_opened_wallet(&mut self, name: String, handle: u64)
        ensures
            final(self).opened_wallet() == Some((name@, handle)),
            final(self).connected_pool() == old(self).connected_pool(),
            final(self).active_did() == old(self).active_did(),
            final(self).sub_prompts() == old(self).sub_prompts(),
            final(self).session_failed() == old(self).session_failed(),
    {
        self.wallet_state = Some((name, handle));
    }

    pub fn unset_opened_wallet(&mut self)
        ensures
            final(self).opened_wallet() is None,
            final(self).connected_pool() == old(self).connected_pool(),
            final(self).active_did() == old(self).active_did(),
            final(self).sub_prompts() == old(self).sub_prompts(),
            final(self).session_failed() == old(self).session_failed(),
    {
        self.wallet_state = None;
    }

    pub fn set_connected_pool(&mut self, name: String, handle: u64)
        ensures
            final(self).connected_pool() == Some((name@, handle)),
            final(self).opened_wallet() == old(self).opened_wallet(),
            final(self).active_did() == old(self).active_did(),
            final(self).sub_prompts() == old(self).sub_prompts(),
            final(self).session_failed() == old(self).session_failed(),
    {
        self.pool_state = Some((name, handle));
    }

    pub fn unset_connected_pool(&mut self)
        ensures
            final(self).connected_pool() is None,
            final(self).opened_wallet() == old(self).opened_wallet(),
            final(self).active_did() == old(self).active_did(),
            final(self).sub_prompts() == old(self).sub_prompts(),
            final(self).session_failed() == old(self).session_failed(),
    {
        self.pool_state = None;
    }

    pub fn set_active_did(&mut self, did: String)
        ensures
            final(self).active_did() == Some(did@),
            final(self).opened_wallet() == old(self).opened_wallet(),
            final(self).connected_pool() == old(self).connected_pool(),
            final(self).sub_prompts() == old(self).sub_prompts(),
            final(self).session_failed() == old(self).session_failed(),
    {
        self.did_state = Some(did);
    }

    pub fn set_failed(&mut self)
        ensures
            final(self).session_failed(),
            final(self).opened_wallet() == old(self).opened_wallet(),
            final(self).connected_pool() == old(self).connected_pool(),
            final(self).active_did() == old(self).active_did(),
            final(self).sub_prompts() == old(self).sub_prompts(),
    {
        self.failed = true;
    }

    pub fn is_session_failed(&self) -> (r: bool)
        ensures
            r == self.session_failed(),
    {
        self.failed
    }

    pub fn get_prompt_depth(&self) -> (r: usize)
        ensures
            r == self.prompt_depth(),
    {
        self.prompts.len()
    }

    /// Finds the slot of `depth` in the sorted stack.
    fn find_prompt_pos(&self, depth: u64) -> (r: usize)
        requires
            self.wf(),
        ensures
            r == prompt_pos(self.sub_prompts(), depth),
            r <= self.sub_prompts().len(),
    {
        let n = self.prompts.len();
        let mut i: usize = 0;
        while i < n && self.prompts[i].0 < depth
            invariant
                n == self.prompts.len(),
                i <= n,
                forall|j: int| 0 <= j < i ==> self.sub_prompts()[j].0 < depth,
            decreases n - i,
        {
            i = i + 1;
        }
        proof {
            lemma_prompt_pos(self.sub_prompts(), depth, i as int);
        }
        i
    }

    /// Sets the prompt segment at the given nesting depth, replacing a
    /// segment already there.
    pub fn set_sub_prompt(&mut self, depth: u64, text: String)
        requires
            old(self).wf(),
        ensures
            final(self).wf(),
            final(self).sub_prompts() == prompt_set(old(self).sub_prompts(), depth, text@),
            final(self).has_sub_prompt(depth),
            final(self).opened_wallet() == old(self).opened_wallet(),
            final(self).connected_pool() == old(self).connected_pool(),
            final(self).active_did() == old(self).active_did(),
            final(self).session_failed() == old(self).session_failed(),
    {
        let ghost old_view = self.sub_prompts();
        let p = self.find_prompt_pos(depth);
        proof {
            lemma_prompt_pos_in_range(old_view, depth);
        }
        if p < self.prompts.len() && self.prompts[p].0 == depth {
            self.prompts.remove(p);
            self.prompts.insert(p, (depth, text));
            proof {
                assert(self.sub_prompts() =~= old_view.update(p as int, (depth, text@)));
                assert forall|i: int, j: int|
                    0 <= i < j < self.sub_prompts().len()
                    implies self.sub_prompts()[i].0 < self.sub_prompts()[j].0 by {
                    assert(self.sub_prompts()[i].0 == old_view[i].0);
                    assert(self.sub_prompts()[j].0 == old_view[j].0);
                }
                assert(self.sub_prompts()[p as int].0 == depth);
            }
        } else {
            self.prompts.insert(p, (depth, text));
            proof {
                assert(self.sub_prompts() =~= old_view.insert(p as int, (depth, text@)));
                let s2 = self.sub_prompts();
                assert forall|i: int, j: int| 0 <= i < j < s2.len() implies s2[i].0 < s2[j].0 by {
                    if j < p {
                    } else if i < p && j == p {
                        assert(s2[i] == old_view[i]);
                    } else if i < p && j > p {
                        assert(s2[i] == old_view[i] && s2[j] == old_view[j - 1]);
                        assert(old_view[i].0 < depth && old_view[j - 1].0 >= depth);
                        assert(old_view[j - 1].0 != depth);
                    } else if i == p {
                        assert(s2[j] == old_view[j - 1]);
                        assert(old_view[j - 1].0 >= depth && old_view[j - 1].0 != depth);
                    } else {
                        assert(s2[i] == old_view[i - 1] && s2[j] == old_view[j - 1]);
                    }
                }
                assert(s2[p as int].0 == depth);
            }
        }
    }

    /// Clears the prompt segment at the given nesting depth; a no-op when
    /// that depth carries none.
    pub fn unset_sub_prompt(&mut self, depth: u64)
        requires
            old(self).wf(),
        ensures
            final(self).wf(),
            final(self).sub_prompts() == prompt_unset(old(self).sub_prompts(), depth),
            !final(self).has_sub_prompt(depth),
            final(self).opened_wallet() == old(self).opened_wallet(),
            final(self).connected_pool() == old(self).connected_pool(),
            final(self).active_did() == old(self).active_did(),
            final(self).session_failed() == old(self).session_failed(),
    {
        let ghost old_view = self.sub_prompts();
        let p = self.find_prompt_pos(depth);
        proof {
            lemma_prompt_pos_in_range(old_view, depth);
        }
        if p < self.prompts.len() && self.prompts[p].0 == depth {
            self.prompts.remove(p);
            proof {
                assert(self.sub_prompts() =~= old_view.remove(p as int));
                let s2 = self.sub_prompts();
                assert forall|i: int, j: int| 0 <= i < j < s2.len() implies s2[i].0 < s2[j].0 by {
                    if i < p && j < p {
                    } else if i < p {
                        assert(s2[i] == old_view[i] && s2[j] == old_view[j + 1]);
                    } else {
                        assert(s2[i] == old_view[i + 1] && s2[j] == old_view[j + 1]);
                    }
                }
                assert forall|i: int| 0 <= i < s2.len() implies s2[i].0 != depth by {
                    if i < p {
                        assert(s2[i] == old_view[i]);
                    } else {
                        assert(s2[i] == old_view[i + 1]);
                        assert(old_view[i + 1].0 >= depth);
                        assert(old_view[p as int].0 == depth);
                        assert(old_view[p as int].0 < old_view[i + 1].0);
                    }
                }
            }
        } else {
            proof {
                assert forall|i: int| 0 <= i < old_view.len() implies old_view[i].0 != depth by {
                    if i < p {
                        assert(old_view[i].0 < depth);
                    } else if i == p {
                    } else {
                        assert(old_view[p as int].0 < old_view[i].0);
                        assert(old_view[p as int].0 >= depth);
                    }
                }
            }
        }
    }
}

} // verus!
