//! An in-memory identity/ledger service: pool configurations, open pool
//! sessions, attached wallets with their DIDs, and open wallet sessions.
//! The command handlers drive it through the same operations the shell's
//! external collaborators offer: create/open/close/delete/list a pool,
//! create/open/close/detach/list a wallet, and store/qualify a DID.

use vstd::prelude::*;

use crate::error::SdkError;
use crate::strutil::str_eq;

verus! {

/// A named pool configuration and its stored configuration document.
pub struct PoolConfig {
    pub name: String,
    pub config: String,
}

/// An attached wallet: its name and the DIDs stored in it.
pub struct WalletRecord {
    pub name: String,
    pub dids: Vec<String>,
}

/// The fully qualified form of a DID under a method.
pub open spec fn qualified_did(method: Seq<char>, did: Seq<char>) -> Seq<char> {
    "did:"@ + method + ":"@ + did
}

/// No two pool configurations share a name.
pub open spec fn cfg_names_unique(s: Seq<(Seq<char>, Seq<char>)>) -> bool {
    forall|i: int, j: int| 0 <= i < j < s.len() ==> s[i].0 != s[j].0
}

/// No two attached wallets share a name.
pub open spec fn wallet_names_unique(s: Seq<(Seq<char>, Seq<Seq<char>>)>) -> bool {
    forall|i: int, j: int| 0 <= i < j < s.len() ==> s[i].0 != s[j].0
}

/// No two open sessions share a handle.
pub open spec fn sessions_unique(s: Seq<(u64, Seq<char>)>) -> bool {
    forall|i: int, j: int| 0 <= i < j < s.len() ==> s[i].0 != s[j].0
}

/// Every issued handle lies below the next one to be issued.
pub open spec fn handles_below(s: Seq<(u64, Seq<char>)>, h: u64) -> bool {
    forall|i: int| 0 <= i < s.len() ==> s[i].0 < h
}

proof fn lemma_sessions_push(s: Seq<(u64, Seq<char>)>, h: u64, n: Seq<char>, h2: u64)
    requires
        sessions_unique(s),
        handles_below(s, h),
        h < h2,
    ensures
        sessions_unique(s.push((h, n))),
        handles_below(s.push((h, n)), h2),
{
    let s2 = s.push((h, n));
    assert forall|i: int, j: int| 0 <= i < j < s2.len() implies s2[i].0 != s2[j].0 by {
        if j == s.len() {
            assert(s2[i] == s[i]);
        } else {
            assert(s2[i] == s[i] && s2[j] == s[j]);
        }
    }
    assert forall|i: int| 0 <= i < s2.len() implies s2[i].0 < h2 by {
        if i < s.len() {
            assert(s2[i] == s[i]);
        }
    }
}

proof fn lemma_handles_below_mono(s: Seq<(u64, Seq<char>)>, h: u64, h2: u64)
    requires
        handles_below(s, h),
        h <= h2,
    ensures
        handles_below(s, h2),
{
}

proof fn lemma_sessions_remove(s: Seq<(u64, Seq<char>)>, i: int, h: u64)
    requires
        sessions_unique(s),
        handles_below(s, h),
        0 <= i < s.len(),
    ensures
        sessions_unique(s.remove(i)),
        handles_below(s.remove(i), h),
        forall|k: int| 0 <= k < s.remove(i).len() ==> s.remove(i)[k].0 != s[i].0,
{
    let s2 = s.remove(i);
    assert forall|a: int, b: int| 0 <= a < b < s2.len() implies s2[a].0 != s2[b].0 by {
        assert(s2[a] == if a < i { s[a] } else { s[a + 1] });
        assert(s2[b] == if b < i { s[b] } else { s[b + 1] });
    }
    assert forall|k: int| 0 <= k < s2.len() implies s2[k].0 < h && s2[k].0 != s[i].0 by {
        assert(s2[k] == if k < i { s[k] } else { s[k + 1] });
    }
}

/// The service state.
pub struct Sdk {
    pool_configs: Vec<PoolConfig>,
    open_pools: Vec<(u64, String)>,
    wallets: Vec<WalletRecord>,
    open_wallets: Vec<(u64, String)>,
    next_handle: u64,
}

impl Sdk {
    /// The pool configurations: (name, configuration document) in creation
    /// order.
    pub closed spec fn pool_configs(self) -> Seq<(Seq<char>, Seq<char>)> {
        self.pool_configs@.map_values(|p: PoolConfig| (p.name@, p.config@))
    }

    /// The open pool sessions: (handle, pool name).
    pub closed spec fn open_pools(self) -> Seq<(u64, Seq<char>)> {
        self.open_pools@.map_values(|p: (u64, String)| (p.0, p.1@))
    }

    /// The attached wallets: (name, stored DIDs) in attachment order.
    pub closed spec fn wallets(self) -> Seq<(Seq<char>, Seq<Seq<char>>)> {
        self.wallets@.map_values(
            |w: WalletRecord| (w.name@, w.dids@.map_values(|d: String| d@)),
        )
    }

    /// The open wallet sessions: (handle, wallet name).
    pub closed spec fn open_wallets(self) -> Seq<(u64, Seq<char>)> {
        self.open_wallets@.map_values(|p: (u64, String)| (p.0, p.1@))
    }

    pub closed spec fn next_handle(self) -> u64 {
        self.next_handle
    }

    pub open spec fn has_pool_config(self, n: Seq<char>) -> bool {
        exists|i: int| 0 <= i < self.pool_configs().len() && self.pool_configs()[i].0 == n
    }

    pub open spec fn pool_open_by_name(self, n: Seq<char>) -> bool {
        exists|i: int| 0 <= i < self.open_pools().len() && self.open_pools()[i].1 == n
    }

    pub open spec fn pool_handle_open(self, h: u64) -> bool {
        exists|i: int| 0 <= i < self.open_pools().len() && self.open_pools()[i].0 == h
    }

    pub open spec fn has_wallet(self, n: Seq<char>) -> bool {
        exists|i: int| 0 <= i < self.wallets().len() && self.wallets()[i].0 == n
    }

    pub open spec fn wallet_open_by_name(self, n: Seq<char>) -> bool {
        exists|i: int| 0 <= i < self.open_wallets().len() && self.open_wallets()[i].1 == n
    }

    pub open spec fn wallet_handle_open(self, h: u64) -> bool {
        exists|i: int| 0 <= i < self.open_wallets().len() && self.open_wallets()[i].0 == h
    }

    /// Handle `h` is an open session of the wallet named `n`.
    pub open spec fn open_wallet_has(self, h: u64, n: Seq<char>) -> bool {
        exists|i: int| 0 <= i < self.open_wallets().len() && self.open_wallets()[i] == (h, n)
    }

    /// The session of handle `h` names a wallet whose record is gone.
    pub open spec fn session_orphaned(self, h: u64) -> bool {
        exists|i: int|
            0 <= i < self.open_wallets().len() && (#[trigger] self.open_wallets()[i]).0 == h
                && !self.has_wallet(self.open_wallets()[i].1)
    }

    /// The wallet open under handle `h` stores `d`.
    pub open spec fn did_in_wallet(self, h: u64, d: Seq<char>) -> bool {
        exists|n: Seq<char>, k: int|
            self.open_wallet_has(h, n) && 0 <= k < self.wallets().len()
                && self.wallets()[k].0 == n && (exists|j: int|
                0 <= j < self.wallets()[k].1.len() && self.wallets()[k].1[j] == d)
    }

    /// Well-formedness: names are unique per collection, sessions are unique
    /// per handle, and every issued handle is below `next_handle`.
    pub open spec fn wf(self) -> bool {
        cfg_names_unique(self.pool_configs()) && wallet_names_unique(self.wallets())
            && sessions_unique(self.open_pools()) && sessions_unique(self.open_wallets())
            && handles_below(self.open_pools(), self.next_handle()) && handles_below(
            self.open_wallets(),
            self.next_handle(),
        )
    }

    /// A fresh service: no configuration, no wallet, no open session.
    pub fn new() -> (r: Sdk)
        ensures
            r.wf(),
            r.pool_configs().len() == 0,
            r.open_pools().len() == 0,
            r.wallets().len() == 0,
            r.open_wallets().len() == 0,
            r.next_handle() == 0,
    {
        Sdk {
            pool_configs: Vec::new(),
            open_pools: Vec::new(),
            wallets: Vec::new(),
            open_wallets: Vec::new(),
            next_handle: 0,
        }
    }

    fn find_pool_config(&self, name: &str) -> (r: Option<usize>)
        ensures
            match r {
                Some(i) => i < self.pool_configs().len() && self.pool_configs()[i as int].0
                    == name@,
                None => forall|i: int|
                    0 <= i < self.pool_configs().len() ==> self.pool_configs()[i].0 != name@,
            },
    {
        let n = self.pool_configs.len();
        let mut i: usize = 0;
        while i < n
            invariant
                n == self.pool_configs().len(),
                i <= n,
                forall|j: int| 0 <= j < i ==> self.pool_configs()[j].0 != name@,
            decreases n - i,
        {
            if str_eq(self.pool_configs[i].name.as_str(), name) {
                return Some(i);
            }
            i = i + 1;
        }
        None
    }

    fn find_open_pool(&self, handle: u64) -> (r: Option<usize>)
        ensures
            match r {
                Some(i) => i < self.open_pools().len() && self.open_pools()[i as int].0 == handle,
                None => forall|i: int|
                    0 <= i < self.open_pools().len() ==> self.open_pools()[i].0 != handle,
            },
    {
        let n = self.open_pools.len();
        let mut i: usize = 0;
        while i < n
            invariant
                n == self.open_pools().len(),
                i <= n,
                forall|j: int| 0 <= j < i ==> self.open_pools()[j].0 != handle,
            decreases n - i,
        {
            if self.open_pools[i].0 == handle {
                return Some(i);
            }
            i = i + 1;
        }
        None
    }

    fn find_open_pool_by_name(&self, name: &str) -> (r: Option<usize>)
        ensures
            match r {
                Some(i) => i < self.open_pools().len() && self.open_pools()[i as int].1 == name@,
                None => forall|i: int|
                    0 <= i < self.open_pools().len() ==> self.open_pools()[i].1 != name@,
            },
    {
        let n = self.open_pools.len();
        let mut i: usize = 0;
        while i < n
            invariant
                n == self.open_pools().len(),
                i <= n,
                forall|j: int| 0 <= j < i ==> self.open_pools()[j].1 != name@,
            decreases n - i,
        {
            if str_eq(self.open_pools[i].1.as_str(), name) {
                return Some(i);
            }
            i = i + 1;
        }
        None
    }

    fn find_wallet(&self, name: &str) -> (r: Option<usize>)
        ensures
            match r {
                Some(i) => i < self.wallets().len() && self.wallets()[i as int].0 == name@,
                None => forall|i: int|
                    0 <= i < self.wallets().len() ==> self.wallets()[i].0 != name@,
            },
    {
        let n = self.wallets.len();
        let mut i: usize = 0;
        while i < n
            invariant
                n == self.wallets().len(),
                i <= n,
                forall|j: int| 0 <= j < i ==> self.wallets()[j].0 != name@,
            decreases n - i,
        {
            if str_eq(self.wallets[i].name.as_str(), name) {
                return Some(i);
            }
            i = i + 1;
        }
        None
    }

    fn find_open_wallet(&self, handle: u64) -> (r: Option<usize>)
        ensures
            match r {
                Some(i) => i < self.open_wallets().len() && self.open_wallets()[i as int].0
                    == handle,
                None => forall|i: int|
                    0 <= i < self.open_wallets().len() ==> self.open_wallets()[i].0 != handle,
            },
    {
        let n = self.open_wallets.len();
        let mut i: usize = 0;
        while i < n
            invariant
                n == self.open_wallets().len(),
                i <= n,
                forall|j: int| 0 <= j < i ==> self.open_wallets()[j].0 != handle,
            decreases n - i,
        {
            if self.open_wallets[i].0 == handle {
                return Some(i);
            }
            i = i + 1;
        }
        None
    }

    fn find_open_wallet_by_name(&self, name: &str) -> (r: Option<usize>)
        ensures
            match r {
                Some(i) => i < self.open_wallets().len() && self.open_wallets()[i as int].1
                    == name@,
                None => forall|i: int|
                    0 <= i < self.open_wallets().len() ==> self.open_wallets()[i].1 != name@,
            },
    {
        let n = self.open_wallets.len();
        let mut i: usize = 0;
        while i < n
            invariant
                n == self.open_wallets().len(),
                i <= n,
                forall|j: int| 0 <= j < i ==> self.open_wallets()[j].1 != name@,
            decreases n - i,
        {
            if str_eq(self.open_wallets[i].1.as_str(), name) {
                return Some(i);
            }
            i = i + 1;
        }
        None
    }

    /// Creates a pool configuration; refused with `AlreadyExists` exactly
    /// when the name is already taken.
    pub fn pool_create_config(&mut self, name: &str, config: &str) -> (r: Result<(), SdkError>)
        requires
            old(self).wf(),
        ensures
            final(self).wf(),
            match r {
                Ok(()) => !old(self).has_pool_config(name@) && final(self).pool_configs() == old(self).pool_configs().push((name@, config@)) && final(self).open_pools() == old(self).open_pools() && final(self).wallets() == old(self).wallets() && final(self).open_wallets() == old(self).open_wallets(),
                Err(e) => e == SdkError::AlreadyExists && old(self).has_pool_config(name@)
                    && *final(self) == *old(self),
            },
    {
        match self.find_pool_config(name) {
            Some(_) => Err(SdkError::AlreadyExists),
            None => {
                let ghost old_cfgs = self.pool_configs();
                self.pool_configs.push(
                    PoolConfig { name: name.to_owned(), config: config.to_owned() },
                );
                proof {
                    assert(self.pool_configs() =~~= old_cfgs.push((name@, config@)));
                    assert(self.open_pools() =~~= old(self).open_pools());
                    assert(self.wallets() =~~= old(self).wallets());
                    assert(self.open_wallets() =~~= old(self).open_wallets());
                    let s2 = self.pool_configs();
                    assert forall|i: int, j: int|
                        0 <= i < j < s2.len() implies s2[i].0 != s2[j].0 by {
                        if j == old_cfgs.len() {
                            assert(s2[i] == old_cfgs[i]);
                        } else {
                            assert(s2[i] == old_cfgs[i] && s2[j] == old_cfgs[j]);
                        }
                    }
                }
                Ok(())
            },
        }
    }

    /// Opens a session against a known, not yet open pool and returns a
    /// fresh handle.
    pub fn pool_open(&mut self, name: &str) -> (r: Result<u64, SdkError>)
        requires
            old(self).wf(),
        ensures
            final(self).wf(),
            match r {
                Ok(h) => old(self).has_pool_config(name@) && !old(self).pool_open_by_name(name@)
                    && !old(self).pool_handle_open(h) && h == old(self).next_handle() && final(self).open_pools() == old(self).open_pools().push((h, name@)) && final(self).pool_configs() == old(self).pool_configs() && final(self).wallets() == old(self).wallets() && final(self).open_wallets() == old(self).open_wallets(),
                Err(e) => *final(self) == *old(self) && match e {
                    SdkError::NotFound => !old(self).has_pool_config(name@),
                    SdkError::AlreadyOpen => old(self).has_pool_config(name@) && old(self).pool_open_by_name(name@),
                    SdkError::Exhausted => old(self).has_pool_config(name@) && !old(self).pool_open_by_name(name@) && old(self).next_handle() == u64::MAX,
                    _ => false,
                },
            },
    {
        if self.find_pool_config(name).is_none() {
            return Err(SdkError::NotFound);
        }
        if self.find_open_pool_by_name(name).is_some() {
            return Err(SdkError::AlreadyOpen);
        }
        if self.next_handle == u64::MAX {
            return Err(SdkError::Exhausted);
        }
        let h = self.next_handle;
        let ghost old_open = self.open_pools();
        self.open_pools.push((h, name.to_owned()));
        self.next_handle = h + 1;
        proof {
            assert(self.open_pools() =~~= old_open.push((h, name@)));
            assert(self.pool_configs() =~~= old(self).pool_configs());
            assert(self.wallets() =~~= old(self).wallets());
            assert(self.open_wallets() =~~= old(self).open_wallets());
            lemma_sessions_push(old_open, h, name@, (h + 1) as u64);
            lemma_handles_below_mono(self.open_wallets(), h, (h + 1) as u64);
        }
        Ok(h)
    }

    /// Closes the open pool session of `handle`; refused with
    /// `InvalidHandle` exactly when no session carries it.
    pub fn pool_close(&mut self, handle: u64) -> (r: Result<(), SdkError>)
        requires
            old(self).wf(),
        ensures
            final(self).wf(),
            match r {
                Ok(()) => old(self).pool_handle_open(handle) && (exists|i: int|
                    0 <= i < old(self).open_pools().len() && old(self).open_pools()[i].0 == handle
                        && final(self).open_pools() == old(self).open_pools().remove(i)) && !final(self).pool_handle_open(handle) && final(self).next_handle() == old(self).next_handle() && final(self).pool_configs() == old(self).pool_configs() && final(self).wallets() == old(self).wallets() && final(self).open_wallets() == old(self).open_wallets(),
                Err(e) => e == SdkError::InvalidHandle && !old(self).pool_handle_open(handle)
                    && *final(self) == *old(self),
            },
    {
        match self.find_open_pool(handle) {
            None => Err(SdkError::InvalidHandle),
            Some(i) => {
                let ghost old_open = self.open_pools();
                self.open_pools.remove(i);
                proof {
                    assert(self.open_pools() =~~= old_open.remove(i as int));
                    assert(self.pool_configs() =~~= old(self).pool_configs());
                    assert(self.wallets() =~~= old(self).wallets());
                    assert(self.open_wallets() =~~= old(self).open_wallets());
                    lemma_sessions_remove(old_open, i as int, old(self).next_handle());
                }
                Ok(())
            },
        }
    }

    /// Deletes a pool configuration; refused when the name is unknown or the
    /// pool is currently open.
    pub fn pool_delete(&mut self, name: &str) -> (r: Result<(), SdkError>)
        requires
            old(self).wf(),
        ensures
            final(self).wf(),
            match r {
                Ok(()) => old(self).has_pool_config(name@) && !old(self).pool_open_by_name(name@)
                    && (exists|i: int|
                    0 <= i < old(self).pool_configs().len() && old(self).pool_configs()[i].0
                        == name@ && final(self).pool_configs() == old(self).pool_configs().remove(
                        i,
                    )) && !final(self).has_pool_config(name@) && final(self).open_pools() == old(self).open_pools() && final(self).wallets() == old(self).wallets() && final(self).open_wallets() == old(self).open_wallets(),
                Err(e) => *final(self) == *old(self) && match e {
                    SdkError::NotFound => !old(self).has_pool_config(name@),
                    SdkError::AlreadyOpen => old(self).has_pool_config(name@) && old(self).pool_open_by_name(name@),
                    _ => false,
                },
            },
    {
        match self.find_pool_config(name) {
            None => Err(SdkError::NotFound),
            Some(i) => {
                if self.find_open_pool_by_name(name).is_some() {
                    return Err(SdkError::AlreadyOpen);
                }
                let ghost old_cfgs = self.pool_configs();
                self.pool_configs.remove(i);
                proof {
                    assert(self.pool_configs() =~~= old_cfgs.remove(i as int));
                    assert(self.open_pools() =~~= old(self).open_pools());
                    assert(self.wallets() =~~= old(self).wallets());
                    assert(self.open_wallets() =~~= old(self).open_wallets());
                    let s2 = self.pool_configs();
                    assert forall|a: int, b: int|
                        0 <= a < b < s2.len() implies s2[a].0 != s2[b].0 by {
                        assert(s2[a] == if a < i { old_cfgs[a] } else { old_cfgs[a + 1] });
                        assert(s2[b] == if b < i { old_cfgs[b] } else { old_cfgs[b + 1] });
                    }
                    assert forall|k: int| 0 <= k < s2.len() implies s2[k].0 != name@ by {
                        assert(s2[k] == if k < i { old_cfgs[k] } else { old_cfgs[k + 1] });
                    }
                }
                Ok(())
            },
        }
    }

    /// Lists the pool configuration names; an input/output error stands for
    /// "no configuration exists at all".
    pub fn pool_list(&self) -> (r: Result<Vec<String>, SdkError>)
        ensures
            match r {
                Ok(v) => self.pool_configs().len() > 0 && v@.len() == self.pool_configs().len()
                    && (forall|j: int|
                    0 <= j < v@.len() ==> v@[j]@ == self.pool_configs()[j].0),
                Err(e) => e == SdkError::IoError && self.pool_configs().len() == 0,
            },
    {
        let n = self.pool_configs.len();
        if n == 0 {
            return Err(SdkError::IoError);
        }
        let mut names: Vec<String> = Vec::new();
        let mut i: usize = 0;
        while i < n
            invariant
                n == self.pool_configs().len(),
                i <= n,
                names@.len() == i,
                forall|j: int| 0 <= j < i ==> names@[j]@ == self.pool_configs()[j].0,
            decreases n - i,
        {
            names.push(self.pool_configs[i].name.clone());
            i = i + 1;
        }
        Ok(names)
    }

    /// Attaches a wallet with no stored DIDs; refused with `AlreadyExists`
    /// exactly when the name is already taken.
    pub fn wallet_create(&mut self, name: &str) -> (r: Result<(), SdkError>)
        requires
            old(self).wf(),
        ensures
            final(self).wf(),
            match r {
                Ok(()) => !old(self).has_wallet(name@) && final(self).wallets() == old(self).wallets().push((name@, Seq::<Seq<char>>::empty())) && final(self).pool_configs()
                    == old(self).pool_configs() && final(self).open_pools() == old(self).open_pools() && final(self).open_wallets() == old(self).open_wallets(),
                Err(e) => e == SdkError::AlreadyExists && old(self).has_wallet(name@) && *final(self) == *old(self),
            },
    {
        match self.find_wallet(name) {
            Some(_) => Err(SdkError::AlreadyExists),
            None => {
                let ghost old_wallets = self.wallets();
                self.wallets.push(WalletRecord { name: name.to_owned(), dids: Vec::new() });
                proof {
                    assert(self.wallets() =~~= old_wallets.push(
                        (name@, Seq::<Seq<char>>::empty()),
                    ));
                    assert(self.pool_configs() =~~= old(self).pool_configs());
                    assert(self.open_pools() =~~= old(self).open_pools());
                    assert(self.open_wallets() =~~= old(self).open_wallets());
                    let s2 = self.wallets();
                    assert forall|i: int, j: int|
                        0 <= i < j < s2.len() implies s2[i].0 != s2[j].0 by {
                        if j == old_wallets.len() {
                            assert(s2[i] == old_wallets[i]);
                        } else {
                            assert(s2[i] == old_wallets[i] && s2[j] == old_wallets[j]);
                        }
                    }
                }
                Ok(())
            },
        }
    }

    /// Whether a wallet configuration of this name is attached.
    pub fn wallet_config_exists(&self, name: &str) -> (r: bool)
        ensures
            r == self.has_wallet(name@),
    {
        self.find_wallet(name).is_some()
    }

    /// Removes an attached wallet's configuration; refused with `NotFound`
    /// exactly when no wallet of this name is attached.
    pub fn wallet_detach(&mut self, name: &str) -> (r: Result<(), SdkError>)
        requires
            old(self).wf(),
        ensures
            final(self).wf(),
            match r {
                Ok(()) => old(self).has_wallet(name@) && (exists|i: int|
                    0 <= i < old(self).wallets().len() && old(self).wallets()[i].0 == name@
                        && final(self).wallets() == old(self).wallets().remove(i)) && !final(self).has_wallet(name@) && final(self).pool_configs() == old(self).pool_configs()
                    && final(self).open_pools() == old(self).open_pools() && final(self).open_wallets() == old(self).open_wallets(),
                Err(e) => e == SdkError::NotFound && !old(self).has_wallet(name@) && *final(self)
                    == *old(self),
            },
    {
        match self.find_wallet(name) {
            None => Err(SdkError::NotFound),
            Some(i) => {
                let ghost old_wallets = self.wallets();
                self.wallets.remove(i);
                proof {
                    assert(self.wallets() =~~= old_wallets.remove(i as int));
                    assert(self.pool_configs() =~~= old(self).pool_configs());
                    assert(self.open_pools() =~~= old(self).open_pools());
                    assert(self.open_wallets() =~~= old(self).open_wallets());
                    let s2 = self.wallets();
                    assert forall|a: int, b: int|
                        0 <= a < b < s2.len() implies s2[a].0 != s2[b].0 by {
                        assert(s2[a] == if a < i { old_wallets[a] } else { old_wallets[a + 1] });
                        assert(s2[b] == if b < i { old_wallets[b] } else { old_wallets[b + 1] });
                    }
                    assert forall|k: int| 0 <= k < s2.len() implies s2[k].0 != name@ by {
                        assert(s2[k] == if k < i { old_wallets[k] } else { old_wallets[k + 1] });
                    }
                }
                Ok(())
            },
        }
    }

    /// Names of the attached wallets, in attachment order.
    pub fn wallet_list(&self) -> (r: Vec<String>)
        ensures
            r@.len() == self.wallets().len(),
            forall|j: int| 0 <= j < r@.len() ==> r@[j]@ == self.wallets()[j].0,
    {
        let n = self.wallets.len();
        let mut names: Vec<String> = Vec::new();
        let mut i: usize = 0;
        while i < n
            invariant
                n == self.wallets().len(),
                i <= n,
                names@.len() == i,
                forall|j: int| 0 <= j < i ==> names@[j]@ == self.wallets()[j].0,
            decreases n - i,
        {
            names.push(self.wallets[i].name.clone());
            i = i + 1;
        }
        names
    }

    /// Opens a session against an attached, not yet open wallet and returns
    /// a fresh handle.
    pub fn wallet_open(&mut self, name: &str) -> (r: Result<u64, SdkError>)
        requires
            old(self).wf(),
        ensures
            final(self).wf(),
            match r {
                Ok(h) => old(self).has_wallet(name@) && !old(self).wallet_open_by_name(name@)
                    && !old(self).wallet_handle_open(h) && h == old(self).next_handle() && final(self).open_wallets() == old(self).open_wallets().push((h, name@)) && final(self).open_wallet_has(h, name@)
                    && final(self).pool_configs() == old(self).pool_configs() && final(self).open_pools() == old(self).open_pools() && final(self).wallets() == old(self).wallets(),
                Err(e) => *final(self) == *old(self) && match e {
                    SdkError::NotFound => !old(self).has_wallet(name@),
                    SdkError::AlreadyOpen => old(self).has_wallet(name@) && old(self).wallet_open_by_name(name@),
                    SdkError::Exhausted => old(self).has_wallet(name@) && !old(self).wallet_open_by_name(name@) && old(self).next_handle() == u64::MAX,
                    _ => false,
                },
            },
    {
        if self.find_wallet(name).is_none() {
            return Err(SdkError::NotFound);
        }
        if self.find_open_wallet_by_name(name).is_some() {
            return Err(SdkError::AlreadyOpen);
        }
        if self.next_handle == u64::MAX {
            return Err(SdkError::Exhausted);
        }
        let h = self.next_handle;
        let ghost old_open = self.open_wallets();
        self.open_wallets.push((h, name.to_owned()));
        self.next_handle = h + 1;
        proof {
            assert(self.open_wallets() =~~= old_open.push((h, name@)));
            assert(self.pool_configs() =~~= old(self).pool_configs());
            assert(self.wallets() =~~= old(self).wallets());
            assert(self.open_pools() =~~= old(self).open_pools());
            lemma_sessions_push(old_open, h, name@, (h + 1) as u64);
            lemma_handles_below_mono(self.open_pools(), h, (h + 1) as u64);
            assert(self.open_wallets()[old_open.len() as int] == (h, name@));
        }
        Ok(h)
    }

    /// Closes the open wallet session of `handle`; refused with
    /// `InvalidHandle` exactly when no session carries it.
    pub fn wallet_close(&mut self, handle: u64) -> (r: Result<(), SdkError>)
        requires
            old(self).wf(),
        ensures
            final(self).wf(),
            match r {
                Ok(()) => old(self).wallet_handle_open(handle) && (exists|i: int|
                    0 <= i < old(self).open_wallets().len() && old(self).open_wallets()[i].0
                        == handle && final(self).open_wallets() == old(self).open_wallets().remove(
                        i,
                    )) && !final(self).wallet_handle_open(handle) && final(self).pool_configs()
                    == old(self).pool_configs() && final(self).open_pools() == old(self).open_pools() && final(self).wallets() == old(self).wallets(),
                Err(e) => e == SdkError::InvalidHandle && !old(self).wallet_handle_open(handle)
                    && *final(self) == *old(self),
            },
    {
        match self.find_open_wallet(handle) {
            None => Err(SdkError::InvalidHandle),
            Some(i) => {
                let ghost old_open = self.open_wallets();
                self.open_wallets.remove(i);
                proof {
                    assert(self.open_wallets() =~~= old_open.remove(i as int));
                    assert(self.pool_configs() =~~= old(self).pool_configs());
                    assert(self.wallets() =~~= old(self).wallets());
                    assert(self.open_pools() =~~= old(self).open_pools());
                    lemma_sessions_remove(old_open, i as int, old(self).next_handle());
                }
                Ok(())
            },
        }
    }

    /// Stores a new DID in the wallet open under `handle`.
    pub fn did_new(&mut self, handle: u64, did: &str) -> (r: Result<(), SdkError>)
        requires
            old(self).wf(),
        ensures
            final(self).wf(),
            match r {
                Ok(()) => old(self).wallet_handle_open(handle) && final(self).did_in_wallet(
                    handle,
                    did@,
                ) && final(self).pool_configs() == old(self).pool_configs() && final(self).open_pools() == old(self).open_pools() && final(self).open_wallets() == old(self).open_wallets(),
                Err(e) => *final(self) == *old(self) && match e {
                    SdkError::InvalidHandle => !old(self).wallet_handle_open(handle),
                    SdkError::AlreadyExists => old(self).did_in_wallet(handle, did@),
                    SdkError::NotFound => old(self).session_orphaned(handle),
                    _ => false,
                },
            },
    {
        let i = match self.find_open_wallet(handle) {
            None => {
                return Err(SdkError::InvalidHandle);
            },
            Some(i) => i,
        };
        let wallet_name = self.open_wallets[i].1.clone();
        let k = match self.find_wallet(wallet_name.as_str()) {
            None => {
                proof {
                    assert(self.open_wallets()[i as int].1 == wallet_name@);
                }
                return Err(SdkError::NotFound);
            },
            Some(k) => k,
        };
        match find_did_index(&self.wallets[k].dids, did) {
            Some(j) => {
                proof {
                    assert(self.open_wallets()[i as int] == (handle, wallet_name@));
                    assert(self.open_wallet_has(handle, wallet_name@));
                    assert(self.wallets()[k as int].1[j as int] == did@);
                    assert(self.did_in_wallet(handle, did@));
                }
                return Err(SdkError::AlreadyExists);
            },
            None => {},
        }
        let ghost old_wallets = self.wallets();
        let mut rec = self.wallets.remove(k);
        let ghost old_dids = old_wallets[k as int].1;
        rec.dids.push(did.to_owned());
        self.wallets.insert(k, rec);
        proof {
            assert(self.wallets() =~~= old_wallets.update(
                k as int,
                (old_wallets[k as int].0, old_dids.push(did@)),
            ));
            assert(self.pool_configs() =~~= old(self).pool_configs());
            assert(self.open_pools() =~~= old(self).open_pools());
            assert(self.open_wallets() =~~= old(self).open_wallets());
            let s2 = self.wallets();
            assert forall|a: int, b: int| 0 <= a < b < s2.len() implies s2[a].0 != s2[b].0 by {
                assert(s2[a].0 == old_wallets[a].0);
                assert(s2[b].0 == old_wallets[b].0);
            }
            assert(self.open_wallets()[i as int] == (handle, wallet_name@));
            assert(self.open_wallet_has(handle, wallet_name@));
            let dids2 = self.wallets()[k as int].1;
            assert(dids2[dids2.len() - 1] == did@);
            assert(self.did_in_wallet(handle, did@));
        }
        Ok(())
    }

    /// The DIDs stored in the wallet open under `handle`; an unknown handle
    /// or an orphaned session yields an empty listing through `Err`.
    pub fn did_list(&self, handle: u64) -> (r: Result<Vec<String>, SdkError>)
        requires
            self.wf(),
        ensures
            match r {
                Ok(v) => exists|n: Seq<char>, k: int|
                    self.open_wallet_has(handle, n) && 0 <= k < self.wallets().len()
                        && self.wallets()[k].0 == n && v@.len() == self.wallets()[k].1.len() && (
                    forall|j: int|
                        0 <= j < v@.len() ==> v@[j]@ == self.wallets()[k].1[j]),
                Err(e) => match e {
                    SdkError::InvalidHandle => !self.wallet_handle_open(handle),
                    SdkError::NotFound => self.session_orphaned(handle),
                    _ => false,
                },
            },
    {
        let i = match self.find_open_wallet(handle) {
            None => {
                return Err(SdkError::InvalidHandle);
            },
            Some(i) => i,
        };
        let wallet_name = self.open_wallets[i].1.clone();
        let k = match self.find_wallet(wallet_name.as_str()) {
            None => {
                proof {
                    assert(self.open_wallets()[i as int].1 == wallet_name@);
                }
                return Err(SdkError::NotFound);
            },
            Some(k) => k,
        };
        let n = self.wallets[k].dids.len();
        let mut out: Vec<String> = Vec::new();
        let mut j: usize = 0;
        while j < n
            invariant
                k < self.wallets().len(),
                n == self.wallets()[k as int].1.len(),
                j <= n,
                out@.len() == j,
                forall|t: int| 0 <= t < j ==> out@[t]@ == self.wallets()[k as int].1[t],
            decreases n - j,
        {
            out.push(self.wallets[k].dids[j].clone());
            j = j + 1;
        }
        proof {
            assert(self.open_wallets()[i as int] == (handle, wallet_name@));
            assert(self.open_wallet_has(handle, wallet_name@));
        }
        Ok(out)
    }

    /// Rewrites a DID stored in the wallet open under `handle` into its
    /// fully qualified, method-scoped form and returns that form.
    pub fn did_qualify(&mut self, handle: u64, did: &str, method: &str) -> (r: Result<
        String,
        SdkError,
    >)
        requires
            old(self).wf(),
        ensures
            final(self).wf(),
            match r {
                Ok(full) => full@ == qualified_did(method@, did@) && old(self).did_in_wallet(
                    handle,
                    did@,
                ) && final(self).did_in_wallet(handle, full@) && (exists|k: int, j: int|
                    0 <= k < old(self).wallets().len() && 0 <= j < old(self).wallets()[k].1.len()
                        && old(self).open_wallet_has(handle, old(self).wallets()[k].0) && old(self).wallets()[k].1[j] == did@ && final(self).wallets() == old(self).wallets().update(
                        k,
                        (old(self).wallets()[k].0, old(self).wallets()[k].1.update(j, full@)),
                    )) && final(self).pool_configs() == old(self).pool_configs() && final(self).open_pools() == old(self).open_pools() && final(self).open_wallets() == old(self).open_wallets(),
                Err(e) => *final(self) == *old(self) && match e {
                    SdkError::InvalidHandle => !old(self).wallet_handle_open(handle),
                    SdkError::NotFound => old(self).wallet_handle_open(handle) && !old(self).did_in_wallet(handle, did@),
                    _ => false,
                },
            },
    {
        let i = match self.find_open_wallet(handle) {
            None => {
                return Err(SdkError::InvalidHandle);
            },
            Some(i) => i,
        };
        let wallet_name = self.open_wallets[i].1.clone();
        let k = match self.find_wallet(wallet_name.as_str()) {
            None => {
                proof {
                    assert(self.open_wallets()[i as int].0 == handle);
                    assert(self.open_wallets()[i as int].1 == wallet_name@);
                    assert forall|d: Seq<char>|
                        !self.did_in_wallet(handle, d) by {
                        if self.did_in_wallet(handle, d) {
                            let (n2, k2) = choose|n2: Seq<char>, k2: int|
                                self.open_wallet_has(handle, n2) && 0 <= k2
                                    < self.wallets().len() && self.wallets()[k2].0 == n2 && (
                                exists|j: int|
                                    0 <= j < self.wallets()[k2].1.len() && self.wallets()[k2].1[j]
                                        == d);
                            let i2 = choose|i2: int|
                                0 <= i2 < self.open_wallets().len() && self.open_wallets()[i2]
                                    == (handle, n2);
                            assert(i2 == i as int);
                            assert(n2 == wallet_name@);
                        }
                    }
                }
                return Err(SdkError::NotFound);
            },
            Some(k) => k,
        };
        let j = match find_did_index(&self.wallets[k].dids, did) {
            None => {
                proof {
                    assert(self.open_wallets()[i as int] == (handle, wallet_name@));
                    assert(self.open_wallet_has(handle, wallet_name@));
                    lemma_unique_wallet_record(*self, handle, wallet_name@, k as int);
                }
                return Err(SdkError::NotFound);
            },
            Some(j) => j,
        };
        let full = String::from_str("did:").concat(method).concat(":").concat(did);
        let ghost full_view = full@;
        let ghost old_wallets = self.wallets();
        let ghost old_dids = old_wallets[k as int].1;
        let mut rec = self.wallets.remove(k);
        rec.dids.remove(j);
        rec.dids.insert(j, full.clone());
        self.wallets.insert(k, rec);
        proof {
            assert(self.wallets() =~~= old_wallets.update(
                k as int,
                (old_wallets[k as int].0, old_dids.update(j as int, full_view)),
            ));
            assert(self.pool_configs() =~~= old(self).pool_configs());
            assert(self.open_pools() =~~= old(self).open_pools());
            assert(self.open_wallets() =~~= old(self).open_wallets());
            let s2 = self.wallets();
            assert forall|a: int, b: int| 0 <= a < b < s2.len() implies s2[a].0 != s2[b].0 by {
                assert(s2[a].0 == old_wallets[a].0);
                assert(s2[b].0 == old_wallets[b].0);
            }
            assert(old_dids[j as int] == did@);
            assert(old(self).open_wallets()[i as int] == (handle, wallet_name@));
            assert(old(self).open_wallet_has(handle, wallet_name@));
            assert(old(self).did_in_wallet(handle, did@));
            assert(self.open_wallets()[i as int] == (handle, wallet_name@));
            assert(self.open_wallet_has(handle, wallet_name@));
            let dids2 = self.wallets()[k as int].1;
            assert(dids2[j as int] == full_view);
            assert(self.did_in_wallet(handle, full_view));
        }
        Ok(full)
    }
}

/// With a well-formed service, the open session of `handle` names exactly
/// one attached wallet record, the one at index `k`: every DID of the wallet
/// of `handle` is a DID of that record.
proof fn lemma_unique_wallet_record(sdk: Sdk, handle: u64, name: Seq<char>, k: int)
    requires
        sdk.wf(),
        sdk.open_wallet_has(handle, name),
        0 <= k < sdk.wallets().len(),
        sdk.wallets()[k].0 == name,
    ensures
        forall|d: Seq<char>|
            sdk.did_in_wallet(handle, d) ==> (exists|j: int|
                0 <= j < sdk.wallets()[k].1.len() && sdk.wallets()[k].1[j] == d),
{
    assert forall|d: Seq<char>| sdk.did_in_wallet(handle, d) implies (exists|j: int|
        0 <= j < sdk.wallets()[k].1.len() && sdk.wallets()[k].1[j] == d) by {
        let (n2, k2) = choose|n2: Seq<char>, k2: int|
            sdk.open_wallet_has(handle, n2) && 0 <= k2 < sdk.wallets().len()
                && sdk.wallets()[k2].0 == n2 && (exists|j: int|
                0 <= j < sdk.wallets()[k2].1.len() && sdk.wallets()[k2].1[j] == d);
        let i1 = choose|i: int|
            0 <= i < sdk.open_wallets().len() && sdk.open_wallets()[i] == (handle, name);
        let i2 = choose|i: int|
            0 <= i < sdk.open_wallets().len() && sdk.open_wallets()[i] == (handle, n2);
        assert(i1 == i2);
        assert(n2 == name);
        assert(k2 == k);
    }
}

/// Index of the first stored DID equal to `did`.
fn find_did_index(dids: &Vec<String>, did: &str) -> (r: Option<usize>)
    ensures
        match r {
            Some(j) => j < dids@.len() && dids@[j as int]@ == did@,
            None => forall|j: int| 0 <= j < dids@.len() ==> dids@[j]@ != did@,
        },
{
    let n = dids.len();
    let mut j: usize = 0;
    while j < n
        invariant
            n == dids@.len(),
            j <= n,
            forall|t: int| 0 <= t < j ==> dids@[t]@ != did@,
        decreases n - j,
    {
        if str_eq(dids[j].as_str(), did) {
            return Some(j);
        }
        j = j + 1;
    }
    None
}

} // verus!
