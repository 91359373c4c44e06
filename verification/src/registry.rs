//! The hierarchical command registry: groups of commands, built once at
//! startup and read-only afterwards, with lookup by (group, command) path.

use vstd::prelude::*;

use crate::error::{CliError, ErrView};
use crate::metadata::{CommandMetadata, GroupMetadata};
use crate::strutil::str_eq;

verus! {

/// The executable identity of a command: dispatch is a tagged variant, bound
/// at registration time.
#[derive(Clone, Copy, Debug, PartialEq, Eq, Structural)]
pub enum CommandKind {
    PoolCreate,
    PoolConnect,
    PoolList,
    PoolDisconnect,
    PoolDelete,
    DidQualify,
    WalletDetach,
}

/// A registered command: its description and its executable identity.
pub struct CommandEntry {
    pub metadata: CommandMetadata,
    pub kind: CommandKind,
}

/// A registered group: its description and its commands, in registration
/// order.
pub struct GroupEntry {
    pub metadata: GroupMetadata,
    pub commands: Vec<CommandEntry>,
}

/// What registration can be refused for; a duplicate sibling name is a
/// programmer error surfaced when the table is built, not at runtime.
#[derive(Clone, Copy, Debug, PartialEq, Eq, Structural)]
pub enum RegistryError {
    DuplicateGroup,
    DuplicateCommand,
    NoSuchGroup,
}

/// First group of the sequence carrying `name`, if any.
pub open spec fn spec_find_group(s: Seq<GroupEntry>, name: Seq<char>) -> Option<GroupEntry>
    decreases s.len(),
{
    if s.len() == 0 {
        None
    } else if s[0].metadata.name@ == name {
        Some(s[0])
    } else {
        spec_find_group(s.drop_first(), name)
    }
}

/// First command of the sequence carrying `name`, if any.
pub open spec fn spec_find_command(s: Seq<CommandEntry>, name: Seq<char>) -> Option<CommandEntry>
    decreases s.len(),
{
    if s.len() == 0 {
        None
    } else if s[0].metadata.name@ == name {
        Some(s[0])
    } else {
        spec_find_command(s.drop_first(), name)
    }
}

/// Appending a group resolves the new name when it was free and leaves every
/// other name as it was.
proof fn lemma_find_group_push(s: Seq<GroupEntry>, e: GroupEntry, n: Seq<char>)
    ensures
        spec_find_group(s.push(e), n) == if spec_find_group(s, n) is Some {
            spec_find_group(s, n)
        } else if e.metadata.name@ == n {
            Some(e)
        } else {
            None
        },
    decreases s.len(),
{
    if s.len() == 0 {
        assert(s.push(e).drop_first() =~= Seq::<GroupEntry>::empty());
    } else {
        assert(s.push(e).drop_first() =~= s.drop_first().push(e));
        lemma_find_group_push(s.drop_first(), e, n);
    }
}

/// The same, for the commands inside a group.
proof fn lemma_find_command_push(s: Seq<CommandEntry>, e: CommandEntry, n: Seq<char>)
    ensures
        spec_find_command(s.push(e), n) == if spec_find_command(s, n) is Some {
            spec_find_command(s, n)
        } else if e.metadata.name@ == n {
            Some(e)
        } else {
            None
        },
    decreases s.len(),
{
    if s.len() == 0 {
        assert(s.push(e).drop_first() =~= Seq::<CommandEntry>::empty());
    } else {
        assert(s.push(e).drop_first() =~= s.drop_first().push(e));
        lemma_find_command_push(s.drop_first(), e, n);
    }
}

/// Replacing the first group of a name with one of the same name keeps every
/// lookup under another name unchanged, and resolves that name to the
/// replacement.
proof fn lemma_find_group_update(s: Seq<GroupEntry>, i: int, ge: GroupEntry, n: Seq<char>)
    requires
        0 <= i < s.len(),
        ge.metadata.name@ == s[i].metadata.name@,
        forall|j: int| 0 <= j < i ==> s[j].metadata.name@ != s[i].metadata.name@,
    ensures
        n == s[i].metadata.name@ ==> spec_find_group(s.update(i, ge), n) == Some(ge),
        n != s[i].metadata.name@ ==> spec_find_group(s.update(i, ge), n) == spec_find_group(s, n),
    decreases s.len(),
{
    let s2 = s.update(i, ge);
    if i == 0 {
        if n != s[0].metadata.name@ {
            assert(s2.drop_first() =~= s.drop_first());
        }
    } else {
        assert(s2.drop_first() =~= s.drop_first().update(i - 1, ge));
        assert(forall|j: int|
            0 <= j < i - 1 ==> s.drop_first()[j].metadata.name@ == s[j + 1].metadata.name@);
        lemma_find_group_update(s.drop_first(), i - 1, ge, n);
        assert(s2[0] == s[0]);
    }
}

/// The command table: group entries in registration order.
pub struct Registry {
    pub groups: Vec<GroupEntry>,
}

impl Registry {
    /// The group registered under `name`, if any.
    pub open spec fn spec_group(self, name: Seq<char>) -> Option<GroupEntry> {
        spec_find_group(self.groups@, name)
    }

    /// The command registered under the dotted path `group` `command`.
    pub open spec fn spec_lookup(self, group: Seq<char>, command: Seq<char>) -> Option<
        CommandEntry,
    > {
        match self.spec_group(group) {
            Some(ge) => spec_find_command(ge.commands@, command),
            None => None,
        }
    }

    pub fn new() -> (r: Registry)
        ensures
            forall|g: Seq<char>| r.spec_group(g) is None,
            forall|g: Seq<char>, c: Seq<char>| r.spec_lookup(g, c) is None,
    {
        Registry { groups: Vec::new() }
    }

    /// Index of the first group carrying `name`.
    fn find_group_index(&self, name: &str) -> (r: Option<usize>)
        ensures
            match r {
                Some(i) => i < self.groups@.len()
                    && self.groups@[i as int].metadata.name@ == name@
                    && self.spec_group(name@) == Some(self.groups@[i as int])
                    && (forall|j: int|
                        0 <= j < i ==> self.groups@[j].metadata.name@ != name@),
                None => self.spec_group(name@) is None,
            },
    {
        let n = self.groups.len();
        let mut i: usize = 0;
        proof {
            assert(self.groups@.skip(0) =~= self.groups@);
        }
        while i < n
            invariant
                n == self.groups@.len(),
                i <= n,
                spec_find_group(self.groups@, name@)
                    == spec_find_group(self.groups@.skip(i as int), name@),
                forall|j: int| 0 <= j < i ==> self.groups@[j].metadata.name@ != name@,
            decreases n - i,
        {
            proof {
                assert(self.groups@.skip(i as int)[0] == self.groups@[i as int]);
            }
            if str_eq(self.groups[i].metadata.name.as_str(), name) {
                return Some(i);
            }
            proof {
                assert(self.groups@.skip(i as int).drop_first()
                    =~= self.groups@.skip(i as int + 1));
            }
            i = i + 1;
        }
        proof {
            assert(self.groups@.skip(n as int) =~= Seq::<GroupEntry>::empty());
        }
        None
    }

    /// Registers a group; refused exactly when the name is already taken.
    pub fn add_group(&mut self, metadata: GroupMetadata) -> (r: Result<(), RegistryError>)
        ensures
            match r {
                Ok(()) => old(self).spec_group(metadata.name@) is None
                    && (final(self).spec_group(metadata.name@) matches Some(ge)
                        && ge.metadata.name@ == metadata.name@ && ge.commands@.len() == 0)
                    && (forall|g: Seq<char>|
                        g != metadata.name@ ==> final(self).spec_group(g) == old(self).spec_group(
                            g,
                        ))
                    && (forall|g: Seq<char>, c: Seq<char>|
                        g != metadata.name@ ==> final(self).spec_lookup(g, c) == old(self).spec_lookup(g, c))
                    && (forall|c: Seq<char>| final(self).spec_lookup(metadata.name@, c) is None),
                Err(e) => e == RegistryError::DuplicateGroup
                    && old(self).spec_group(metadata.name@) is Some && *final(self) == *old(self),
            },
    {
        match self.find_group_index(metadata.name.as_str()) {
            Some(_) => Err(RegistryError::DuplicateGroup),
            None => {
                let ghost old_groups = self.groups@;
                let ghost name_view = metadata.name@;
                let ge = GroupEntry { metadata, commands: Vec::new() };
                self.groups.push(ge);
                proof {
                    let e = self.groups@.last();
                    assert(self.groups@ =~= old_groups.push(e));
                    assert forall|g: Seq<char>|
                        #[trigger] spec_find_group(self.groups@, g) == if spec_find_group(
                            old_groups,
                            g,
                        ) is Some {
                            spec_find_group(old_groups, g)
                        } else if e.metadata.name@ == g {
                            Some(e)
                        } else {
                            None
                        } by {
                        lemma_find_group_push(old_groups, e, g);
                    }
                }
                Ok(())
            },
        }
    }

    /// Registers a command under an existing group; refused exactly when the
    /// group is unknown or a sibling already carries the command's name.
    pub fn add_command(&mut self, group: &str, metadata: CommandMetadata, kind: CommandKind) -> (r:
        Result<(), RegistryError>)
        ensures
            match r {
                Ok(()) => old(self).spec_group(group@) is Some
                    && old(self).spec_lookup(group@, metadata.name@) is None
                    && (final(self).spec_lookup(group@, metadata.name@) matches Some(e)
                        && e.metadata == metadata && e.kind == kind)
                    && (forall|g: Seq<char>, c: Seq<char>|
                        !(g == group@ && c == metadata.name@) ==> #[trigger] final(self).spec_lookup(g, c) == old(self).spec_lookup(g, c))
                    && (forall|g: Seq<char>|
                        (#[trigger] final(self).spec_group(g)) is Some == old(self).spec_group(
                            g,
                        ) is Some),
                Err(e) => *final(self) == *old(self) && match e {
                    RegistryError::NoSuchGroup => old(self).spec_group(group@) is None,
                    RegistryError::DuplicateCommand => old(self).spec_lookup(
                        group@,
                        metadata.name@,
                    ) is Some,
                    RegistryError::DuplicateGroup => false,
                },
            },
    {
        let i = match self.find_group_index(group) {
            Some(i) => i,
            None => {
                return Err(RegistryError::NoSuchGroup);
            },
        };
        let ghost old_groups = self.groups@;
        match find_command_index(&self.groups[i].commands, metadata.name.as_str()) {
            Some(_) => Err(RegistryError::DuplicateCommand),
            None => {
                let ghost cmd_name = metadata.name@;
                let mut ge = self.groups.remove(i);
                let ghost old_cmds = ge.commands@;
                let entry = CommandEntry { metadata, kind };
                let ghost entry_v = entry;
                ge.commands.push(entry);
                self.groups.insert(i, ge);
                proof {
                    let ge2 = self.groups@[i as int];
                    assert(self.groups@ =~= old_groups.update(i as int, ge2));
                    assert(ge2.commands@ =~= old_cmds.push(entry_v));
                    let e = entry_v;
                    assert(ge2.commands@.last() == entry_v);
                    assert forall|c: Seq<char>|
                        #[trigger] spec_find_command(ge2.commands@, c) == if spec_find_command(
                            old_cmds,
                            c,
                        ) is Some {
                            spec_find_command(old_cmds, c)
                        } else if e.metadata.name@ == c {
                            Some(e)
                        } else {
                            None
                        } by {
                        lemma_find_command_push(old_cmds, e, c);
                    }
                    assert forall|g: Seq<char>| true implies #[trigger] spec_find_group(
                        self.groups@,
                        g,
                    ) == if g == group@ {
                        Some(ge2)
                    } else {
                        spec_find_group(old_groups, g)
                    } by {
                        lemma_find_group_update(old_groups, i as int, ge2, g);
                    }
                }
                Ok(())
            },
        }
    }

    /// Resolves a full (group, command) path; `None` mirrors `UnknownCommand`.
    pub fn lookup<'a>(&'a self, group: &str, command: &str) -> (r: Option<&'a CommandEntry>)
        ensures
            match r {
                Some(e) => self.spec_lookup(group@, command@) == Some(*e),
                None => self.spec_lookup(group@, command@) is None,
            },
    {
        let i = match self.find_group_index(group) {
            Some(i) => i,
            None => {
                return None;
            },
        };
        let ge = &self.groups[i];
        match find_command_index(&ge.commands, command) {
            Some(j) => Some(&ge.commands[j]),
            None => None,
        }
    }

    /// The group registered under `name`, for help listing and completion.
    pub fn lookup_group<'a>(&'a self, name: &str) -> (r: Option<&'a GroupEntry>)
        ensures
            match r {
                Some(ge) => self.spec_group(name@) == Some(*ge),
                None => self.spec_group(name@) is None,
            },
    {
        match self.find_group_index(name) {
            Some(i) => Some(&self.groups[i]),
            None => None,
        }
    }

    /// The names of all groups, in registration order.
    pub fn group_names(&self) -> (r: Vec<String>)
        ensures
            r@.len() == self.groups@.len(),
            forall|j: int|
                0 <= j < r@.len() ==> r@[j]@ == self.groups@[j].metadata.name@,
    {
        let mut names: Vec<String> = Vec::new();
        let n = self.groups.len();
        let mut i: usize = 0;
        while i < n
            invariant
                n == self.groups@.len(),
                i <= n,
                names@.len() == i,
                forall|j: int| 0 <= j < i ==> names@[j]@ == self.groups@[j].metadata.name@,
            decreases n - i,
        {
            names.push(self.groups[i].metadata.name.clone());
            i = i + 1;
        }
        names
    }
}

/// Index of the first command carrying `name` in a command list.
pub fn find_command_index(cmds: &Vec<CommandEntry>, name: &str) -> (r: Option<usize>)
    ensures
        match r {
            Some(i) => i < cmds@.len() && cmds@[i as int].metadata.name@ == name@
                && spec_find_command(cmds@, name@) == Some(cmds@[i as int]),
            None => spec_find_command(cmds@, name@) is None,
        },
{
    let n = cmds.len();
    let mut i: usize = 0;
    proof {
        assert(cmds@.skip(0) =~= cmds@);
    }
    while i < n
        invariant
            n == cmds@.len(),
            i <= n,
            spec_find_command(cmds@, name@) == spec_find_command(cmds@.skip(i as int), name@),
        decreases n - i,
    {
        proof {
            assert(cmds@.skip(i as int)[0] == cmds@[i as int]);
        }
        if str_eq(cmds[i].metadata.name.as_str(), name) {
            return Some(i);
        }
        proof {
            assert(cmds@.skip(i as int).drop_first() =~= cmds@.skip(i as int + 1));
        }
        i = i + 1;
    }
    proof {
        assert(cmds@.skip(n as int) =~= Seq::<CommandEntry>::empty());
    }
    None
}

/// The names of a group's commands, in registration order.
pub fn command_names(ge: &GroupEntry) -> (r: Vec<String>)
    ensures
        r@.len() == ge.commands@.len(),
        forall|j: int| 0 <= j < r@.len() ==> r@[j]@ == ge.commands@[j].metadata.name@,
{
    let mut names: Vec<String> = Vec::new();
    let n = ge.commands.len();
    let mut i: usize = 0;
    while i < n
        invariant
            n == ge.commands@.len(),
            i <= n,
            names@.len() == i,
            forall|j: int| 0 <= j < i ==> names@[j]@ == ge.commands@[j].metadata.name@,
        decreases n - i,
    {
        names.push(ge.commands[i].metadata.name.clone());
        i = i + 1;
    }
    names
}

/// Registration is the only way a lookup can come to succeed: after a
/// registration that bound `e` under (`group`, `name`), that path resolves
/// to exactly `e`, and every path that resolved to nothing before still
/// resolves to nothing.
pub proof fn lemma_lookup_after_add(
    before: Registry,
    after: Registry,
    group: Seq<char>,
    name: Seq<char>,
    e: CommandEntry,
    g2: Seq<char>,
    c2: Seq<char>,
)
    requires
        after.spec_lookup(group, name) == Some(e),
        forall|g: Seq<char>, c: Seq<char>|
            !(g == group && c == name) ==> after.spec_lookup(g, c) == before.spec_lookup(g, c),
    ensures
        !(g2 == group && c2 == name) && before.spec_lookup(g2, c2) is None
            ==> after.spec_lookup(g2, c2) is None,
{
}

} // verus!
