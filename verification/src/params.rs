//! Per-invocation parameter bindings and the typed parameter parser.
//!
//! A `CommandParams` value maps parameter names to raw string values; the
//! parser layers required/optional/DID-shaped access on top of it.  An empty
//! string is present-but-empty, distinct from an absent parameter.

use vstd::prelude::*;

use crate::error::{CliError, ErrView};
use crate::strutil::str_eq;

verus! {

/// First-match lookup in an association list of character sequences.
pub open spec fn lookup(s: Seq<(Seq<char>, Seq<char>)>, k: Seq<char>) -> Option<Seq<char>>
    decreases s.len(),
{
    if s.len() == 0 {
        None
    } else if s[0].0 == k {
        Some(s[0].1)
    } else {
        lookup(s.drop_first(), k)
    }
}

/// The parameter bindings of one command invocation.  Later insertions of a
/// name shadow earlier ones, so the value observed through `get` is the most
/// recently inserted one.
pub struct CommandParams {
    entries: Vec<(String, String)>,
}

impl CommandParams {
    /// The bindings as an association list of character sequences.
    pub closed spec fn entries_view(self) -> Seq<(Seq<char>, Seq<char>)> {
        self.entries@.map_values(|e: (String, String)| (e.0@, e.1@))
    }

    /// The value bound to `name`, if any.
    pub open spec fn spec_get(self, name: Seq<char>) -> Option<Seq<char>> {
        lookup(self.entries_view(), name)
    }

    pub fn new() -> (r: CommandParams)
        ensures
            forall|k: Seq<char>| r.spec_get(k) is None,
            r.entries_view() == Seq::<(Seq<char>, Seq<char>)>::empty(),
    {
        let r = CommandParams { entries: Vec::new() };
        proof {
            assert(r.entries_view() =~= Seq::<(Seq<char>, Seq<char>)>::empty());
        }
        r
    }

    /// Binds `value` to `name`, shadowing any earlier binding of `name` and
    /// leaving every other name unchanged.
    pub fn insert(&mut self, name: &str, value: String)
        ensures
            final(self).spec_get(name@) == Some(value@),
            forall|k: Seq<char>|
                k != name@ ==> final(self).spec_get(k) == old(self).spec_get(k),
            final(self).entries_view() == old(self).entries_view().insert(0, (name@, value@)),
    {
        let ghost old_view = self.entries_view();
        self.entries.insert(0, (name.to_owned(), value));
        proof {
            assert(self.entries_view().drop_first() =~= old_view);
            assert(self.entries_view() =~= old_view.insert(0, (name@, value@)));
        }
    }

    /// The value bound to `name`, cloned out, or `None` when absent.
    pub fn get(&self, name: &str) -> (r: Option<String>)
        ensures
            match r {
                Some(v) => self.spec_get(name@) == Some(v@),
                None => self.spec_get(name@) is None,
            },
    {
        let n = self.entries.len();
        let mut i: usize = 0;
        proof {
            assert(self.entries_view().skip(0) =~= self.entries_view());
        }
        while i < n
            invariant
                n == self.entries.len(),
                i <= n,
                lookup(self.entries_view(), name@)
                    == lookup(self.entries_view().skip(i as int), name@),
            decreases n - i,
        {
            proof {
                assert(self.entries_view().skip(i as int)[0] == self.entries_view()[i as int]);
            }
            if str_eq(self.entries[i].0.as_str(), name) {
                return Some(self.entries[i].1.clone());
            }
            proof {
                assert(self.entries_view().skip(i as int).drop_first()
                    =~= self.entries_view().skip(i as int + 1));
            }
            i = i + 1;
        }
        proof {
            assert(self.entries_view().skip(n as int) =~= Seq::<(Seq<char>, Seq<char>)>::empty());
        }
        None
    }
}

/// A character of the base-58 alphabet (digits and letters without 0, O, I, l).
pub open spec fn is_base58_char(c: char) -> bool {
    (('1' as u32) <= (c as u32) && (c as u32) <= ('9' as u32))
    || (('A' as u32) <= (c as u32) && (c as u32) <= ('Z' as u32)
        && (c as u32) != ('I' as u32) && (c as u32) != ('O' as u32))
    || (('a' as u32) <= (c as u32) && (c as u32) <= ('z' as u32)
        && (c as u32) != ('l' as u32))
}

/// The sequence opens with the method prefix `did:`.
pub open spec fn has_did_prefix(s: Seq<char>) -> bool {
    s.len() >= 4 && s[0] == 'd' && s[1] == 'i' && s[2] == 'd' && s[3] == ':'
}

/// The accepted shape of a DID parameter: either a fully qualified form
/// (`did:` followed by at least one character) or a non-empty base-58 string.
pub open spec fn valid_did(s: Seq<char>) -> bool {
    if has_did_prefix(s) {
        s.len() > 4
    } else {
        s.len() > 0 && forall|i: int| 0 <= i < s.len() ==> is_base58_char(s[i])
    }
}

fn is_base58_char_exec(c: char) -> (r: bool)
    ensures
        r == is_base58_char(c),
{
    let u = c as u32;
    (('1' as u32) <= u && u <= ('9' as u32))
    || (('A' as u32) <= u && u <= ('Z' as u32) && u != ('I' as u32) && u != ('O' as u32))
    || (('a' as u32) <= u && u <= ('z' as u32) && u != ('l' as u32))
}

/// Decides whether `s` has the accepted DID shape.
pub fn check_did(s: &str) -> (r: bool)
    ensures
        r == valid_did(s@),
{
    let n = s.unicode_len();
    if n >= 4 && s.get_char(0) == 'd' && s.get_char(1) == 'i' && s.get_char(2) == 'd'
        && s.get_char(3) == ':' {
        return n > 4;
    }
    if n == 0 {
        return false;
    }
    let mut i: usize = 0;
    while i < n
        invariant
            n == s@.len(),
            i <= n,
            !has_did_prefix(s@),
            n > 0,
            forall|j: int| 0 <= j < i ==> is_base58_char(s@[j]),
        decreases n - i,
    {
        if !is_base58_char_exec(s.get_char(i)) {
            return false;
        }
        i = i + 1;
    }
    true
}

/// The typed access layer over `CommandParams`.
pub struct ParamParser;

impl ParamParser {
    /// A required string parameter: absence is a `MissingParameter` error,
    /// presence (even of an empty value) is success.
    pub fn get_str_param(name: &str, params: &CommandParams) -> (r: Result<String, CliError>)
        ensures
            match r {
                Ok(v) => params.spec_get(name@) == Some(v@),
                Err(e) => params.spec_get(name@) is None
                    && e@ == ErrView::MissingParameter(name@),
            },
    {
        match params.get(name) {
            Some(v) => Ok(v),
            None => Err(CliError::MissingParameter(name.to_owned())),
        }
    }

    /// An optional string parameter: absence is `None`, never an error.
    pub fn get_opt_str_param(name: &str, params: &CommandParams) -> (r: Result<
        Option<String>,
        CliError,
    >)
        ensures
            r matches Ok(o) && match o {
                Some(v) => params.spec_get(name@) == Some(v@),
                None => params.spec_get(name@) is None,
            },
    {
        match params.get(name) {
            Some(v) => Ok(Some(v)),
            None => Ok(None),
        }
    }

    /// A required DID parameter: absence is `MissingParameter`, a present but
    /// ill-shaped value is `InvalidParameterFormat`.
    pub fn get_did_param(name: &str, params: &CommandParams) -> (r: Result<String, CliError>)
        ensures
            match r {
                Ok(v) => params.spec_get(name@) == Some(v@) && valid_did(v@),
                Err(e) => match e@ {
                    ErrView::MissingParameter(n) => n == name@
                        && params.spec_get(name@) is None,
                    ErrView::InvalidParameterFormat(n) => n == name@
                        && (params.spec_get(name@) matches Some(v) && !valid_did(v)),
                    _ => false,
                },
            },
    {
        match params.get(name) {
            Some(v) => {
                if check_did(v.as_str()) {
                    Ok(v)
                } else {
                    Err(CliError::InvalidParameterFormat(name.to_owned()))
                }
            },
            None => Err(CliError::MissingParameter(name.to_owned())),
        }
    }
}

} // verus!
