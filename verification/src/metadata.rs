//! Declarative description of a command: its name, help text, parameter
//! specifications, usage examples and declared context requirements.
//! Metadata is built once through `CommandMetadata::build` and never changes
//! afterwards.

use vstd::prelude::*;

verus! {

/// Which live data source feeds value completion for a parameter.
#[derive(Clone, Copy, Debug, PartialEq, Eq, Structural)]
pub enum DynamicCompletionType {
    /// DIDs known in the currently open wallet.
    Did,
    /// Names of the attached wallets.
    Wallet,
    /// Names of the existing pool configurations.
    Pool,
}

/// The specification of one parameter of a command.
pub struct ParamSpec {
    pub name: String,
    pub help: String,
    /// A required parameter must be bound before the command may run.
    pub required: bool,
    /// The main parameter is filled by the leading bare token of the line.
    pub is_main: bool,
    /// Dynamic completion source for values of this parameter, if any.
    pub completion: Option<DynamicCompletionType>,
}

/// Spec-level image of `ParamSpec`.
pub struct ParamSpecV {
    pub name: Seq<char>,
    pub help: Seq<char>,
    pub required: bool,
    pub is_main: bool,
    pub completion: Option<DynamicCompletionType>,
}

impl View for ParamSpec {
    type V = ParamSpecV;

    open spec fn view(&self) -> ParamSpecV {
        ParamSpecV {
            name: self.name@,
            help: self.help@,
            required: self.required,
            is_main: self.is_main,
            completion: self.completion,
        }
    }
}

/// The immutable description of a command.
pub struct CommandMetadata {
    pub name: String,
    pub help: String,
    pub params: Vec<ParamSpec>,
    pub examples: Vec<String>,
    /// The command declares that a wallet must be open before it runs.
    pub requires_opened_wallet: bool,
    /// The command declares that a pool must be connected before it runs.
    pub requires_connected_pool: bool,
}

/// Spec-level image of `CommandMetadata`.
pub struct CommandMetadataV {
    pub name: Seq<char>,
    pub help: Seq<char>,
    pub params: Seq<ParamSpecV>,
    pub examples: Seq<Seq<char>>,
    pub requires_opened_wallet: bool,
    pub requires_connected_pool: bool,
}

impl View for CommandMetadata {
    type V = CommandMetadataV;

    open spec fn view(&self) -> CommandMetadataV {
        CommandMetadataV {
            name: self.name@,
            help: self.help@,
            params: self.params@.map_values(|p: ParamSpec| p@),
            examples: self.examples@.map_values(|e: String| e@),
            requires_opened_wallet: self.requires_opened_wallet,
            requires_connected_pool: self.requires_connected_pool,
        }
    }
}

/// Some parameter of the list is the main positional one.
pub open spec fn has_main_param(params: Seq<ParamSpecV>) -> bool {
    exists|i: int| 0 <= i < params.len() && params[i].is_main
}

/// Accumulates the pieces of a `CommandMetadata`; `finalize` seals it.
pub struct CommandMetadataBuilder {
    name: String,
    help: String,
    params: Vec<ParamSpec>,
    examples: Vec<String>,
    requires_opened_wallet: bool,
    requires_connected_pool: bool,
}

impl View for CommandMetadataBuilder {
    type V = CommandMetadataV;

    closed spec fn view(&self) -> CommandMetadataV {
        CommandMetadataV {
            name: self.name@,
            help: self.help@,
            params: self.params@.map_values(|p: ParamSpec| p@),
            examples: self.examples@.map_values(|e: String| e@),
            requires_opened_wallet: self.requires_opened_wallet,
            requires_connected_pool: self.requires_connected_pool,
        }
    }
}

impl CommandMetadata {
    /// Opens a builder for a command with the given name and help text.
    pub fn build(name: &str, help: &str) -> (r: CommandMetadataBuilder)
        ensures
            r@.name == name@,
            r@.help == help@,
            r@.params == Seq::<ParamSpecV>::empty(),
            r@.examples == Seq::<Seq<char>>::empty(),
            !r@.requires_opened_wallet,
            !r@.requires_connected_pool,
    {
        let r = CommandMetadataBuilder {
            name: name.to_owned(),
            help: help.to_owned(),
            params: Vec::new(),
            examples: Vec::new(),
            requires_opened_wallet: false,
            requires_connected_pool: false,
        };
        proof {
            assert(r@.params =~= Seq::<ParamSpecV>::empty());
            assert(r@.examples =~= Seq::<Seq<char>>::empty());
        }
        r
    }
}

impl CommandMetadataBuilder {
    /// Adds the single main positional parameter; it is declared first.
    pub fn add_main_param(self, name: &str, help: &str) -> (r: CommandMetadataBuilder)
        requires
            self@.params.len() == 0,
        ensures
            r@ == (CommandMetadataV {
                params: self@.params.push(
                    ParamSpecV {
                        name: name@,
                        help: help@,
                        required: true,
                        is_main: true,
                        completion: None,
                    },
                ),
                ..self@
            }),
    {
        self.push_param(name, help, true, true, None)
    }

    /// Adds the main positional parameter together with its completion source.
    pub fn add_main_param_with_dynamic_completion(
        self,
        name: &str,
        help: &str,
        completion: DynamicCompletionType,
    ) -> (r: CommandMetadataBuilder)
        requires
            self@.params.len() == 0,
        ensures
            r@ == (CommandMetadataV {
                params: self@.params.push(
                    ParamSpecV {
                        name: name@,
                        help: help@,
                        required: true,
                        is_main: true,
                        completion: Some(completion),
                    },
                ),
                ..self@
            }),
    {
        self.push_param(name, help, true, true, Some(completion))
    }

    /// Adds a named parameter; `optional` marks it as one that may be absent.
    pub fn add_param(self, name: &str, optional: bool, help: &str) -> (r: CommandMetadataBuilder)
        ensures
            r@ == (CommandMetadataV {
                params: self@.params.push(
                    ParamSpecV {
                        name: name@,
                        help: help@,
                        required: !optional,
                        is_main: false,
                        completion: None,
                    },
                ),
                ..self@
            }),
    {
        self.push_param(name, help, !optional, false, None)
    }

    /// Adds a named parameter that must be bound on every invocation.
    pub fn add_required_param(self, name: &str, help: &str) -> (r: CommandMetadataBuilder)
        ensures
            r@ == (CommandMetadataV {
                params: self@.params.push(
                    ParamSpecV {
                        name: name@,
                        help: help@,
                        required: true,
                        is_main: false,
                        completion: None,
                    },
                ),
                ..self@
            }),
    {
        self.push_param(name, help, true, false, None)
    }

    /// Adds a named parameter that may be absent.
    pub fn add_optional_param(self, name: &str, help: &str) -> (r: CommandMetadataBuilder)
        ensures
            r@ == (CommandMetadataV {
                params: self@.params.push(
                    ParamSpecV {
                        name: name@,
                        help: help@,
                        required: false,
                        is_main: false,
                        completion: None,
                    },
                ),
                ..self@
            }),
    {
        self.push_param(name, help, false, false, None)
    }

    fn push_param(
        self,
        name: &str,
        help: &str,
        required: bool,
        is_main: bool,
        completion: Option<DynamicCompletionType>,
    ) -> (r: CommandMetadataBuilder)
        ensures
            r@ == (CommandMetadataV {
                params: self@.params.push(
                    ParamSpecV {
                        name: name@,
                        help: help@,
                        required: required,
                        is_main: is_main,
                        completion: completion,
                    },
                ),
                ..self@
            }),
    {
        let ghost old_params = self@.params;
        let mut b = self;
        b.params.push(
            ParamSpec {
                name: name.to_owned(),
                help: help.to_owned(),
                required,
                is_main,
                completion,
            },
        );
        proof {
            assert(b@.params =~= old_params.push(
                ParamSpecV {
                    name: name@,
                    help: help@,
                    required: required,
                    is_main: is_main,
                    completion: completion,
                },
            ));
        }
        b
    }

    /// Adds one usage example line.
    pub fn add_example(self, example: &str) -> (r: CommandMetadataBuilder)
        ensures
            r@ == (CommandMetadataV { examples: self@.examples.push(example@), ..self@ }),
    {
        let ghost old_examples = self@.examples;
        let mut b = self;
        b.examples.push(example.to_owned());
        proof {
            assert(b@.examples =~= old_examples.push(example@));
        }
        b
    }

    /// Declares that the command needs an open wallet before it runs.
    pub fn require_opened_wallet(self) -> (r: CommandMetadataBuilder)
        ensures
            r@ == (CommandMetadataV { requires_opened_wallet: true, ..self@ }),
    {
        let mut b = self;
        b.requires_opened_wallet = true;
        b
    }

    /// Declares that the command needs a connected pool before it runs.
    pub fn require_connected_pool(self) -> (r: CommandMetadataBuilder)
        ensures
            r@ == (CommandMetadataV { requires_connected_pool: true, ..self@ }),
    {
        let mut b = self;
        b.requires_connected_pool = true;
        b
    }

    /// Seals the accumulated description.
    pub fn finalize(self) -> (r: CommandMetadata)
        ensures
            r@ == self@,
    {
        CommandMetadata {
            name: self.name,
            help: self.help,
            params: self.params,
            examples: self.examples,
            requires_opened_wallet: self.requires_opened_wallet,
            requires_connected_pool: self.requires_connected_pool,
        }
    }
}

/// The description of a command group: its name and a short help line.
pub struct GroupMetadata {
    pub name: String,
    pub help: String,
}

impl GroupMetadata {
    pub fn new(name: &str, help: &str) -> (r: GroupMetadata)
        ensures
            r.name@ == name@,
            r.help@ == help@,
    {
        GroupMetadata { name: name.to_owned(), help: help.to_owned() }
    }
}

} // verus!
