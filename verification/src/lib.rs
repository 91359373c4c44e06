//! Core of an interactive shell for operating a distributed-ledger identity
//! network: a registry of hierarchical command groups, a typed parameter
//! parser, a session context (active wallet, pool and DID), a dynamic
//! completion engine, and a dispatcher that resolves a command line and
//! drives the in-memory identity service.

pub mod error;
pub mod params;
pub mod context;
pub mod metadata;
pub mod registry;
pub mod sdk;
pub mod pool;
pub mod qualify;
pub mod detach;
pub mod executor;
pub mod completion;
pub mod report;
pub mod strutil;
