//! Find changes on a Gerrit server, choose among them, and fetch the chosen
//! ones into the local checkout.
//!
//! The crate holds every decision of that tool and none of its effects:
//! - `settings` reads the command line, `repo_info` what `git` and `repo`
//!   say of the checkout;
//! - `remote` puts a query to the server over SSH or HTTP and turns the raw
//!   answer into one JSON document;
//! - `commit_info` reads a change from a record of either wire schema;
//! - `selection` resolves a choice of changes to the set of references to
//!   fetch, and takes in the changes of their topics;
//! - `batch` plans one command for each reference and runs the protocol of
//!   their execution;
//! - `session` strings all of this together as a machine that is told what
//!   happened outside and says what to do next.
//!
//! `json_spec` and `getopts_spec` state what is relied on from the crates
//! `json` and `getopts`; `text` holds the operations on character
//! sequences that the contracts are written in.

pub mod batch;
pub mod commit_info;
pub mod getopts_spec;
pub mod json_spec;
pub mod remote;
pub mod repo_info;
pub mod selection;
pub mod session;
pub mod settings;
pub mod text;
