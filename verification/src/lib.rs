//! Persistence and orchestration core of a novel-writing assistant.
//!
//! The library models a project's on-disk document tree as an explicit
//! in-memory value ([`store::ProjectFiles`]) and verifies every store
//! operation, the prompt builder, and the LLM request/response logic
//! against that model.  The thin shell that performs the actual file,
//! keyring and network calls lives outside the verified library.

pub mod atomic;
pub mod llm;
pub mod paths;
pub mod prompt;
pub mod secure;
pub mod store;
pub mod strutil;
pub mod types;

use vstd::prelude::*;

verus! {

/// A document file as found on disk: absent, present but undecodable,
/// or decoded to a value.
#[derive(Clone, Debug)]
pub enum Doc<T> {
    Absent,
    Malformed,
    Present(T),
}

impl<T> Doc<T> {
    pub open spec fn is_present(self) -> bool {
        self matches Doc::Present(_)
    }

    pub open spec fn value(self) -> T
        recommends
            self.is_present(),
    {
        match self {
            Doc::Present(v) => v,
            _ => arbitrary(),
        }
    }
}

} // verus!
