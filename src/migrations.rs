//! Identity of the schema migrations; the statements themselves are run by
//! the store.
use vstd::prelude::*;

verus! {

/// The migration that creates the settings, shows, episodes and queue
/// tables.
#[derive(Debug, Clone, Copy)]
pub struct InitialMigration;

impl InitialMigration {
    /// The name under which the migration is recorded as applied.
    pub fn name(&self) -> (r: &'static str)
        ensures
            r@ == "Initial Migration"@,
    {
        "Initial Migration"
    }
}

} // verus!
