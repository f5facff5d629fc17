use vstd::prelude::*;

verus! {

/// Failures of the persistent store.
#[derive(Debug, Clone)]
pub enum DatabaseError {
    GenericError(String),
    MigrationError(String),
    NotFound(String),
    LockPoisoned,
}

impl DatabaseError {
    pub fn generic_error(message: String) -> (r: Self)
        ensures
            r == DatabaseError::GenericError(message),
    {
        DatabaseError::GenericError(message)
    }

    pub fn migration_error(message: String) -> (r: Self)
        ensures
            r == DatabaseError::MigrationError(message),
    {
        DatabaseError::MigrationError(message)
    }

    pub fn not_found(message: String) -> (r: Self)
        ensures
            r == DatabaseError::NotFound(message),
    {
        DatabaseError::NotFound(message)
    }

    /// The human-readable text of the error.
    pub open spec fn spec_message(&self) -> Seq<char> {
        match self {
            DatabaseError::GenericError(m) => "Database error: "@ + m@,
            DatabaseError::NotFound(m) => "Not found: "@ + m@,
            DatabaseError::MigrationError(m) => "Migration error: "@ + m@,
            DatabaseError::LockPoisoned => "Lock Poisoned "@,
        }
    }

    pub fn message(&self) -> (r: String)
        ensures
            r@ == self.spec_message(),
    {
        match self {
            DatabaseError::GenericError(m) => String::from_str("Database error: ").concat(m.as_str()),
            DatabaseError::NotFound(m) => String::from_str("Not found: ").concat(m.as_str()),
            DatabaseError::MigrationError(m) => String::from_str("Migration error: ").concat(
                m.as_str(),
            ),
            DatabaseError::LockPoisoned => String::from_str("Lock Poisoned "),
        }
    }
}

} // verus!
