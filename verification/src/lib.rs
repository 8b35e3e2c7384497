//! Classification of publishing commands and of the registries they publish
//! to, and the rules that decide when a CI step should be told to prefer
//! Trusted Publishing over a manually configured credential.
use vstd::prelude::*;

pub mod audit;
pub mod candidates;
pub mod publish;
pub mod registry;
pub mod shell;
pub mod text;

use audit::{known_actions_ok, known_trusted_publishing_actions, KnownAction};
use shell::{command_query, is_command_query, query_indices, SpannedQuery};

verus! {

/// The audit that recommends Trusted Publishing over manually configured
/// publishing credentials.
pub struct UseTrustedPublishing {
    bash_command_query: SpannedQuery,
    pwsh_command_query: SpannedQuery,
    known_actions: Vec<KnownAction>,
}

/// Why the audit could not be set up.
#[derive(Clone, Copy, Debug, PartialEq, Eq, Structural)]
pub enum AuditLoadError {
    /// A command query does not compile for its grammar, or lacks one of
    /// its captures.
    InvalidQuery,
}

impl UseTrustedPublishing {
    #[verifier::type_invariant]
    spec fn well_formed(self) -> bool {
        &&& known_actions_ok(self.known_actions@)
        &&& is_command_query(self.bash_command_query, true)
        &&& is_command_query(self.pwsh_command_query, false)
    }

    /// The table of known publishing actions that the audit checks steps
    /// against.
    pub closed spec fn known_actions(self) -> Seq<KnownAction> {
        self.known_actions@
    }

    /// Set up the audit: look up the captures of the command queries and
    /// build the table of known publishing actions. It succeeds exactly when
    /// both queries compile for their grammars with all their captures.
    pub fn new() -> (r: Result<UseTrustedPublishing, AuditLoadError>)
        ensures
            r is Ok <==> (query_indices(true, command_query(true)) is Some && query_indices(
                false,
                command_query(false),
            ) is Some),
            r matches Ok(a) ==> known_actions_ok(a.known_actions()),
    {
        let bash_command_query = match SpannedQuery::bash() {
            Some(q) => q,
            None => return Err(AuditLoadError::InvalidQuery),
        };
        let pwsh_command_query = match SpannedQuery::pwsh() {
            Some(q) => q,
            None => return Err(AuditLoadError::InvalidQuery),
        };
        Ok(
            UseTrustedPublishing {
                bash_command_query,
                pwsh_command_query,
                known_actions: known_trusted_publishing_actions(),
            },
        )
    }
}

} // verus!
