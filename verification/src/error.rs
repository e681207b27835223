//! The error vocabulary shared by the transport and the pipeline.
use vstd::prelude::*;

verus! {

/// Everything that can go wrong in the signing and deletion workflow.
#[derive(Debug)]
pub enum DtaError {
    /// A network failure, a timeout, or a non-2xx response.
    TransportError,
    /// An authenticated call was attempted with no loaded user credential.
    SigningPrerequisiteMissing,
    /// Expected token fields were absent from a login response.
    CredentialExchangeFailed,
    /// A specific delete call did not succeed; carries the offending id.
    ActionFailed { id: String },
}

/// Equality of two errors, up to the character contents of the carried id.
pub open spec fn spec_err_eq(a: DtaError, b: DtaError) -> bool {
    match (a, b) {
        (DtaError::TransportError, DtaError::TransportError) => true,
        (DtaError::SigningPrerequisiteMissing, DtaError::SigningPrerequisiteMissing) => true,
        (DtaError::CredentialExchangeFailed, DtaError::CredentialExchangeFailed) => true,
        (DtaError::ActionFailed { id: x }, DtaError::ActionFailed { id: y }) => x@ == y@,
        _ => false,
    }
}

impl PartialEq for DtaError {
    fn eq(&self, other: &DtaError) -> (r: bool)
        ensures
            r == spec_err_eq(*self, *other),
    {
        match (self, other) {
            (DtaError::TransportError, DtaError::TransportError) => true,
            (DtaError::SigningPrerequisiteMissing, DtaError::SigningPrerequisiteMissing) => true,
            (DtaError::CredentialExchangeFailed, DtaError::CredentialExchangeFailed) => true,
            (DtaError::ActionFailed { id: a }, DtaError::ActionFailed { id: b }) => a.eq(b),
            _ => false,
        }
    }
}

impl vstd::std_specs::cmp::PartialEqSpecImpl for DtaError {
    open spec fn obeys_eq_spec() -> bool {
        true
    }

    open spec fn eq_spec(&self, other: &DtaError) -> bool {
        spec_err_eq(*self, *other)
    }
}

impl DtaError {
    /// The description that `describe` returns for this error.
    pub open spec fn spec_describe(self) -> Seq<char> {
        match self {
            DtaError::TransportError => "transport error"@,
            DtaError::SigningPrerequisiteMissing => "credential is not loaded"@,
            DtaError::CredentialExchangeFailed => "expected token fields are missing"@,
            DtaError::ActionFailed { .. } => "an action failed"@,
        }
    }

    /// A short description, usable where the caller wants to print the error.
    pub fn describe(&self) -> (r: &'static str)
        ensures
            r@ == self.spec_describe(),
    {
        match self {
            DtaError::TransportError => "transport error",
            DtaError::SigningPrerequisiteMissing => "credential is not loaded",
            DtaError::CredentialExchangeFailed => "expected token fields are missing",
            DtaError::ActionFailed { .. } => "an action failed",
        }
    }
}

} // verus!
