//! The error kinds of the engine, from the policy outwards, and what the
//! service boundary answers for each.
use vstd::prelude::*;

verus! {

/// What a policy refuses.
#[derive(Clone, Debug)]
pub enum PolicyError {
    /// A draw found no arm to choose from.
    NoArmsAvailable,
    /// The policy holds no arm under the handle.
    ArmNotFound(usize),
    /// A sample could not be taken; the text says why.
    SamplingError(String),
}

/// What an experiment refuses.
#[derive(Clone, Debug)]
pub enum ExperimentError {
    /// The experiment has no policy: it was restarted and its snapshot has
    /// not arrived.
    NoPolicy,
    /// The policy refused the command.
    PolicyError(PolicyError),
}

/// Why a message did not reach an actor.
#[derive(Clone, Copy, Debug, PartialEq, Eq, Structural)]
pub enum MailboxFailure {
    /// The actor's mailbox is closed.
    Closed,
    /// The message was not taken in time.
    Timeout,
}

/// What the repository refuses.
#[derive(Clone, Debug)]
pub enum RepositoryError {
    /// The repository holds no experiment under the identifier.
    ExperimentNotFound(u128),
    /// The experiment did not take the command.
    ExperimentUnavailable(u128),
    /// The state store did not answer.
    StorageUnavailable,
    /// The experiment refused the command.
    Experiment(ExperimentError),
}

/// Why the catalog could not be written.
#[derive(Clone, Debug)]
pub enum PersistenceError {
    /// The file could not be written; the text is the cause.
    Io(String),
    /// The catalog could not be put into text; the text is the cause.
    Serialization(String),
}

/// What the boundary answers with.
#[derive(Clone, Debug)]
pub enum ApiError {
    /// The identifier in the request is no UUID; the text is the cause.
    InvalidUuid(String),
    /// The repository refused the request.
    Service(RepositoryError),
    /// The catalog could not be written.
    Persistence(PersistenceError),
}

impl From<PolicyError> for ExperimentError {
    fn from(error: PolicyError) -> (wrapped: ExperimentError) {
        ExperimentError::PolicyError(error)
    }
}

impl vstd::std_specs::convert::FromSpecImpl<PolicyError> for ExperimentError {
    open spec fn obeys_from_spec() -> bool {
        true
    }

    open spec fn from_spec(error: PolicyError) -> ExperimentError {
        ExperimentError::PolicyError(error)
    }
}

impl From<ExperimentError> for RepositoryError {
    fn from(error: ExperimentError) -> (wrapped: RepositoryError) {
        RepositoryError::Experiment(error)
    }
}

impl vstd::std_specs::convert::FromSpecImpl<ExperimentError> for RepositoryError {
    open spec fn obeys_from_spec() -> bool {
        true
    }

    open spec fn from_spec(error: ExperimentError) -> RepositoryError {
        RepositoryError::Experiment(error)
    }
}

impl From<RepositoryError> for ApiError {
    fn from(error: RepositoryError) -> (wrapped: ApiError) {
        ApiError::Service(error)
    }
}

impl vstd::std_specs::convert::FromSpecImpl<RepositoryError> for ApiError {
    open spec fn obeys_from_spec() -> bool {
        true
    }

    open spec fn from_spec(error: RepositoryError) -> ApiError {
        ApiError::Service(error)
    }
}

impl From<PersistenceError> for ApiError {
    fn from(error: PersistenceError) -> (wrapped: ApiError) {
        ApiError::Persistence(error)
    }
}

impl vstd::std_specs::convert::FromSpecImpl<PersistenceError> for ApiError {
    open spec fn obeys_from_spec() -> bool {
        true
    }

    open spec fn from_spec(error: PersistenceError) -> ApiError {
        ApiError::Persistence(error)
    }
}

/// The HTTP status for a request that cannot be understood or that the
/// policy refuses.
pub const BAD_REQUEST: u16 = 400;

/// The HTTP status for an experiment that does not exist.
pub const NOT_FOUND: u16 = 404;

/// The HTTP status for a snapshot that could not be written.
pub const INTERNAL_SERVER_ERROR: u16 = 500;

/// The HTTP status for an actor or a store that cannot be reached.
pub const SERVICE_UNAVAILABLE: u16 = 503;

impl ApiError {
    /// The HTTP status that the error is answered with: 400 for a request
    /// that cannot be understood or that the experiment or its policy
    /// refuses, 404 for an experiment that does not exist, 503 for an actor
    /// or a store that cannot be reached, 500 for a catalog that could not
    /// be written.
    pub open spec fn status(self) -> u16 {
        match self {
            ApiError::InvalidUuid(_) => BAD_REQUEST,
            ApiError::Service(RepositoryError::ExperimentNotFound(_)) => NOT_FOUND,
            ApiError::Service(RepositoryError::ExperimentUnavailable(_)) => SERVICE_UNAVAILABLE,
            ApiError::Service(RepositoryError::StorageUnavailable) => SERVICE_UNAVAILABLE,
            ApiError::Service(RepositoryError::Experiment(_)) => BAD_REQUEST,
            ApiError::Persistence(_) => INTERNAL_SERVER_ERROR,
        }
    }

    /// The HTTP status that the error is answered with.
    pub fn status_code(&self) -> (code: u16)
        ensures
            code == self.status(),
    {
        match self {
            ApiError::InvalidUuid(_) => BAD_REQUEST,
            ApiError::Service(repository) => match repository {
                RepositoryError::ExperimentNotFound(_) => NOT_FOUND,
                RepositoryError::ExperimentUnavailable(_) => SERVICE_UNAVAILABLE,
                RepositoryError::StorageUnavailable => SERVICE_UNAVAILABLE,
                RepositoryError::Experiment(_) => BAD_REQUEST,
            },
            ApiError::Persistence(_) => INTERNAL_SERVER_ERROR,
        }
    }

    /// The name of the error's kind in the body of the answer.
    pub fn kind(&self) -> (name: &'static str)
        ensures
            name@ == match *self {
                ApiError::InvalidUuid(_) => "InvalidUuid"@,
                ApiError::Service(RepositoryError::ExperimentUnavailable(_)) => "MailboxError"@,
                ApiError::Service(RepositoryError::StorageUnavailable) => "MailboxError"@,
                ApiError::Service(_) => "RepositoryError"@,
                ApiError::Persistence(_) => "PersistenceError"@,
            },
    {
        match self {
            ApiError::InvalidUuid(_) => "InvalidUuid",
            ApiError::Service(repository) => match repository {
                RepositoryError::ExperimentUnavailable(_) => "MailboxError",
                RepositoryError::StorageUnavailable => "MailboxError",
                _ => "RepositoryError",
            },
            ApiError::Persistence(_) => "PersistenceError",
        }
    }
}

} // verus!
