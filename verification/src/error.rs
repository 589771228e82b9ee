use vstd::prelude::*;

verus! {

/// `cosmwasm_std::StdError`, the error of the chain's standard services (storage, address
/// checks). Nothing is known of its contents; the library only carries it along.
#[verifier::external_type_specification]
#[verifier::external_body]
pub struct ExStdError(cosmwasm_std::StdError);

/// Why the contract refuses a message.
#[derive(Debug, PartialEq)]
pub enum ContractError {
    /// A standard service of the chain failed.
    Std(cosmwasm_std::StdError),
    /// A poll is created with more than five options.
    TooManyOptions {},
    /// A vote names a poll that is not stored.
    PollNotFound {},
    /// A vote names an option that the poll does not have.
    VoteOptionNotFound {},
}

/// The kind of a `ContractError`, without the payload of a failed service.
pub enum ErrorKind {
    Std,
    TooManyOptions,
    PollNotFound,
    VoteOptionNotFound,
}

impl View for ContractError {
    type V = ErrorKind;

    open spec fn view(&self) -> ErrorKind {
        match self {
            ContractError::Std(_) => ErrorKind::Std,
            ContractError::TooManyOptions {  } => ErrorKind::TooManyOptions,
            ContractError::PollNotFound {  } => ErrorKind::PollNotFound,
            ContractError::VoteOptionNotFound {  } => ErrorKind::VoteOptionNotFound,
        }
    }
}

} // verus!
