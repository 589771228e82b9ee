use vstd::prelude::*;

verus! {

/// The message that sets the contract up: an optional administrator.
#[derive(Clone, Debug, PartialEq)]
pub struct InstantiateMsg {
    pub admin: Option<String>,
}

/// The messages that change the contract's state.
#[derive(Clone, Debug, PartialEq)]
pub enum ExecuteMsg {
    CreatePoll { poll_id: String, question: String, options: Vec<String> },
    Vote { poll_id: String, vote: String },
    DeletePoll { poll_id: String },
}

} // verus!
