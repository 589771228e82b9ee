use vstd::prelude::*;

use crate::decimal::{decimal, to_decimal_string};
use crate::error::{ContractError, ErrorKind};
use crate::msg::{ExecuteMsg, InstantiateMsg};
use crate::response::Response;
use crate::state::{
    find_option, lemma_position_exists, lemma_position_same_names, options_view, position, Ballot,
    Config, Poll, PollView,
};

verus! {

/// The most options a poll may have.
pub const MAX_OPTIONS: usize = 5;

/// A write to the contract's storage that an accepted message asks for.
#[derive(Clone, Debug, PartialEq)]
pub enum StorageWrite {
    /// Store `poll` under `poll_id`, replacing what was there.
    Poll { poll_id: String, poll: Poll },
    /// Store `ballot` as the choice of `voter` in the poll `poll_id`.
    Ballot { voter: String, poll_id: String, ballot: Ballot },
}

pub enum WriteView {
    Poll { poll_id: Seq<char>, poll: PollView },
    Ballot { voter: Seq<char>, poll_id: Seq<char>, choice: Seq<char> },
}

impl View for StorageWrite {
    type V = WriteView;

    open spec fn view(&self) -> WriteView {
        match self {
            StorageWrite::Poll { poll_id, poll } => WriteView::Poll { poll_id: poll_id@, poll: poll@ },
            StorageWrite::Ballot { voter, poll_id, ballot } => WriteView::Ballot {
                voter: voter@,
                poll_id: poll_id@,
                choice: ballot@,
            },
        }
    }
}

/// What an accepted message does: the writes to storage, in order, and the answer.
#[derive(Clone, Debug, PartialEq)]
pub struct Execution {
    pub writes: Vec<StorageWrite>,
    pub response: Response,
}

#[verifier::ext_equal]
pub struct ExecutionView {
    pub writes: Seq<WriteView>,
    pub response: Seq<(Seq<char>, Seq<char>)>,
}

impl View for Execution {
    type V = ExecutionView;

    open spec fn view(&self) -> ExecutionView {
        ExecutionView {
            writes: self.writes@.map_values(|w: StorageWrite| w@),
            response: self.response@,
        }
    }
}

/// What setting the contract up does: the configuration to store, and the answer.
#[derive(Clone, Debug, PartialEq)]
pub struct Instantiation {
    pub config: Config,
    pub response: Response,
}

pub open spec fn outcome(r: Result<Execution, ContractError>) -> Result<ExecutionView, ErrorKind> {
    match r {
        Ok(e) => Ok(e@),
        Err(e) => Err(e@),
    }
}

pub open spec fn poll_view(p: Option<Poll>) -> Option<PollView> {
    match p {
        Some(p) => Some(p@),
        None => None,
    }
}

pub open spec fn ballot_choice(b: Option<Ballot>) -> Option<Seq<char>> {
    match b {
        Some(b) => Some(b@),
        None => None,
    }
}

pub open spec fn names_view(names: Seq<String>) -> Seq<Seq<char>> {
    names.map_values(|n: String| n@)
}

/// Options with the given names, in order, none with a vote.
pub open spec fn fresh_options(names: Seq<Seq<char>>) -> Seq<(Seq<char>, u64)> {
    names.map_values(|n: Seq<char>| (n, 0u64))
}

/// Creating a poll: refused with more than `MAX_OPTIONS` options; else the poll is stored with
/// every option at zero votes.
pub open spec fn create_poll_outcome(
    creator: Seq<char>,
    poll_id: Seq<char>,
    question: Seq<char>,
    names: Seq<Seq<char>>,
) -> Result<ExecutionView, ErrorKind> {
    if names.len() > MAX_OPTIONS {
        Err(ErrorKind::TooManyOptions)
    } else {
        Ok(
            ExecutionView {
                writes: seq![
                    WriteView::Poll {
                        poll_id,
                        poll: PollView { creator, question, options: fresh_options(names) },
                    },
                ],
                response: seq![("action"@, "create_poll"@), ("poll_id"@, poll_id)],
            },
        )
    }
}

pub open spec fn set_count(options: Seq<(Seq<char>, u64)>, i: int, count: int) -> Seq<
    (Seq<char>, u64),
> {
    options.update(i, (options[i].0, count as u64))
}

/// The options after the voter's previous choice, if any, lost its vote.
pub open spec fn revoked(options: Seq<(Seq<char>, u64)>, previous: Option<Seq<char>>) -> Seq<
    (Seq<char>, u64),
> {
    match previous {
        Some(p) => match position(options, p) {
            Some(i) => set_count(options, i, options[i].1 - 1),
            None => options,
        },
        None => options,
    }
}

/// The options after the previous choice lost its vote and `choice` gained one.
pub open spec fn recounted(
    options: Seq<(Seq<char>, u64)>,
    previous: Option<Seq<char>>,
    choice: Seq<char>,
) -> Seq<(Seq<char>, u64)> {
    let r = revoked(options, previous);
    match position(options, choice) {
        Some(i) => set_count(r, i, r[i].1 + 1),
        None => r,
    }
}

/// The number of votes over all the options.
pub open spec fn total_votes(options: Seq<(Seq<char>, u64)>) -> int
    decreases options.len(),
{
    if options.len() == 0 {
        0
    } else {
        total_votes(options.drop_last()) + options.last().1
    }
}

proof fn lemma_total_set_count(options: Seq<(Seq<char>, u64)>, i: int, count: int)
    requires
        0 <= i < options.len(),
        0 <= count <= u64::MAX,
    ensures
        total_votes(set_count(options, i, count)) == total_votes(options) - options[i].1 + count,
    decreases options.len(),
{
    if i == options.len() - 1 {
        assert(set_count(options, i, count).drop_last() =~= options.drop_last());
    } else {
        lemma_total_set_count(options.drop_last(), i, count);
        assert(set_count(options, i, count).drop_last() =~= set_count(
            options.drop_last(),
            i,
            count,
        ));
    }
}

/// The inputs on which a vote can be counted without failing: the voter's previous choice is
/// still an option of the poll and holds a vote, and the chosen option has room for one more.
pub open spec fn vote_countable(
    poll: Option<PollView>,
    previous: Option<Seq<char>>,
    choice: Seq<char>,
) -> bool {
    match poll {
        None => true,
        Some(p) => {
            &&& match previous {
                Some(c) => match position(p.options, c) {
                    Some(i) => p.options[i].1 > 0,
                    None => false,
                },
                None => true,
            }
            &&& match position(p.options, choice) {
                Some(i) => revoked(p.options, previous)[i].1 < u64::MAX,
                None => true,
            }
        },
    }
}

/// Voting again for the option one already chose leaves every count as it was.
pub proof fn lemma_same_choice_keeps_counts(poll: PollView, choice: Seq<char>)
    requires
        vote_countable(Some(poll), Some(choice), choice),
        position(poll.options, choice) is Some,
    ensures
        recounted(poll.options, Some(choice), choice) == poll.options,
{
    assert(recounted(poll.options, Some(choice), choice) =~= poll.options);
}

/// A counted vote adds one vote to the poll when the voter had no ballot in it, and leaves
/// the poll's total unchanged when the voter changes a ballot.
pub proof fn lemma_vote_total(poll: PollView, previous: Option<Seq<char>>, choice: Seq<char>)
    requires
        vote_countable(Some(poll), previous, choice),
        position(poll.options, choice) is Some,
    ensures
        total_votes(recounted(poll.options, previous, choice)) == total_votes(poll.options) + (
        if previous is None {
            1int
        } else {
            0int
        }),
{
    let options = poll.options;
    let r = revoked(options, previous);
    let ci = position(options, choice)->0;
    lemma_position_exists(options, choice, ci);
    match previous {
        Some(c) => {
            let pi = position(options, c)->0;
            lemma_position_exists(options, c, pi);
            lemma_total_set_count(options, pi, options[pi].1 - 1);
        },
        None => {},
    }
    lemma_total_set_count(r, ci, r[ci].1 + 1);
}

/// A vote of `voter` for `choice` in the poll `poll_id`, given the stored poll and the voter's
/// stored choice: refused when the poll is not stored or has no such option; else the voter's
/// choice is stored, the previous choice loses its vote, `choice` gains one, and the answer
/// gives `choice` with its new count.
pub open spec fn vote_outcome(
    poll: Option<PollView>,
    previous: Option<Seq<char>>,
    voter: Seq<char>,
    poll_id: Seq<char>,
    choice: Seq<char>,
) -> Result<ExecutionView, ErrorKind> {
    match poll {
        None => Err(ErrorKind::PollNotFound),
        Some(p) => match position(p.options, choice) {
            None => Err(ErrorKind::VoteOptionNotFound),
            Some(i) => {
                let counted = recounted(p.options, previous, choice);
                Ok(
                    ExecutionView {
                        writes: seq![
                            WriteView::Ballot { voter, poll_id, choice },
                            WriteView::Poll {
                                poll_id,
                                poll: PollView {
                                    creator: p.creator,
                                    question: p.question,
                                    options: counted,
                                },
                            },
                        ],
                        response: seq![
                            ("action"@, "vote"@),
                            ("poll_id"@, poll_id),
                            (choice, decimal(counted[i].1 as nat)),
                        ],
                    },
                )
            },
        },
    }
}

/// What a message does, given the sender, the stored poll that it names and the sender's
/// stored choice in that poll.
pub open spec fn execute_outcome(
    sender: Seq<char>,
    msg: ExecuteMsg,
    poll: Option<PollView>,
    previous: Option<Seq<char>>,
) -> Result<ExecutionView, ErrorKind> {
    match msg {
        ExecuteMsg::CreatePoll { poll_id, question, options } => create_poll_outcome(
            sender,
            poll_id@,
            question@,
            names_view(options@),
        ),
        ExecuteMsg::Vote { poll_id, vote } => vote_outcome(
            poll,
            previous,
            sender,
            poll_id@,
            vote@,
        ),
        ExecuteMsg::DeletePoll { .. } => arbitrary(),
    }
}

/// The address that setting up asks to validate as administrator: the one the message names,
/// else the sender.
pub fn requested_admin(sender: &String, msg: &InstantiateMsg) -> (admin: String)
    ensures
        admin@ == match msg.admin {
            Some(a) => a@,
            None => sender@,
        },
{
    match &msg.admin {
        Some(a) => a.clone(),
        None => sender.clone(),
    }
}

/// Sets the contract up with the validated administrator address: the configuration names
/// it, and the answer says so. A failed validation is passed on.
pub fn instantiate(validated_admin: Result<String, cosmwasm_std::StdError>) -> (r: Result<
    Instantiation,
    ContractError,
>)
    ensures
        match validated_admin {
            Ok(admin) => r matches Ok(i) && i.config@ == admin@ && i.response@ == seq![
                ("action"@, "instantiate"@),
                ("admin"@, admin@),
            ],
            Err(e) => r == Err::<Instantiation, ContractError>(ContractError::Std(e)),
        },
{
    match validated_admin {
        Ok(admin) => {
            let response = Response::new().add_attribute("action".to_owned(), "instantiate".to_owned()).add_attribute(
                "admin".to_owned(),
                admin.clone(),
            );
            Ok(Instantiation { config: Config { admin }, response })
        },
        Err(e) => Err(ContractError::Std(e)),
    }
}

/// Creates the poll `poll_id` of `creator`, with every option at zero votes.
pub fn execute_create_poll(
    creator: String,
    poll_id: String,
    question: String,
    options: Vec<String>,
) -> (r: Result<Execution, ContractError>)
    ensures
        outcome(r) == create_poll_outcome(creator@, poll_id@, question@, names_view(options@)),
{
    if options.len() > MAX_OPTIONS {
        return Err(ContractError::TooManyOptions {  });
    }
    let mut opts: Vec<(String, u64)> = Vec::new();
    let mut i: usize = 0;
    while i < options.len()
        invariant
            0 <= i <= options.len(),
            options_view(opts@) =~= fresh_options(names_view(options@)).take(i as int),
        decreases options.len() - i,
    {
        let name = options[i].clone();
        let ghost prev = opts@;
        opts.push((name, 0));
        assert(opts@ == prev.push((name, 0u64)));
        assert(options_view(opts@) =~= options_view(prev).push((options@[i as int]@, 0u64)));
        assert(fresh_options(names_view(options@)).take(i + 1) =~= fresh_options(
            names_view(options@),
        ).take(i as int).push((options@[i as int]@, 0u64)));
        i = i + 1;
    }
    assert(fresh_options(names_view(options@)).take(options.len() as int) =~= fresh_options(
        names_view(options@),
    ));
    let response = Response::new().add_attribute("action".to_owned(), "create_poll".to_owned()).add_attribute(
        "poll_id".to_owned(),
        poll_id.clone(),
    );
    let mut writes: Vec<StorageWrite> = Vec::new();
    writes.push(StorageWrite::Poll { poll_id, poll: Poll { creator, question, options: opts } });
    let r = Execution { writes, response };
    let ghost expected = create_poll_outcome(creator@, poll_id@, question@, names_view(options@))->Ok_0;
    assert(r@.writes =~~= expected.writes);
    assert(r@.response =~~= expected.response);
    Ok(r)
}

/// Takes one vote from the option at position `i`.
fn take_vote(options: &mut Vec<(String, u64)>, i: usize)
    requires
        i < old(options).len(),
        old(options)@[i as int].1 > 0,
    ensures
        options_view(final(options)@) == set_count(
            options_view(old(options)@),
            i as int,
            old(options)@[i as int].1 - 1,
        ),
{
    let name = options[i].0.clone();
    let count = options[i].1;
    options.set(i, (name, count - 1));
    assert(options_view(options@) =~= set_count(
        options_view(old(options)@),
        i as int,
        old(options)@[i as int].1 - 1,
    ));
}

/// Adds one vote to the option at position `i`, and returns its new count.
fn give_vote(options: &mut Vec<(String, u64)>, i: usize) -> (count: u64)
    requires
        i < old(options).len(),
        old(options)@[i as int].1 < u64::MAX,
    ensures
        count == old(options)@[i as int].1 + 1,
        options_view(final(options)@) == set_count(
            options_view(old(options)@),
            i as int,
            old(options)@[i as int].1 + 1,
        ),
{
    let name = options[i].0.clone();
    let count = options[i].1 + 1;
    options.set(i, (name, count));
    assert(options_view(options@) =~= set_count(
        options_view(old(options)@),
        i as int,
        old(options)@[i as int].1 + 1,
    ));
    count
}

/// Whether a vote can be counted without failing, as `vote_countable` says.
pub fn vote_is_countable(
    stored_poll: &Option<Poll>,
    stored_ballot: &Option<Ballot>,
    vote: &String,
) -> (b: bool)
    ensures
        b == vote_countable(poll_view(*stored_poll), ballot_choice(*stored_ballot), vote@),
{
    match stored_poll {
        None => true,
        Some(poll) => {
            let ghost opts = options_view(poll.options@);
            let previous = match stored_ballot {
                Some(ballot) => match find_option(&poll.options, &ballot.option) {
                    Some(i) => {
                        if poll.options[i].1 == 0 {
                            return false;
                        }
                        Some(i)
                    },
                    None => {
                        return false;
                    },
                },
                None => None,
            };
            match find_option(&poll.options, vote) {
                Some(j) => {
                    let count = poll.options[j].1;
                    match previous {
                        Some(i) => {
                            if i == j {
                                count - 1 < u64::MAX
                            } else {
                                count < u64::MAX
                            }
                        },
                        None => count < u64::MAX,
                    }
                },
                None => true,
            }
        },
    }
}

/// Counts the vote of `voter` for `vote` in the poll `poll_id`, given the stored poll and the
/// voter's stored ballot in it.
pub fn execute_vote(
    voter: String,
    poll_id: String,
    vote: String,
    stored_poll: Option<Poll>,
    stored_ballot: Option<Ballot>,
) -> (r: Result<Execution, ContractError>)
    requires
        vote_countable(poll_view(stored_poll), ballot_choice(stored_ballot), vote@),
    ensures
        outcome(r) == vote_outcome(
            poll_view(stored_poll),
            ballot_choice(stored_ballot),
            voter@,
            poll_id@,
            vote@,
        ),
{
    match stored_poll {
        None => Err(ContractError::PollNotFound {  }),
        Some(poll) => {
            let ghost p = poll@;
            let Poll { creator, question, mut options } = poll;
            match &stored_ballot {
                Some(ballot) => {
                    let i = find_option(&options, &ballot.option).unwrap();
                    take_vote(&mut options, i);
                },
                None => {},
            }
            assert(options_view(options@) == revoked(p.options, ballot_choice(stored_ballot)));
            proof {
                lemma_position_same_names(options_view(options@), p.options, vote@);
            }
            match find_option(&options, &vote) {
                None => Err(ContractError::VoteOptionNotFound {  }),
                Some(i) => {
                    let count = give_vote(&mut options, i);
                    let response = Response::new().add_attribute(
                        "action".to_owned(),
                        "vote".to_owned(),
                    ).add_attribute("poll_id".to_owned(), poll_id.clone()).add_attribute(
                        vote.clone(),
                        to_decimal_string(count),
                    );
                    let mut writes: Vec<StorageWrite> = Vec::new();
                    writes.push(
                        StorageWrite::Ballot {
                            voter,
                            poll_id: poll_id.clone(),
                            ballot: Ballot { option: vote },
                        },
                    );
                    writes.push(
                        StorageWrite::Poll { poll_id, poll: Poll { creator, question, options } },
                    );
                    let r = Execution { writes, response };
                    let ghost expected = vote_outcome(
                        poll_view(stored_poll),
                        ballot_choice(stored_ballot),
                        voter@,
                        poll_id@,
                        vote@,
                    )->Ok_0;
                    assert(r@.writes =~~= expected.writes);
                    assert(r@.response =~~= expected.response);
                    Ok(r)
                },
            }
        },
    }
}

/// Carries out a message, given the sender, the stored poll that the message names and the
/// sender's stored ballot in that poll (both are only read for a vote).
pub fn execute(
    sender: String,
    msg: ExecuteMsg,
    stored_poll: Option<Poll>,
    stored_ballot: Option<Ballot>,
) -> (r: Result<Execution, ContractError>)
    requires
        !(msg is DeletePoll),
        msg matches ExecuteMsg::Vote { vote, .. } ==> vote_countable(
            poll_view(stored_poll),
            ballot_choice(stored_ballot),
            vote@,
        ),
    ensures
        outcome(r) == execute_outcome(
            sender@,
            msg,
            poll_view(stored_poll),
            ballot_choice(stored_ballot),
        ),
{
    match msg {
        ExecuteMsg::CreatePoll { poll_id, question, options } => execute_create_poll(
            sender,
            poll_id,
            question,
            options,
        ),
        ExecuteMsg::Vote { poll_id, vote } => execute_vote(
            sender,
            poll_id,
            vote,
            stored_poll,
            stored_ballot,
        ),
        // Deleting a poll is not supported; the `requires` leaves this message out.
        ExecuteMsg::DeletePoll { .. } => Err(ContractError::PollNotFound {  }),
    }
}

} // verus!
