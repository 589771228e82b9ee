use vstd::prelude::*;

use crate::contract::{
    create_poll_outcome, execute_outcome, names_view, revoked, vote_countable, vote_outcome,
    ExecutionView, WriteView, MAX_OPTIONS,
};
use crate::decimal::decimal;
use crate::error::ErrorKind;
use crate::msg::ExecuteMsg;
use crate::state::{lemma_position_exists, lemma_position_same_names, position, PollView};

verus! {

/// Creating a poll is refused with `TooManyOptions` exactly when it names more than five
/// options. Otherwise it writes one poll, under the given id, with the given creator and
/// question, whose options are the given names in order, each at zero votes, and answers with
/// the action and the id.
pub proof fn lemma_create_poll_law(
    creator: Seq<char>,
    poll_id: Seq<char>,
    question: Seq<char>,
    names: Seq<Seq<char>>,
)
    ensures
        (names.len() > 5) == (create_poll_outcome(creator, poll_id, question, names) == Err::<
            ExecutionView,
            ErrorKind,
        >(ErrorKind::TooManyOptions)),
        names.len() <= 5 ==> (create_poll_outcome(creator, poll_id, question, names) matches Ok(
            ex,
        ) && ex.writes.len() == 1 && (ex.writes[0] matches WriteView::Poll { poll_id: id, poll }
            && id == poll_id && poll.creator == creator && poll.question == question
            && poll.options.len() == names.len() && (forall|j: int|
            0 <= j < names.len() ==> poll.options[j] == (names[j], 0u64))) && ex.response == seq![
            ("action"@, "create_poll"@),
            ("poll_id"@, poll_id),
        ]),
{
    assert(MAX_OPTIONS == 5);
}

/// A vote is refused with `PollNotFound` when the poll is not stored, and with
/// `VoteOptionNotFound` exactly when the stored poll has no option of that name.
pub proof fn lemma_vote_refusals(
    poll: Option<PollView>,
    previous: Option<Seq<char>>,
    voter: Seq<char>,
    poll_id: Seq<char>,
    choice: Seq<char>,
)
    ensures
        poll is None ==> vote_outcome(poll, previous, voter, poll_id, choice) == Err::<
            ExecutionView,
            ErrorKind,
        >(ErrorKind::PollNotFound),
        poll matches Some(p) ==> ((forall|j: int| 0 <= j < p.options.len() ==> p.options[j].0
            != choice) == (vote_outcome(poll, previous, voter, poll_id, choice) == Err::<
            ExecutionView,
            ErrorKind,
        >(ErrorKind::VoteOptionNotFound))),
{
    if let Some(p) = poll {
        if !(forall|j: int| 0 <= j < p.options.len() ==> p.options[j].0 != choice) {
            let j = choose|j: int| 0 <= j < p.options.len() && p.options[j].0 == choice;
            lemma_position_exists(p.options, choice, j);
        } else if position(p.options, choice) is Some {
            let i = position(p.options, choice)->0;
            assert(p.options[i].0 == choice);
        }
    }
}

/// An accepted vote writes the voter's ballot for the choice, then the poll back under the
/// same id, with the same creator and question and the same option names in the same order.
pub proof fn lemma_vote_writes(
    poll: PollView,
    previous: Option<Seq<char>>,
    voter: Seq<char>,
    poll_id: Seq<char>,
    choice: Seq<char>,
)
    requires
        vote_outcome(Some(poll), previous, voter, poll_id, choice) is Ok,
    ensures
        ({
            let ex = vote_outcome(Some(poll), previous, voter, poll_id, choice)->Ok_0;
            &&& ex.writes.len() == 2
            &&& ex.writes[0] == WriteView::Ballot { voter, poll_id, choice }
            &&& ex.writes[1] matches WriteView::Poll { poll_id: id, poll: written } && id
                == poll_id && written.creator == poll.creator && written.question
                == poll.question && written.options.len() == poll.options.len() && forall|j: int|
                0 <= j < poll.options.len() ==> written.options[j].0 == poll.options[j].0
        }),
{
}

/// The counts and the answer of an accepted vote: the chosen option gains one vote, the
/// voter's previous choice (if any) loses one, every other option keeps its count; the answer
/// is the action, the poll's id, and the choice with the count that the written poll holds
/// for it, in decimal.
pub proof fn lemma_vote_counts(
    poll: PollView,
    previous: Option<Seq<char>>,
    voter: Seq<char>,
    poll_id: Seq<char>,
    choice: Seq<char>,
)
    requires
        vote_countable(Some(poll), previous, choice),
        vote_outcome(Some(poll), previous, voter, poll_id, choice) is Ok,
    ensures
        ({
            let ex = vote_outcome(Some(poll), previous, voter, poll_id, choice)->Ok_0;
            ex.writes[1] matches WriteView::Poll { poll: written, .. } && (forall|j: int|
                0 <= j < poll.options.len() ==> written.options[j].1 == poll.options[j].1 + (if
            position(poll.options, choice) == Some(j) {
                1int
            } else {
                0int
            }) - (if previous is Some && position(poll.options, previous->0) == Some(j) {
                1int
            } else {
                0int
            })) && (position(written.options, choice) matches Some(k) && ex.response == seq![
                ("action"@, "vote"@),
                ("poll_id"@, poll_id),
                (choice, decimal(written.options[k].1 as nat)),
            ])
        }),
{
    let options = poll.options;
    let ci = position(options, choice)->0;
    lemma_position_exists(options, choice, ci);
    let r = revoked(options, previous);
    if let Some(c) = previous {
        let pi = position(options, c)->0;
        lemma_position_exists(options, c, pi);
    }
    let ex = vote_outcome(Some(poll), previous, voter, poll_id, choice)->Ok_0;
    let written = ex.writes[1]->Poll_poll;
    lemma_position_same_names(written.options, options, choice);
}

/// Executing a message: creating a poll is refused exactly with more than five options, and
/// otherwise writes a poll of the sender with the message's id, question and option names,
/// all at zero votes; an accepted vote writes the sender's ballot, for the message's choice,
/// in the message's poll, first.
pub proof fn lemma_execute_law(
    sender: Seq<char>,
    msg: ExecuteMsg,
    poll: Option<PollView>,
    previous: Option<Seq<char>>,
)
    ensures
        msg matches ExecuteMsg::CreatePoll { poll_id, question, options } ==> ((options.len()
            > 5) == (execute_outcome(sender, msg, poll, previous) == Err::<
            ExecutionView,
            ErrorKind,
        >(ErrorKind::TooManyOptions)) && (options.len() <= 5 ==> (execute_outcome(
            sender,
            msg,
            poll,
            previous,
        ) matches Ok(ex) && ex.writes.len() == 1 && (ex.writes[0] matches WriteView::Poll {
            poll_id: id,
            poll: written,
        } && id == poll_id@ && written.creator == sender && written.question == question@
            && written.options.len() == options.len() && (forall|j: int|
            0 <= j < options.len() ==> written.options[j] == (options[j]@, 0u64)))))),
        msg matches ExecuteMsg::Vote { poll_id, vote } ==> (execute_outcome(
            sender,
            msg,
            poll,
            previous,
        ) matches Ok(ex) ==> ex.writes.len() == 2 && ex.writes[0] == WriteView::Ballot {
            voter: sender,
            poll_id: poll_id@,
            choice: vote@,
        }),
{
    match msg {
        ExecuteMsg::CreatePoll { poll_id, question, options } => {
            lemma_create_poll_law(sender, poll_id@, question@, names_view(options@));
        },
        ExecuteMsg::Vote { poll_id, vote } => {
            if let Some(p) = poll {
                if execute_outcome(sender, msg, poll, previous) is Ok {
                    lemma_vote_writes(p, previous, sender, poll_id@, vote@);
                }
            }
        },
        ExecuteMsg::DeletePoll { .. } => {},
    }
}

} // verus!
