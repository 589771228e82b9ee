use vstd::prelude::*;

use crate::contract::{
    create_poll_outcome, execute_outcome, fresh_options, names_view, recounted, revoked,
    vote_countable,
    vote_outcome, WriteView,
};
use crate::msg::ExecuteMsg;
use crate::state::{
    is_first_named, lemma_position_at, lemma_position_exists,
    lemma_first_named_same_names, lemma_position_same_names, position, PollView,
};

verus! {

/// The contract's storage as values: polls by id, and ballots by (voter, poll id).
pub struct StoreView {
    pub polls: Map<Seq<char>, PollView>,
    pub ballots: Map<(Seq<char>, Seq<char>), Seq<char>>,
}

/// The storage after one write.
pub open spec fn apply_write(s: StoreView, w: WriteView) -> StoreView {
    match w {
        WriteView::Poll { poll_id, poll } => StoreView {
            polls: s.polls.insert(poll_id, poll),
            ballots: s.ballots,
        },
        WriteView::Ballot { voter, poll_id, choice } => StoreView {
            polls: s.polls,
            ballots: s.ballots.insert((voter, poll_id), choice),
        },
    }
}

/// The storage after the writes, in order.
pub open spec fn apply_writes(s: StoreView, writes: Seq<WriteView>) -> StoreView
    decreases writes.len(),
{
    if writes.len() == 0 {
        s
    } else {
        apply_writes(apply_write(s, writes[0]), writes.drop_first())
    }
}

/// The stored poll `poll_id`, if any.
pub open spec fn stored_poll(s: StoreView, poll_id: Seq<char>) -> Option<PollView> {
    if s.polls.dom().contains(poll_id) {
        Some(s.polls[poll_id])
    } else {
        None
    }
}

/// The stored choice of `voter` in the poll `poll_id`, if any.
pub open spec fn stored_choice(s: StoreView, voter: Seq<char>, poll_id: Seq<char>) -> Option<
    Seq<char>,
> {
    if s.ballots.dom().contains((voter, poll_id)) {
        Some(s.ballots[(voter, poll_id)])
    } else {
        None
    }
}

/// The ballots in the poll `poll_id` that chose `name`.
pub open spec fn voters_for(s: StoreView, poll_id: Seq<char>, name: Seq<char>) -> Set<
    (Seq<char>, Seq<char>),
> {
    s.ballots.dom().filter(
        |k: (Seq<char>, Seq<char>)| k.1 == poll_id && s.ballots[k] == name,
    )
}

/// The count of the option at position `i` of the poll `poll_id` is the number of ballots
/// that chose it; an option that repeats an earlier name holds no votes.
pub open spec fn option_tally_matches(s: StoreView, poll_id: Seq<char>, i: int) -> bool {
    let options = s.polls[poll_id].options;
    options[i].1 == (if is_first_named(options, options[i].0, i) {
        voters_for(s, poll_id, options[i].0).len()
    } else {
        0
    })
}

/// Every ballot names a stored poll and one of its options, and every count is the number of
/// ballots for its option.
pub open spec fn tallies_match(s: StoreView) -> bool {
    &&& s.ballots.dom().finite()
    &&& forall|k: (Seq<char>, Seq<char>)| #[trigger]
        s.ballots.dom().contains(k) ==> s.polls.dom().contains(k.1) && position(
            s.polls[k.1].options,
            s.ballots[k],
        ) is Some
    &&& forall|poll_id: Seq<char>, i: int|
        s.polls.dom().contains(poll_id) && 0 <= i < s.polls[poll_id].options.len()
            ==> #[trigger] option_tally_matches(s, poll_id, i)
}

/// Storage with no poll and no ballot: where a contract starts.
pub open spec fn empty_store() -> StoreView {
    StoreView { polls: Map::empty(), ballots: Map::empty() }
}

/// The counts match the ballots in empty storage.
pub proof fn lemma_empty_store_tallies()
    ensures
        tallies_match(empty_store()),
{
}

proof fn lemma_voters_after_ballot(
    s: StoreView,
    key: (Seq<char>, Seq<char>),
    choice: Seq<char>,
    poll_id: Seq<char>,
    name: Seq<char>,
)
    requires
        s.ballots.dom().finite(),
    ensures
        ({
            let t = StoreView { polls: s.polls, ballots: s.ballots.insert(key, choice) };
            &&& voters_for(t, poll_id, name).finite()
            &&& voters_for(t, poll_id, name).len() == voters_for(s, poll_id, name).len() - (
            if voters_for(s, poll_id, name).contains(key) {
                1int
            } else {
                0int
            }) + (if key.1 == poll_id && choice == name {
                1int
            } else {
                0int
            })
        }),
{
    let t = StoreView { polls: s.polls, ballots: s.ballots.insert(key, choice) };
    let v = voters_for(s, poll_id, name);
    let w = voters_for(t, poll_id, name);
    s.ballots.dom().lemma_len_filter(
        |k: (Seq<char>, Seq<char>)| k.1 == poll_id && s.ballots[k] == name,
    );
    if key.1 == poll_id && choice == name {
        assert(w =~= v.remove(key).insert(key));
        assert(!v.remove(key).contains(key));
    } else {
        assert(w =~= v.remove(key));
    }
}

/// In storage whose counts match its ballots, a stored ballot names an option of its poll
/// that holds at least its own vote: taking that vote back cannot fail.
pub proof fn lemma_stored_choice_revocable(s: StoreView, voter: Seq<char>, poll_id: Seq<char>)
    requires
        tallies_match(s),
        s.ballots.dom().contains((voter, poll_id)),
    ensures
        s.polls.dom().contains(poll_id),
        position(s.polls[poll_id].options, s.ballots[(voter, poll_id)]) matches Some(i) && s.polls[
            poll_id].options[i].1 > 0,
{
    let key = (voter, poll_id);
    assert(s.ballots.dom().contains(key));
    let name = s.ballots[key];
    let options = s.polls[poll_id].options;
    let i = position(options, name)->0;
    let k = choose|k: int| is_first_named(options, name, k);
    lemma_position_at(options, name, k);
    assert(option_tally_matches(s, poll_id, i));
    let v = voters_for(s, poll_id, name);
    s.ballots.dom().lemma_len_filter(
        |k: (Seq<char>, Seq<char>)| k.1 == poll_id && s.ballots[k] == name,
    );
    assert(v.contains(key));
    assert(v.remove(key).len() + 1 == v.len());
}

/// A vote keeps every count equal to the number of ballots for its option: the vote's
/// writes, applied to storage whose counts match its ballots, give storage whose counts match.
pub proof fn lemma_vote_keeps_tallies(
    s: StoreView,
    voter: Seq<char>,
    poll_id: Seq<char>,
    choice: Seq<char>,
)
    requires
        tallies_match(s),
        vote_countable(stored_poll(s, poll_id), stored_choice(s, voter, poll_id), choice),
        vote_outcome(
            stored_poll(s, poll_id),
            stored_choice(s, voter, poll_id),
            voter,
            poll_id,
            choice,
        ) is Ok,
    ensures
        tallies_match(
            apply_writes(
                s,
                vote_outcome(
                    stored_poll(s, poll_id),
                    stored_choice(s, voter, poll_id),
                    voter,
                    poll_id,
                    choice,
                )->Ok_0.writes,
            ),
        ),
{
    let previous = stored_choice(s, voter, poll_id);
    let ex = vote_outcome(stored_poll(s, poll_id), previous, voter, poll_id, choice)->Ok_0;
    let p = s.polls[poll_id];
    let options = p.options;
    let counted = recounted(options, previous, choice);
    let key = (voter, poll_id);
    let s1 = apply_write(s, ex.writes[0]);
    let s2 = apply_write(s1, ex.writes[1]);
    assert(apply_writes(s, ex.writes) == s2) by {
        reveal_with_fuel(apply_writes, 3);
        assert(ex.writes.drop_first().drop_first().len() == 0);
    }
    assert(s2.ballots == s.ballots.insert(key, choice));
    assert(s2.polls == s.polls.insert(poll_id, PollView { creator: p.creator, question: p.question, options: counted }));
    let ci = position(options, choice)->0;
    lemma_position_same_names(counted, options, choice);
    assert forall|k: (Seq<char>, Seq<char>)| #[trigger]
        s2.ballots.dom().contains(k) implies s2.polls.dom().contains(k.1) && position(
            s2.polls[k.1].options,
            s2.ballots[k],
        ) is Some by {
        if k != key {
            assert(s.ballots.dom().contains(k));
            if k.1 == poll_id {
                lemma_position_same_names(counted, options, s.ballots[k]);
            }
        }
    }
    assert forall|pid: Seq<char>, i: int|
        s2.polls.dom().contains(pid) && 0 <= i < s2.polls[pid].options.len()
            implies #[trigger] option_tally_matches(s2, pid, i) by {
        let n = s2.polls[pid].options[i].0;
        lemma_voters_after_ballot(s, key, choice, pid, n);
        assert(voters_for(s2, pid, n) == voters_for(
            StoreView { polls: s.polls, ballots: s.ballots.insert(key, choice) },
            pid,
            n,
        )) by {
            assert(voters_for(s2, pid, n) =~= voters_for(
                StoreView { polls: s.polls, ballots: s.ballots.insert(key, choice) },
                pid,
                n,
            ));
        }
        assert(s.polls.dom().contains(pid));
        assert(option_tally_matches(s, pid, i));
        if pid != poll_id {
            assert(!voters_for(s, pid, n).contains(key));
        } else {
            assert(n == options[i].0);
            let first = is_first_named(options, n, i);
            lemma_first_named_same_names(counted, options, n, i);
            assert(voters_for(s, pid, n).contains(key) <==> previous == Some(n));
            if first {
                lemma_position_at(options, n, i);
            }
            match previous {
                Some(c) => {
                    let pi = position(options, c)->0;
                    lemma_position_exists(options, c, pi);
                    if first && c != n {
                        lemma_position_at(options, c, pi);
                    }
                },
                None => {},
            }
            assert(is_first_named(options, choice, ci));
        }
    }
}

/// Creating a poll under an id that no ballot names keeps every count equal to the number of
/// ballots for its option.
pub proof fn lemma_create_poll_keeps_tallies(
    s: StoreView,
    creator: Seq<char>,
    poll_id: Seq<char>,
    question: Seq<char>,
    names: Seq<Seq<char>>,
)
    requires
        tallies_match(s),
        forall|k: (Seq<char>, Seq<char>)| s.ballots.dom().contains(k) ==> k.1 != poll_id,
        create_poll_outcome(creator, poll_id, question, names) is Ok,
    ensures
        tallies_match(
            apply_writes(s, create_poll_outcome(creator, poll_id, question, names)->Ok_0.writes),
        ),
{
    let ex = create_poll_outcome(creator, poll_id, question, names)->Ok_0;
    let s1 = apply_write(s, ex.writes[0]);
    assert(apply_writes(s, ex.writes) == s1) by {
        reveal_with_fuel(apply_writes, 2);
        assert(ex.writes.drop_first().len() == 0);
    }
    let options = fresh_options(names);
    assert forall|k: (Seq<char>, Seq<char>)| #[trigger]
        s1.ballots.dom().contains(k) implies s1.polls.dom().contains(k.1) && position(
            s1.polls[k.1].options,
            s1.ballots[k],
        ) is Some by {
        assert(k.1 != poll_id);
    }
    assert forall|pid: Seq<char>, i: int|
        s1.polls.dom().contains(pid) && 0 <= i < s1.polls[pid].options.len()
            implies #[trigger] option_tally_matches(s1, pid, i) by {
        if pid == poll_id {
            let n = options[i].0;
            assert(voters_for(s1, pid, n) =~= Set::empty());
        } else {
            assert(option_tally_matches(s, pid, i));
        }
    }
}

/// The poll that a message names.
pub open spec fn named_poll(msg: ExecuteMsg) -> Seq<char> {
    match msg {
        ExecuteMsg::CreatePoll { poll_id, .. } => poll_id@,
        ExecuteMsg::Vote { poll_id, .. } => poll_id@,
        ExecuteMsg::DeletePoll { poll_id } => poll_id@,
    }
}

/// Every message that the contract accepts keeps each count equal to the number of ballots
/// for its option, when it is given the stored poll it names and the sender's stored ballot in
/// that poll. Creating a poll over an id that ballots already name is left out: the new poll
/// starts at zero while the old ballots stay.
pub proof fn lemma_execute_keeps_tallies(s: StoreView, sender: Seq<char>, msg: ExecuteMsg)
    requires
        tallies_match(s),
        !(msg is DeletePoll),
        msg is Vote ==> vote_countable(
            stored_poll(s, named_poll(msg)),
            stored_choice(s, sender, named_poll(msg)),
            msg->Vote_vote@,
        ),
        msg is CreatePoll ==> forall|k: (Seq<char>, Seq<char>)|
            s.ballots.dom().contains(k) ==> k.1 != named_poll(msg),
        execute_outcome(
            sender,
            msg,
            stored_poll(s, named_poll(msg)),
            stored_choice(s, sender, named_poll(msg)),
        ) is Ok,
    ensures
        tallies_match(
            apply_writes(
                s,
                execute_outcome(
                    sender,
                    msg,
                    stored_poll(s, named_poll(msg)),
                    stored_choice(s, sender, named_poll(msg)),
                )->Ok_0.writes,
            ),
        ),
{
    match msg {
        ExecuteMsg::CreatePoll { poll_id, question, options } => {
            lemma_create_poll_keeps_tallies(
                s,
                sender,
                poll_id@,
                question@,
                names_view(options@),
            );
        },
        ExecuteMsg::Vote { poll_id, vote } => {
            lemma_vote_keeps_tallies(s, sender, poll_id@, vote@);
        },
        ExecuteMsg::DeletePoll { .. } => {},
    }
}

/// In storage whose counts match its ballots, a vote for an option of a stored poll whose
/// count is below the largest `u64` can be counted, whichever option the voter chose before
/// and wherever it stands in the poll.
pub proof fn lemma_vote_countable_in_consistent_store(
    s: StoreView,
    voter: Seq<char>,
    poll_id: Seq<char>,
    choice: Seq<char>,
)
    requires
        tallies_match(s),
        s.polls.dom().contains(poll_id),
        position(s.polls[poll_id].options, choice) matches Some(i) && s.polls[poll_id].options[i].1
            < u64::MAX,
    ensures
        vote_countable(stored_poll(s, poll_id), stored_choice(s, voter, poll_id), choice),
{
    let options = s.polls[poll_id].options;
    let ci = position(options, choice)->0;
    if s.ballots.dom().contains((voter, poll_id)) {
        lemma_stored_choice_revocable(s, voter, poll_id);
    }
    let r = revoked(options, stored_choice(s, voter, poll_id));
    assert(r[ci].1 <= options[ci].1);
}

} // verus!
