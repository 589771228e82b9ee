use std::collections::HashMap;

use cosmwasm_std::StdError;
use from_zero_to_hero::contract::{
    execute, execute_create_poll, execute_vote, instantiate, requested_admin, vote_is_countable,
    Execution, StorageWrite, MAX_OPTIONS,
};
use from_zero_to_hero::decimal::to_decimal_string;
use from_zero_to_hero::error::ContractError;
use from_zero_to_hero::msg::{ExecuteMsg, InstantiateMsg};
use from_zero_to_hero::response::{Attribute, Response};
use from_zero_to_hero::state::{find_option, Ballot, Poll};

fn s(x: &str) -> String {
    x.to_string()
}

fn attr(key: &str, value: &str) -> Attribute {
    Attribute { key: s(key), value: s(value) }
}

fn poll(options: &[(&str, u64)]) -> Poll {
    Poll {
        creator: s("creator"),
        question: s("question?"),
        options: options.iter().map(|(n, c)| (s(n), *c)).collect(),
    }
}

fn written_poll(e: &Execution) -> Poll {
    match e.writes.last().unwrap() {
        StorageWrite::Poll { poll, .. } => poll.clone(),
        other => panic!("unexpected write {:?}", other),
    }
}

/// Polls and ballots held in memory; each accepted message's writes applied in order.
#[derive(Default)]
struct Store {
    polls: HashMap<String, Poll>,
    ballots: HashMap<(String, String), Ballot>,
}

impl Store {
    fn run(&mut self, sender: &str, msg: ExecuteMsg) -> Result<Response, ContractError> {
        let (p, b) = match &msg {
            ExecuteMsg::Vote { poll_id, vote } => {
                let p = self.polls.get(poll_id).cloned();
                let b = self.ballots.get(&(s(sender), poll_id.clone())).cloned();
                assert!(vote_is_countable(&p, &b, vote));
                (p, b)
            },
            _ => (None, None),
        };
        let e = execute(s(sender), msg, p, b)?;
        for w in e.writes {
            match w {
                StorageWrite::Poll { poll_id, poll } => {
                    self.polls.insert(poll_id, poll);
                },
                StorageWrite::Ballot { voter, poll_id, ballot } => {
                    self.ballots.insert((voter, poll_id), ballot);
                },
            }
        }
        Ok(e.response)
    }

    fn vote(&mut self, voter: &str, poll_id: &str, choice: &str) -> Result<Response, ContractError> {
        self.run(voter, ExecuteMsg::Vote { poll_id: s(poll_id), vote: s(choice) })
    }

    fn create(&mut self, poll_id: &str, options: &[&str]) -> Result<Response, ContractError> {
        self.run(
            "creator",
            ExecuteMsg::CreatePoll {
                poll_id: s(poll_id),
                question: s("question?"),
                options: options.iter().map(|o| s(o)).collect(),
            },
        )
    }

    /// Each count equals the number of ballots for its option (repeated names hold none).
    fn tallies_match(&self) -> bool {
        for ((_, poll_id), ballot) in &self.ballots {
            match self.polls.get(poll_id) {
                Some(p) if p.options.iter().any(|(n, _)| *n == ballot.option) => {},
                _ => return false,
            }
        }
        for (poll_id, p) in &self.polls {
            for (i, (name, count)) in p.options.iter().enumerate() {
                let first = p.options.iter().position(|(n, _)| n == name).unwrap() == i;
                let ballots = self
                    .ballots
                    .iter()
                    .filter(|((_, pid), b)| pid == poll_id && b.option == *name)
                    .count() as u64;
                if *count != if first { ballots } else { 0 } {
                    return false;
                }
            }
        }
        true
    }
}

#[test]
fn decimal_strings() {
    assert_eq!(to_decimal_string(0), "0");
    assert_eq!(to_decimal_string(7), "7");
    assert_eq!(to_decimal_string(10), "10");
    assert_eq!(to_decimal_string(1234567890), "1234567890");
    assert_eq!(to_decimal_string(u64::MAX), "18446744073709551615");
}

#[test]
fn response_keeps_attribute_order() {
    let r = Response::new().add_attribute(s("b"), s("2")).add_attribute(s("a"), s("1"));
    assert_eq!(r.attributes, vec![attr("b", "2"), attr("a", "1")]);
    assert!(Response::new().attributes.is_empty());
}

#[test]
fn admin_defaults_to_sender() {
    assert_eq!(requested_admin(&s("me"), &InstantiateMsg { admin: None }), "me");
    assert_eq!(requested_admin(&s("me"), &InstantiateMsg { admin: Some(s("you")) }), "you");
}

#[test]
fn instantiate_stores_admin() {
    let done = instantiate(Ok(s("boss"))).unwrap();
    assert_eq!(done.config.admin, "boss");
    assert_eq!(done.response.attributes, vec![attr("action", "instantiate"), attr("admin", "boss")]);
}

#[test]
fn instantiate_passes_validation_error_on() {
    let err = instantiate(Err(StdError::generic_err("bad address"))).unwrap_err();
    assert_eq!(err, ContractError::Std(StdError::generic_err("bad address")));
}

#[test]
fn create_poll_with_five_options_starts_at_zero() {
    assert_eq!(MAX_OPTIONS, 5);
    let names: Vec<String> = ["e", "d", "c", "b", "a"].iter().map(|n| s(n)).collect();
    let e = execute_create_poll(s("alice"), s("p"), s("q?"), names).unwrap();
    assert_eq!(e.writes.len(), 1);
    let p = written_poll(&e);
    assert_eq!(p.creator, "alice");
    assert_eq!(p.question, "q?");
    assert_eq!(p.options, vec![(s("e"), 0), (s("d"), 0), (s("c"), 0), (s("b"), 0), (s("a"), 0)]);
    assert_eq!(e.response.attributes, vec![attr("action", "create_poll"), attr("poll_id", "p")]);
}

#[test]
fn create_poll_with_six_options_is_refused() {
    let names: Vec<String> = (1..=6).map(|n| n.to_string()).collect();
    let err = execute_create_poll(s("alice"), s("p"), s("q?"), names).unwrap_err();
    assert_eq!(err, ContractError::TooManyOptions {});
}

#[test]
fn create_poll_with_no_options() {
    let e = execute_create_poll(s("alice"), s("p"), s("q?"), vec![]).unwrap();
    assert!(written_poll(&e).options.is_empty());
}

#[test]
fn first_vote_writes_ballot_then_poll() {
    let e = execute_vote(s("v"), s("p"), s("b"), Some(poll(&[("a", 3), ("b", 4)])), None).unwrap();
    assert_eq!(e.writes.len(), 2);
    match &e.writes[0] {
        StorageWrite::Ballot { voter, poll_id, ballot } => {
            assert_eq!(voter, "v");
            assert_eq!(poll_id, "p");
            assert_eq!(ballot.option, "b");
        },
        other => panic!("unexpected write {:?}", other),
    }
    let p = written_poll(&e);
    assert_eq!(p.options, vec![(s("a"), 3), (s("b"), 5)]);
    assert_eq!(p.creator, "creator");
    assert_eq!(e.response.attributes, vec![attr("action", "vote"), attr("poll_id", "p"), attr("b", "5")]);
}

#[test]
fn changed_vote_moves_one_vote() {
    let e = execute_vote(
        s("v"),
        s("p"),
        s("a"),
        Some(poll(&[("a", 3), ("b", 4)])),
        Some(Ballot { option: s("b") }),
    )
    .unwrap();
    assert_eq!(written_poll(&e).options, vec![(s("a"), 4), (s("b"), 3)]);
    assert_eq!(e.response.attributes[2], attr("a", "4"));
}

#[test]
fn same_vote_again_keeps_counts() {
    let before = poll(&[("a", 3), ("b", 4)]);
    let e = execute_vote(s("v"), s("p"), s("b"), Some(before.clone()), Some(Ballot { option: s("b") }))
        .unwrap();
    assert_eq!(written_poll(&e).options, before.options);
    assert_eq!(e.response.attributes[2], attr("b", "4"));
}

#[test]
fn vote_totals() {
    let before = poll(&[("a", 3), ("b", 4), ("c", 0)]);
    let total = |p: &Poll| p.options.iter().map(|(_, c)| c).sum::<u64>();
    let first = execute_vote(s("v"), s("p"), s("c"), Some(before.clone()), None).unwrap();
    assert_eq!(total(&written_poll(&first)), total(&before) + 1);
    let moved =
        execute_vote(s("v"), s("p"), s("c"), Some(before.clone()), Some(Ballot { option: s("a") }))
            .unwrap();
    assert_eq!(total(&written_poll(&moved)), total(&before));
}

#[test]
fn repeated_option_name_counts_at_first_place() {
    let e = execute_vote(s("v"), s("p"), s("a"), Some(poll(&[("a", 0), ("a", 0)])), None).unwrap();
    assert_eq!(written_poll(&e).options, vec![(s("a"), 1), (s("a"), 0)]);
    assert_eq!(find_option(&poll(&[("x", 0), ("a", 0), ("a", 0)]).options, &s("a")), Some(1));
    assert_eq!(find_option(&poll(&[("x", 0)]).options, &s("a")), None);
}

#[test]
fn vote_for_missing_poll_or_option_is_refused() {
    let err = execute_vote(s("v"), s("p"), s("a"), None, Some(Ballot { option: s("a") })).unwrap_err();
    assert_eq!(err, ContractError::PollNotFound {});
    let err = execute_vote(s("v"), s("p"), s("z"), Some(poll(&[("a", 1)])), Some(Ballot { option: s("a") }))
        .unwrap_err();
    assert_eq!(err, ContractError::VoteOptionNotFound {});
}

#[test]
fn countable_votes() {
    let p = Some(poll(&[("a", 1), ("b", u64::MAX)]));
    assert!(vote_is_countable(&None, &Some(Ballot { option: s("zz") }), &s("a")));
    assert!(vote_is_countable(&p, &None, &s("a")));
    assert!(vote_is_countable(&p, &None, &s("nothing")));
    // the previous choice is no longer an option
    assert!(!vote_is_countable(&p, &Some(Ballot { option: s("gone") }), &s("a")));
    // the previous choice holds no vote
    assert!(!vote_is_countable(&Some(poll(&[("a", 0)])), &Some(Ballot { option: s("a") }), &s("a")));
    // the chosen option is full
    assert!(!vote_is_countable(&p, &None, &s("b")));
    // unless the vote comes from it
    assert!(vote_is_countable(&p, &Some(Ballot { option: s("b") }), &s("b")));
    assert!(!vote_is_countable(&p, &Some(Ballot { option: s("a") }), &s("b")));
}

#[test]
fn accepted_messages_keep_tallies() {
    let mut store = Store::default();
    assert!(store.tallies_match());
    store.create("p1", &["red", "green", "blue"]).unwrap();
    store.create("p2", &["x", "y", "x"]).unwrap();
    assert!(store.tallies_match());
    store.vote("ann", "p1", "red").unwrap();
    store.vote("bob", "p1", "red").unwrap();
    store.vote("cat", "p1", "blue").unwrap();
    store.vote("ann", "p2", "x").unwrap();
    assert!(store.tallies_match());
    store.vote("ann", "p1", "green").unwrap();
    store.vote("bob", "p1", "red").unwrap();
    assert!(store.vote("cat", "p1", "purple").is_err());
    assert!(store.vote("cat", "p3", "red").is_err());
    assert!(store.create("p3", &["1", "2", "3", "4", "5", "6"]).is_err());
    assert!(store.tallies_match());
    assert_eq!(store.polls["p1"].options, vec![(s("red"), 1), (s("green"), 1), (s("blue"), 1)]);
    assert_eq!(store.polls["p2"].options, vec![(s("x"), 1), (s("y"), 0), (s("x"), 0)]);
}

#[test]
fn recreating_a_voted_poll_drops_its_counts() {
    let mut store = Store::default();
    store.create("p", &["a"]).unwrap();
    store.vote("ann", "p", "a").unwrap();
    assert!(store.tallies_match());
    store.create("p", &["a"]).unwrap();
    assert_eq!(store.polls["p"].options, vec![(s("a"), 0)]);
    assert!(!store.tallies_match());
}
