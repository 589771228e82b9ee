use vstd::prelude::*;

verus! {

/// What the contract keeps about itself: who administers it.
#[derive(Clone, Debug, PartialEq)]
pub struct Config {
    pub admin: String,
}

/// A poll: who created it, its question, and its options, each with its number of votes.
#[derive(Clone, Debug, PartialEq)]
pub struct Poll {
    pub creator: String,
    pub question: String,
    pub options: Vec<(String, u64)>,
}

/// The option that one voter chose in one poll.
#[derive(Clone, Debug, PartialEq)]
pub struct Ballot {
    pub option: String,
}

/// A poll as values: its options are (name, votes) pairs, in the order they were given.
#[verifier::ext_equal]
pub struct PollView {
    pub creator: Seq<char>,
    pub question: Seq<char>,
    pub options: Seq<(Seq<char>, u64)>,
}

pub open spec fn options_view(options: Seq<(String, u64)>) -> Seq<(Seq<char>, u64)> {
    options.map_values(|o: (String, u64)| (o.0@, o.1))
}

impl View for Config {
    type V = Seq<char>;

    open spec fn view(&self) -> Seq<char> {
        self.admin@
    }
}

impl View for Poll {
    type V = PollView;

    open spec fn view(&self) -> PollView {
        PollView {
            creator: self.creator@,
            question: self.question@,
            options: options_view(self.options@),
        }
    }
}

impl View for Ballot {
    type V = Seq<char>;

    open spec fn view(&self) -> Seq<char> {
        self.option@
    }
}

/// `i` is the first position of an option named `name`.
pub open spec fn is_first_named(options: Seq<(Seq<char>, u64)>, name: Seq<char>, i: int) -> bool {
    &&& 0 <= i < options.len()
    &&& options[i].0 == name
    &&& forall|j: int| 0 <= j < i ==> options[j].0 != name
}

/// The first position of an option named `name`, if there is one.
pub open spec fn position(options: Seq<(Seq<char>, u64)>, name: Seq<char>) -> Option<int> {
    if exists|i: int| is_first_named(options, name, i) {
        Some(choose|i: int| is_first_named(options, name, i))
    } else {
        None
    }
}

/// A name has at most one first position.
pub proof fn lemma_first_named_unique(
    options: Seq<(Seq<char>, u64)>,
    name: Seq<char>,
    i: int,
    k: int,
)
    requires
        is_first_named(options, name, i),
        is_first_named(options, name, k),
    ensures
        i == k,
{
}

pub proof fn lemma_position_at(options: Seq<(Seq<char>, u64)>, name: Seq<char>, i: int)
    requires
        is_first_named(options, name, i),
    ensures
        position(options, name) == Some(i),
{
    let k = choose|k: int| is_first_named(options, name, k);
    lemma_first_named_unique(options, name, i, k);
}

/// Where any option carries the name, a first position exists.
pub proof fn lemma_position_exists(options: Seq<(Seq<char>, u64)>, name: Seq<char>, j: int)
    requires
        0 <= j < options.len(),
        options[j].0 == name,
    ensures
        position(options, name) is Some,
        position(options, name)->0 <= j,
        is_first_named(options, name, position(options, name)->0),
    decreases j,
{
    if exists|k: int| 0 <= k < j && options[k].0 == name {
        let k = choose|k: int| 0 <= k < j && options[k].0 == name;
        lemma_position_exists(options, name, k);
    } else {
        assert(is_first_named(options, name, j));
        lemma_position_at(options, name, j);
    }
}

/// Two option lists with the same names, position by position, have the same positions.
pub proof fn lemma_position_same_names(
    a: Seq<(Seq<char>, u64)>,
    b: Seq<(Seq<char>, u64)>,
    name: Seq<char>,
)
    requires
        a.len() == b.len(),
        forall|j: int| 0 <= j < a.len() ==> a[j].0 == b[j].0,
    ensures
        position(a, name) == position(b, name),
{
    if exists|i: int| is_first_named(a, name, i) {
        let i = choose|i: int| is_first_named(a, name, i);
        assert forall|j: int| 0 <= j < i implies b[j].0 != name by {
            assert(a[j].0 != name);
        }
        assert(is_first_named(b, name, i));
        lemma_position_at(a, name, i);
        lemma_position_at(b, name, i);
    } else if exists|i: int| is_first_named(b, name, i) {
        let i = choose|i: int| is_first_named(b, name, i);
        assert forall|j: int| 0 <= j < i implies a[j].0 != name by {
            assert(b[j].0 != name);
        }
        assert(is_first_named(a, name, i));
    }
}

/// Being a first position depends on the names alone.
pub proof fn lemma_first_named_same_names(
    a: Seq<(Seq<char>, u64)>,
    b: Seq<(Seq<char>, u64)>,
    name: Seq<char>,
    i: int,
)
    requires
        a.len() == b.len(),
        forall|j: int| 0 <= j < a.len() ==> a[j].0 == b[j].0,
    ensures
        is_first_named(a, name, i) == is_first_named(b, name, i),
{
    if is_first_named(a, name, i) {
        assert forall|j: int| 0 <= j < i implies b[j].0 != name by {
            assert(a[j].0 != name);
        }
    }
    if is_first_named(b, name, i) {
        assert forall|j: int| 0 <= j < i implies a[j].0 != name by {
            assert(b[j].0 != name);
        }
    }
}

/// The first position of an option named `name` in `options`.
pub fn find_option(options: &Vec<(String, u64)>, name: &String) -> (r: Option<usize>)
    ensures
        match r {
            Some(i) => position(options_view(options@), name@) == Some(i as int),
            None => position(options_view(options@), name@) is None,
        },
{
    let ghost opts = options_view(options@);
    let mut i: usize = 0;
    while i < options.len()
        invariant
            0 <= i <= options.len(),
            opts == options_view(options@),
            forall|j: int| 0 <= j < i ==> opts[j].0 != name@,
        decreases options.len() - i,
    {
        if options[i].0 == *name {
            proof {
                assert(is_first_named(opts, name@, i as int));
                lemma_position_at(opts, name@, i as int);
            }
            return Some(i);
        }
        i = i + 1;
    }
    proof {
        if exists|k: int| is_first_named(opts, name@, k) {
            let k = choose|k: int| is_first_named(opts, name@, k);
            assert(opts[k].0 == name@);
        }
    }
    None
}

} // verus!
