use vstd::prelude::*;

verus! {

/// A key/value attribute of the answer to a message.
#[derive(Clone, Debug, PartialEq)]
pub struct Attribute {
    pub key: String,
    pub value: String,
}

impl View for Attribute {
    type V = (Seq<char>, Seq<char>);

    open spec fn view(&self) -> (Seq<char>, Seq<char>) {
        (self.key@, self.value@)
    }
}

/// The answer to a message that the contract accepted: its attributes, in order.
#[derive(Clone, Debug, PartialEq)]
pub struct Response {
    pub attributes: Vec<Attribute>,
}

impl View for Response {
    type V = Seq<(Seq<char>, Seq<char>)>;

    open spec fn view(&self) -> Seq<(Seq<char>, Seq<char>)> {
        self.attributes@.map_values(|a: Attribute| a@)
    }
}

impl Response {
    /// An answer with no attributes.
    pub fn new() -> (r: Response)
        ensures
            r@ == Seq::<(Seq<char>, Seq<char>)>::empty(),
    {
        let r = Response { attributes: Vec::new() };
        assert(r@ =~= Seq::<(Seq<char>, Seq<char>)>::empty());
        r
    }

    /// The same answer with one more attribute at the end.
    pub fn add_attribute(self, key: String, value: String) -> (r: Response)
        ensures
            r@ == self@.push((key@, value@)),
    {
        let mut attributes = self.attributes;
        attributes.push(Attribute { key, value });
        let r = Response { attributes };
        assert(r@ =~= self@.push((key@, value@)));
        r
    }
}

} // verus!
