//! The front end's handle on a node: the address at which the node listens.
use vstd::prelude::*;
use vstd::string::*;

verus! {

/// A front end that submits transactions to one node.
#[derive(Debug, PartialEq, Eq)]
pub struct Client {
    node: String,
}

impl View for Client {
    type V = Seq<char>;

    closed spec fn view(&self) -> Seq<char> {
        self.node@
    }
}

impl Client {
    /// A front end for the node at `http://localhost:8080`.
    pub fn new() -> (client: Client)
        ensures
            client@ == "http://localhost:8080"@,
    {
        Client { node: String::from_str("http://localhost:8080") }
    }

    /// The address of the node.
    pub fn get_node(&self) -> (node: &str)
        ensures
            node@ == self@,
    {
        self.node.as_str()
    }

    /// The address to post a new transaction to: the address of the node
    /// followed by `/new_transaction`.
    pub fn new_transaction_target(&self) -> (target: String)
        ensures
            target@ == self@ + "/new_transaction"@,
    {
        self.node.clone().concat("/new_transaction")
    }
}

} // verus!
