//! Errors with the context they gathered on the way up.
use vstd::prelude::*;
use vstd::string::*;
use crate::text;

verus! {

/// What went wrong: the outermost message first, then what caused it.
#[derive(Debug, Clone, PartialEq, Eq)]
pub struct Error {
    pub chain: Vec<String>,
}

/// The messages of an error, outermost first.
pub type Chain = Seq<Seq<char>>;

impl DeepView for Error {
    type V = Chain;

    open spec fn deep_view(&self) -> Chain {
        self.chain.deep_view()
    }
}

/// A chain of one message.
pub open spec fn failure(message: Seq<char>) -> Chain {
    seq![message]
}

/// The chain with one more message in front.
pub open spec fn in_context(message: Seq<char>, cause: Chain) -> Chain {
    seq![message] + cause
}

/// The whole chain in one line.
pub open spec fn rendered(chain: Chain) -> Seq<char> {
    text::joined(chain, ": "@)
}

/// What an operation comes to: a value, or the messages of its error.
pub type Outcome<T> = Result<T, Chain>;

/// The outcome a result stands for.
pub open spec fn outcome<T: DeepView>(r: Result<T, Error>) -> Outcome<T::V> {
    match r {
        Ok(value) => Ok(value.deep_view()),
        Err(e) => Err(e.deep_view()),
    }
}

impl Error {
    /// An error with one message and no cause.
    pub fn new(message: &str) -> (r: Error)
        ensures
            r.deep_view() == failure(message@),
    {
        let mut chain: Vec<String> = Vec::new();
        chain.push(message.to_owned());
        let r = Error { chain };
        assert(r.deep_view() =~= failure(message@));
        r
    }

    /// The same error, with what was being done when it came up.
    pub fn context(self, message: &str) -> (r: Error)
        ensures
            r.deep_view() == in_context(message@, self.deep_view()),
    {
        let mut chain = self.chain;
        chain.insert(0, message.to_owned());
        let r = Error { chain };
        assert(r.deep_view() =~= in_context(message@, self.deep_view()));
        r
    }

    /// The whole chain in one line: `context: cause`.
    pub fn render(&self) -> (r: String)
        ensures
            r@ == rendered(self.deep_view()),
    {
        text::join(self.chain.as_slice(), ": ")
    }

    /// The outermost message alone.
    pub fn message(&self) -> (r: String)
        ensures
            self.deep_view().len() > 0 ==> r@ == self.deep_view()[0],
            self.deep_view().len() == 0 ==> r@ == Seq::<char>::empty(),
    {
        if self.chain.len() == 0 {
            String::new()
        } else {
            self.chain[0].clone()
        }
    }
}

/// A second list of the same texts.
pub fn copy_texts(texts: &Vec<String>) -> (r: Vec<String>)
    ensures
        r.deep_view() == texts.deep_view(),
{
    let r = texts.clone();
    assert(r.deep_view() =~= texts.deep_view());
    r
}

} // verus!
