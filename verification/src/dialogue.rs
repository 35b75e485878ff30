//! Operations that need answers from outside.
//!
//! An operation is a function of what it starts from and of the answers it has
//! received so far. It asks its questions one after the other; at the first one
//! that has no answer yet it stops, and whoever runs it performs that question
//! and starts it again with one more answer. Nothing is kept between two starts
//! but the answers, so an operation that is never finished leaves no trace.
use vstd::prelude::*;

verus! {

/// The questions asked so far and the answers not used yet.
#[derive(Debug)]
pub struct Dialogue<Q, A> {
    pub answers: Vec<A>,
    pub asked: Vec<Q>,
}

/// [`Dialogue`] as a mathematical value.
#[verifier::ext_equal]
pub struct Talk<Q, A> {
    pub answers: Seq<A>,
    pub asked: Seq<Q>,
}

impl<Q: DeepView, A: DeepView> DeepView for Dialogue<Q, A> {
    type V = Talk<Q::V, A::V>;

    open spec fn deep_view(&self) -> Talk<Q::V, A::V> {
        Talk { answers: self.answers.deep_view(), asked: self.asked.deep_view() }
    }
}

impl<Q, A> Talk<Q, A> {
    /// A dialogue in which nothing was asked yet.
    pub open spec fn start(answers: Seq<A>) -> Self {
        Talk { answers, asked: Seq::empty() }
    }

    /// The dialogue after one more question.
    pub open spec fn ask(self, question: Q) -> Self {
        Talk {
            answers: if self.answers.len() > 0 {
                self.answers.drop_first()
            } else {
                self.answers
            },
            asked: self.asked.push(question),
        }
    }

    /// The answer to the question asked next, if there is one already.
    pub open spec fn answer(self) -> Option<A> {
        if self.answers.len() > 0 {
            Some(self.answers[0])
        } else {
            None
        }
    }
}

impl<Q: DeepView, A: DeepView> Dialogue<Q, A> {
    /// A dialogue that starts with these answers at hand.
    pub fn new(answers: Vec<A>) -> (r: Self)
        ensures
            r.deep_view() == Talk::<Q::V, A::V>::start(answers.deep_view()),
    {
        let r = Dialogue { answers, asked: Vec::new() };
        assert(r.deep_view() =~= Talk::<Q::V, A::V>::start(answers.deep_view()));
        r
    }

    /// Ask a question. `None` means that its answer is not there yet.
    pub fn ask(&mut self, question: Q) -> (r: Option<A>)
        ensures
            final(self).deep_view() == old(self).deep_view().ask(question.deep_view()),
            r.deep_view() == old(self).deep_view().answer(),
    {
        self.asked.push(question);
        let r = if self.answers.len() > 0 {
            Some(self.answers.remove(0))
        } else {
            None
        };
        assert(self.deep_view() =~= old(self).deep_view().ask(question.deep_view()));
        r
    }
}

// What every operation keeps to.

/// The dialogue with more answers at hand.
#[verifier::opaque]
pub open spec fn longer<Q, A>(talk: Talk<Q, A>, more: Seq<A>) -> Talk<Q, A> {
    Talk { answers: talk.answers + more, asked: talk.asked }
}

/// Every question of the first dialogue was asked in the second, in that order.
#[verifier::opaque]
pub open spec fn goes_on<Q, A>(from: Talk<Q, A>, to: Talk<Q, A>) -> bool {
    &&& from.asked.len() <= to.asked.len()
    &&& forall|i: int| 0 <= i < from.asked.len() ==> from.asked[i] == #[trigger] to.asked[i]
}

/// From one point of a dialogue to a later one, each question used up one
/// answer; where the last one has no answer, none is left.
#[verifier::opaque]
pub open spec fn tidy<Q, A>(from: Talk<Q, A>, to: Talk<Q, A>, over: bool) -> bool {
    let asked = to.asked.len() - from.asked.len();
    &&& goes_on(from, to)
    &&& if over {
        &&& asked <= from.answers.len()
        &&& to.answers == from.answers.skip(asked)
    } else {
        &&& asked == from.answers.len() + 1
        &&& to.answers.len() == 0
    }
}

/// Two tidy stretches of a dialogue make one.
pub broadcast proof fn passes<Q, A>(a: Talk<Q, A>, b: Talk<Q, A>, c: Talk<Q, A>, over: bool)
    requires
        #[trigger] tidy(a, b, true),
        #[trigger] tidy(b, c, over),
    ensures
        tidy(a, c, over),
{
    reveal(tidy);
    reveal(goes_on);
    assert(goes_on(a, c));
    let first = b.asked.len() - a.asked.len();
    let second = c.asked.len() - b.asked.len();
    if over {
        assert(a.answers.skip(first).skip(second) =~= a.answers.skip(first + second));
    }
}

/// One question is tidy.
pub broadcast proof fn asking_is_tidy<Q, A>(talk: Talk<Q, A>, question: Q)
    ensures
        tidy(talk, #[trigger] talk.ask(question), talk.answer() is Some),
{
    reveal(tidy);
    reveal(goes_on);
    if talk.answers.len() > 0 {
        assert(talk.answers.drop_first() =~= talk.answers.skip(1));
    }
}

/// No question at all is tidy.
pub broadcast proof fn staying_is_tidy<Q, A>(talk: Talk<Q, A>)
    ensures
        #[trigger] tidy(talk, talk, true),
{
    reveal(tidy);
    reveal(goes_on);
    assert(talk.answers.skip(0) =~= talk.answers);
}

/// More answers do not change what comes of one question.
pub broadcast proof fn asking_is_steady<Q, A>(talk: Talk<Q, A>, more: Seq<A>, question: Q)
    ensures
        talk.answer() is Some ==> longer(talk, more).answer() == talk.answer(),
        talk.answer() is Some ==> #[trigger] longer(talk, more).ask(question) == longer(
            talk.ask(question),
            more,
        ),
        talk.answer() is None ==> goes_on(talk.ask(question), longer(talk, more).ask(question)),
{
    reveal(longer);
    reveal(goes_on);
    if talk.answers.len() > 0 {
        assert((talk.answers + more).drop_first() =~= talk.answers.drop_first() + more);
    }
}

/// What was asked before stays asked.
pub broadcast proof fn further<Q, A>(a: Talk<Q, A>, b: Talk<Q, A>, c: Talk<Q, A>, over: bool)
    requires
        #[trigger] goes_on(a, b),
        #[trigger] tidy(b, c, over),
    ensures
        goes_on(a, c),
{
    reveal(tidy);
    reveal(goes_on);
}

/// What was asked in a tidy dialogue from its start: as many questions as
/// answers were used, and one more where the last answer is missing. A dialogue
/// that goes on from it begins with the same questions.
pub proof fn tidy_from_start<Q, A>(answers: Seq<A>, to: Talk<Q, A>, over: bool)
    requires
        tidy(Talk::start(answers), to, over),
    ensures
        over ==> to.asked.len() + to.answers.len() == answers.len(),
        !over ==> to.asked.len() == answers.len() + 1,
        forall|other: Talk<Q, A>| #[trigger]
            goes_on(to, other) ==> to.asked == other.asked.take(to.asked.len() as int),
{
    reveal(tidy);
    reveal(goes_on);
    assert forall|other: Talk<Q, A>| #[trigger] goes_on(to, other) implies to.asked
        == other.asked.take(to.asked.len() as int) by {
        assert(to.asked =~= other.asked.take(to.asked.len() as int));
    }
}

/// A dialogue with more answers at its start.
pub proof fn longer_from_start<Q, A>(answers: Seq<A>, more: Seq<A>)
    ensures
        longer(Talk::<Q, A>::start(answers), more) == Talk::<Q, A>::start(answers + more),
        forall|talk: Talk<Q, A>| (#[trigger] longer(talk, more)).asked == talk.asked,
{
    reveal(longer);
}

} // verus!
