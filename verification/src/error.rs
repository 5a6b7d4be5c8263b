//! A plain error value: a description, and the messages of the errors that
//! caused it.

use vstd::prelude::*;
use crate::state::string_views;

verus! {

/// An error with a description and the messages of its causes, in order.
pub struct BasicError {
    pub description: String,
    pub errs: Vec<String>,
}

/// A result whose error is a `BasicError`.
pub type BasicResult<A> = Result<A, BasicError>;

/// The strings of `parts` written one after the other.
pub open spec fn concat_all(parts: Seq<Seq<char>>) -> Seq<char>
    decreases parts.len(),
{
    if parts.len() == 0 {
        Seq::empty()
    } else {
        concat_all(parts.drop_last()) + parts.last()
    }
}

impl BasicError {
    /// How the error reads: its description, then each cause's message.
    pub open spec fn message_spec(self) -> Seq<char> {
        self.description@ + concat_all(string_views(self.errs@))
    }

    /// The error as it is displayed: its description followed by the
    /// messages of its causes.
    pub fn message(&self) -> (m: String)
        ensures
            m@ == self.message_spec(),
    {
        let mut m = String::from_str(self.description.as_str());
        let ghost views = string_views(self.errs@);
        let mut i: usize = 0;
        while i < self.errs.len()
            invariant
                i <= self.errs.len(),
                views == string_views(self.errs@),
                m@ == self.description@ + concat_all(views.take(i as int)),
            decreases self.errs.len() - i,
        {
            proof {
                assert(views.take(i + 1).drop_last() =~= views.take(i as int));
            }
            m.append(self.errs[i].as_str());
            i = i + 1;
            proof {
                assert(m@ =~= self.description@ + concat_all(views.take(i as int)));
            }
        }
        proof {
            assert(views.take(i as int) =~= views);
        }
        m
    }

    /// The description of the error.
    pub fn description(&self) -> (d: &str)
        ensures
            d@ == self.description@,
    {
        self.description.as_str()
    }

    /// The first cause, if any.
    pub fn cause(&self) -> (c: Option<&String>)
        ensures
            match c {
                Some(e) => self.errs@.len() > 0 && *e == self.errs@[0],
                None => self.errs@.len() == 0,
            },
    {
        if self.errs.len() > 0 {
            Some(&self.errs[0])
        } else {
            None
        }
    }
}

/// A result whose error, given by its message, becomes a `BasicError` with
/// that message as description and no cause; a success is kept.
pub fn box_err<A>(x: Result<A, String>) -> (r: BasicResult<A>)
    ensures
        match x {
            Ok(a) => r == Ok::<A, BasicError>(a),
            Err(msg) => r matches Err(e) && e.description@ == msg@ && e.errs@.len() == 0,
        },
{
    match x {
        Ok(a) => Ok(a),
        Err(msg) => Err(BasicError { description: msg, errs: Vec::new() }),
    }
}

/// An error made by `box_err` reads exactly as the message it was made from.
pub proof fn lemma_boxed_error_reads_as_message(e: BasicError)
    requires
        e.errs@.len() == 0,
    ensures
        e.message_spec() == e.description@,
{
    assert(string_views(e.errs@) =~= Seq::<Seq<char>>::empty());
    assert(e.description@ + Seq::<char>::empty() =~= e.description@);
}

} // verus!
