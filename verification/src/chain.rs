//! The type-erased error: a display text and, optionally, a boxed cause of
//! the same type.  Any error can be erased into this form, and a chain of
//! heterogeneous errors becomes one homogeneous linked chain.

use vstd::prelude::*;

use crate::Display;
use crate::ErrorDisplay;

verus! {

/// A type-erased error value: its own display text, and optionally its
/// cause, itself type-erased.  This is the uniform shape an error of any
/// concrete type takes under [`erase`].
pub struct ErrorChain {
    /// The display text of this link.
    pub text: String,
    /// The cause of this link, if it reports one.
    pub cause: Option<Box<ErrorChain>>,
}

impl ErrorChain {
    /// The display texts of this link and of all links behind it, this
    /// link's text first.
    pub open spec fn texts(&self) -> Seq<Seq<char>>
        decreases self,
    {
        match self.cause {
            Some(b) => seq![self.text@] + b.texts(),
            None => seq![self.text@],
        }
    }

    /// A link with the given display text and no cause.
    pub fn new(text: String) -> (e: ErrorChain)
        ensures
            e.texts() == seq![text@],
    {
        ErrorChain { text, cause: None }
    }

    /// A link with the given display text, reporting `cause` as its cause.
    pub fn with_cause(text: String, cause: ErrorChain) -> (e: ErrorChain)
        ensures
            e.texts() == seq![text@] + cause.texts(),
    {
        ErrorChain { text, cause: Some(Box::new(cause)) }
    }

    /// A structural copy of this link and of every link behind it.
    pub fn duplicate(&self) -> (r: ErrorChain)
        ensures
            r.texts() == self.texts(),
        decreases *self,
    {
        match &self.cause {
            Some(b) => ErrorChain {
                text: self.text.clone(),
                cause: Some(Box::new(b.duplicate())),
            },
            None => ErrorChain { text: self.text.clone(), cause: None },
        }
    }
}

impl ErrorDisplay for ErrorChain {
    open spec fn chain(&self) -> Seq<Seq<char>> {
        self.texts()
    }

    proof fn chain_has_text(&self) {
    }

    fn text(&self) -> (t: String) {
        self.text.clone()
    }

    fn cause(&self) -> (c: Option<ErrorChain>) {
        match &self.cause {
            Some(b) => Some(b.duplicate()),
            None => None,
        }
    }

    fn display<'a>(&'a self) -> (d: Display<'a, Self>) {
        Display { err: self }
    }
}

/// The type-erased form of any error: the same display texts, in the same
/// order, held as one homogeneous chain.
pub fn erase<E: ErrorDisplay>(e: &E) -> (c: ErrorChain)
    ensures
        c.texts() == e.chain(),
{
    let t = e.text();
    match e.cause() {
        Some(cc) => {
            let r = ErrorChain { text: t, cause: Some(Box::new(cc)) };
            proof {
                assert(r.texts() =~= e.chain());
            }
            r
        },
        None => {
            let r = ErrorChain { text: t, cause: None };
            proof {
                assert(r.texts() =~= e.chain());
            }
            r
        },
    }
}

} // verus!
