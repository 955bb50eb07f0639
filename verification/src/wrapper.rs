//! Adding context to an error: a message paired with the error it explains.

use vstd::prelude::*;

use crate::chain::erase;
use crate::lemma_render_single_cause;
use crate::rendered;
use crate::separator;
use crate::Display;
use crate::ErrorChain;
use crate::ErrorDisplay;
use crate::Message;

verus! {

/// A message paired with the error it explains.  The wrapper is itself an
/// error: its display text is the message alone, and its single cause is the
/// wrapped error, whose own text and causes it never alters.
pub struct ErrorWrapper<E> {
    /// The message describing this error.
    pub message: Message,
    /// The wrapped error: this error's single cause.
    pub error: E,
}

/// Pairs a descriptive message with the error it explains.  The error moves
/// into the wrapper unchanged: the wrapper's chain is the message followed
/// by every text of the wrapped error's chain.
pub fn wrap<E: ErrorDisplay>(m: Message, e: E) -> (w: ErrorWrapper<E>)
    ensures
        w.message == m,
        w.error == e,
        w.chain() == seq![m@] + e.chain(),
{
    ErrorWrapper { message: m, error: e }
}

impl<E: ErrorDisplay> ErrorDisplay for ErrorWrapper<E> {
    open spec fn chain(&self) -> Seq<Seq<char>> {
        seq![self.message@] + self.error.chain()
    }

    proof fn chain_has_text(&self) {
    }

    fn text(&self) -> (t: String) {
        self.message.as_text()
    }

    fn cause(&self) -> (c: Option<ErrorChain>) {
        let cc = erase(&self.error);
        proof {
            self.error.chain_has_text();
            assert(cc.texts() =~= self.chain().drop_first());
        }
        Some(cc)
    }

    fn display<'a>(&'a self) -> (d: Display<'a, Self>) {
        Display { err: self }
    }
}

/// Law: a wrapper around a causeless error renders as the message, the
/// separator, then the wrapped error's text.
pub proof fn lemma_render_wrapped<E: ErrorDisplay>(w: &ErrorWrapper<E>)
    requires
        w.error.chain().len() == 1,
    ensures
        rendered(w.chain()) == w.message@ + separator() + w.error.chain().first(),
{
    assert(w.chain().first() == w.message@);
    assert(w.chain().last() == w.error.chain().first());
    lemma_render_single_cause(w);
}

/// Law: constructing a wrapper leaves the wrapped error as it is.  The
/// wrapper's chain merely prepends the message: behind that first text
/// stands exactly the wrapped error's own chain, so the wrapped error
/// renders after wrapping as it rendered alone.
pub proof fn lemma_wrap_preserves_error<E: ErrorDisplay>(w: &ErrorWrapper<E>)
    ensures
        w.chain().drop_first() == w.error.chain(),
{
    assert(w.chain().drop_first() =~= w.error.chain());
}

} // verus!
