//! Descriptive messages, and the simplest error value: one with a message
//! and no cause.

use vstd::prelude::*;

use crate::Display;
use crate::ErrorChain;
use crate::ErrorDisplay;

verus! {

/// A descriptive message: either a borrowed compile-time constant, kept
/// without a copy, or an owned heap string.  Both read uniformly as a
/// sequence of characters through the view.
pub enum Message {
    /// A borrowed compile-time constant.
    Borrowed(&'static str),
    /// An owned heap string.
    Owned(String),
}

impl View for Message {
    type V = Seq<char>;

    open spec fn view(&self) -> Seq<char> {
        match self {
            Message::Borrowed(s) => s@,
            Message::Owned(s) => s@,
        }
    }
}

impl Message {
    /// The message's text, as an owned string.
    pub fn as_text(&self) -> (t: String)
        ensures
            t@ == self@,
    {
        match self {
            Message::Borrowed(s) => (*s).to_owned(),
            Message::Owned(s) => s.clone(),
        }
    }
}

/// An error that reports a message as its display text and no cause: the
/// base case of every chain.
pub struct TextError {
    /// The error's display text.
    pub message: Message,
}

impl TextError {
    /// An error with the given display text and no cause.
    pub fn new(message: Message) -> (e: TextError)
        ensures
            e.message == message,
            e.chain() == seq![message@],
    {
        TextError { message }
    }
}

impl ErrorDisplay for TextError {
    open spec fn chain(&self) -> Seq<Seq<char>> {
        seq![self.message@]
    }

    proof fn chain_has_text(&self) {
    }

    fn text(&self) -> (t: String) {
        self.message.as_text()
    }

    fn cause(&self) -> (c: Option<ErrorChain>) {
        None
    }

    fn display<'a>(&'a self) -> (d: Display<'a, Self>) {
        Display { err: self }
    }
}

} // verus!
