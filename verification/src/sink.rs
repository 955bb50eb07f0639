//! Text sinks: destinations the renderer writes into.  A sink accepts UTF-8
//! text and may refuse a write; rendering stops at the first refusal and
//! surfaces it.

use vstd::prelude::*;

use vstd::string::StringExecFns;

verus! {

/// The failure a text sink reports for a refused write.
#[derive(Clone, Copy, Debug, PartialEq, Eq, Structural)]
pub struct WriteError;

/// A destination for rendered text.  Its model is `content()`, the text
/// accepted so far, and `accepts(text)`, whether a write of `text` would be
/// accepted in the sink's present state.  A write takes its whole text or
/// none of it.
pub trait TextSink: Sized {
    /// The text this sink has accepted so far.
    spec fn content(&self) -> Seq<char>;

    /// Whether the sink, in its present state, accepts a write of `text`.
    spec fn accepts(&self, text: Seq<char>) -> bool;

    /// Writes `text`: the write succeeds, and appends the whole text to the
    /// content, exactly when the sink accepts it; a refused write leaves the
    /// content unchanged.
    fn write_text(&mut self, text: &str) -> (r: Result<(), WriteError>)
        ensures
            r is Ok <==> old(self).accepts(text@),
            r is Ok ==> final(self).content() == old(self).content() + text@,
            r is Err ==> final(self).content() == old(self).content(),
    ;
}

/// A sink backed by a string, accepting every write.
pub struct StringSink {
    /// The text written so far.
    pub buf: String,
}

impl StringSink {
    /// An empty sink.
    pub fn new() -> (s: StringSink)
        ensures
            s.content() == Seq::<char>::empty(),
    {
        StringSink { buf: String::new() }
    }

    /// The accepted text, as the backing string.
    pub fn into_text(self) -> (t: String)
        ensures
            t@ == self.content(),
    {
        self.buf
    }
}

impl TextSink for StringSink {
    open spec fn content(&self) -> Seq<char> {
        self.buf@
    }

    open spec fn accepts(&self, text: Seq<char>) -> bool {
        true
    }

    fn write_text(&mut self, text: &str) -> (r: Result<(), WriteError>) {
        self.buf.append(text);
        Ok(())
    }
}

/// A sink that accepts a set number of writes and refuses every later one:
/// a small fallible destination, there to exercise how rendering surfaces a
/// sink's refusal.
pub struct LimitedSink {
    /// The text written so far.
    pub buf: String,
    /// How many more writes the sink accepts.
    pub writes_left: usize,
}

impl LimitedSink {
    /// An empty sink that accepts `writes` writes.
    pub fn new(writes: usize) -> (s: LimitedSink)
        ensures
            s.content() == Seq::<char>::empty(),
            s.writes_left == writes,
    {
        LimitedSink { buf: String::new(), writes_left: writes }
    }

    /// The accepted text, as the backing string.
    pub fn into_text(self) -> (t: String)
        ensures
            t@ == self.content(),
    {
        self.buf
    }
}

impl TextSink for LimitedSink {
    open spec fn content(&self) -> Seq<char> {
        self.buf@
    }

    open spec fn accepts(&self, text: Seq<char>) -> bool {
        self.writes_left >= 1
    }

    fn write_text(&mut self, text: &str) -> (r: Result<(), WriteError>) {
        if self.writes_left >= 1 {
            self.writes_left = self.writes_left - 1;
            self.buf.append(text);
            Ok(())
        } else {
            Err(WriteError)
        }
    }
}

} // verus!
