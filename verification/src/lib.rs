//! Rendering of an error together with its chain of causes as one line of
//! text.
//!
//! An error value, for this crate, is anything with a human-readable display
//! text and, optionally, one cause, itself an error value.  The
//! [`ErrorDisplay`] trait captures that capability, [`Display`] renders an
//! error's whole chain into a text sink, joining the texts with the fixed
//! separator `" -> "`, and [`wrapper::wrap`] builds a new link in front of an
//! existing error.  Every error of this crate owns its causes, so a chain is
//! finite and acyclic by construction, and rendering always ends.

use vstd::prelude::*;

pub mod chain;
pub mod message;
pub mod sink;
pub mod wrapper;

pub use chain::ErrorChain;
pub use chain::erase;
pub use message::Message;
pub use message::TextError;
pub use sink::LimitedSink;
pub use sink::StringSink;
pub use sink::TextSink;
pub use sink::WriteError;
pub use wrapper::ErrorWrapper;
pub use wrapper::wrap;

verus! {

/// The separator written between two texts of a cause chain.
pub open spec fn separator() -> Seq<char> {
    " -> "@
}

/// What rendering appends after the first text, for the texts of the causes:
/// each text is preceded by the separator.
pub open spec fn rendered_causes(texts: Seq<Seq<char>>) -> Seq<char>
    decreases texts.len(),
{
    if texts.len() == 0 {
        Seq::<char>::empty()
    } else {
        separator() + texts.first() + rendered_causes(texts.drop_first())
    }
}

/// The rendering of a whole chain of texts: the first text, then each
/// remaining text preceded by the separator.  A chain of one text renders as
/// that text alone.
pub open spec fn rendered(texts: Seq<Seq<char>>) -> Seq<char> {
    if texts.len() == 0 {
        Seq::<char>::empty()
    } else {
        texts.first() + rendered_causes(texts.drop_first())
    }
}

/// The error capability: a display text, and optionally one cause.
///
/// The model of an error is `chain()`: the sequence of the display texts met
/// when following the cause relation, the error's own text first.  Every
/// executable method is specified against that model, so rendering depends on
/// nothing but the chain.
pub trait ErrorDisplay: Sized {
    /// The display texts of this error and of its causes: this error's own
    /// text first, then each cause's text from nearest to furthest.
    spec fn chain(&self) -> Seq<Seq<char>>;

    /// A chain always holds at least the error's own text.
    proof fn chain_has_text(&self)
        ensures
            self.chain().len() >= 1,
    ;

    /// This error's own display text.
    fn text(&self) -> (t: String)
        ensures
            t@ == self.chain().first(),
    ;

    /// This error's cause, if it reports one, as a type-erased chain of its
    /// own.  The cause carries every text of this error's chain but the
    /// first.
    fn cause(&self) -> (c: Option<ErrorChain>)
        ensures
            match c {
                Some(cc) => self.chain().len() >= 2 && cc.texts() == self.chain().drop_first(),
                None => self.chain().len() == 1,
            },
    ;

    /// A render handle borrowing this error.
    fn display<'a>(&'a self) -> (d: Display<'a, Self>)
        ensures
            d.err == self,
    ;
}

/// Splitting a rendering of causes: the causes up to `j` render first, the
/// causes from `j` on follow, with nothing between them.
pub proof fn lemma_causes_split(s: Seq<Seq<char>>, j: int)
    requires
        0 <= j <= s.len(),
    ensures
        rendered_causes(s) == rendered_causes(s.take(j)) + rendered_causes(s.skip(j)),
    decreases j,
{
    if j == 0 {
        assert(s.take(0) =~= Seq::<Seq<char>>::empty());
        assert(s.skip(0) =~= s);
        assert(rendered_causes(Seq::<Seq<char>>::empty()) == Seq::<char>::empty());
        assert(Seq::<char>::empty() + rendered_causes(s) =~= rendered_causes(s));
    } else {
        let d = s.drop_first();
        lemma_causes_split(d, j - 1);
        assert(s.take(j).first() == s.first());
        assert(s.take(j).drop_first() =~= d.take(j - 1));
        assert(s.skip(j) =~= d.skip(j - 1));
        let a = separator() + s.first();
        let x = rendered_causes(d.take(j - 1));
        let y = rendered_causes(d.skip(j - 1));
        assert(a + (x + y) =~= (a + x) + y);
    }
}

/// Splitting a full rendering: the first `i` texts render as a chain of
/// their own, the remaining texts follow as causes.
pub proof fn lemma_rendered_split(texts: Seq<Seq<char>>, i: int)
    requires
        1 <= i <= texts.len(),
    ensures
        rendered(texts) == rendered(texts.take(i)) + rendered_causes(texts.skip(i)),
{
    let d = texts.drop_first();
    lemma_causes_split(d, i - 1);
    assert(texts.take(i).first() == texts.first());
    assert(texts.take(i).drop_first() =~= d.take(i - 1));
    assert(texts.skip(i) =~= d.skip(i - 1));
    let a = texts.first();
    let x = rendered_causes(d.take(i - 1));
    let y = rendered_causes(d.skip(i - 1));
    assert(a + (x + y) =~= (a + x) + y);
}

/// Rendering one more text appends the separator and that text.
pub proof fn lemma_rendered_snoc(texts: Seq<Seq<char>>, i: int)
    requires
        1 <= i < texts.len(),
    ensures
        rendered(texts.take(i + 1)) == rendered(texts.take(i)) + separator() + texts[i],
{
    let t1 = texts.take(i + 1);
    lemma_rendered_split(t1, i);
    assert(t1.take(i) =~= texts.take(i));
    assert(t1.skip(i) =~= seq![texts[i]]);
    assert(seq![texts[i]].drop_first() =~= Seq::<Seq<char>>::empty());
    assert(rendered_causes(Seq::<Seq<char>>::empty()) == Seq::<char>::empty());
    assert(separator() + texts[i] + Seq::<char>::empty() =~= separator() + texts[i]);
    let p = rendered(texts.take(i));
    assert(p + (separator() + texts[i]) =~= p + separator() + texts[i]);
}

/// Law: an error without a cause renders as its own text alone, with no
/// separator.
pub proof fn lemma_render_no_cause<E: ErrorDisplay>(e: &E)
    requires
        e.chain().len() == 1,
    ensures
        rendered(e.chain()) == e.chain().first(),
{
    assert(e.chain().drop_first() =~= Seq::<Seq<char>>::empty());
    assert(rendered_causes(Seq::<Seq<char>>::empty()) == Seq::<char>::empty());
    assert(e.chain().first() + Seq::<char>::empty() =~= e.chain().first());
}

/// Law: an error with exactly one cause, itself causeless, renders as its
/// own text, the separator, then the cause's text.
pub proof fn lemma_render_single_cause<E: ErrorDisplay>(e: &E)
    requires
        e.chain().len() == 2,
    ensures
        rendered(e.chain()) == e.chain().first() + separator() + e.chain().last(),
{
    let d = e.chain().drop_first();
    assert(d.first() == e.chain().last());
    assert(d.drop_first() =~= Seq::<Seq<char>>::empty());
    assert(rendered_causes(Seq::<Seq<char>>::empty()) == Seq::<char>::empty());
    assert(separator() + d.first() + Seq::<char>::empty() =~= separator() + d.first());
    assert(e.chain().first() + (separator() + d.first()) =~= e.chain().first() + separator()
        + d.first());
}

/// Law: rendering depends on the chain alone.  Two errors, of any two
/// types, whose chains are equal render to the same text; in particular an
/// error reached through its concrete type and the same error type-erased
/// render identically.
pub proof fn lemma_render_transparent<A: ErrorDisplay, B: ErrorDisplay>(a: &A, b: &B)
    requires
        a.chain() == b.chain(),
    ensures
        rendered(a.chain()) == rendered(b.chain()),
{
}

/// A render handle: a non-owning view of one error, used to write the texts
/// of the error's chain, joined by the separator, into a text sink.
pub struct Display<'a, E> {
    /// The borrowed error this handle renders.
    pub err: &'a E,
}

impl<'a, E: ErrorDisplay> Display<'a, E> {
    /// The chain of the borrowed error.
    pub open spec fn chain(&self) -> Seq<Seq<char>> {
        self.err.chain()
    }

    /// Binds a render handle to an error reference.
    pub fn new(err: &'a E) -> (d: Self)
        ensures
            d.chain() == err.chain(),
    {
        Display { err }
    }

    /// Writes the error's own text, then each cause's text preceded by the
    /// separator, into `sink`.  On success the sink has taken exactly the
    /// rendering of the chain; a sink that accepts every write is always
    /// written in full.  The first refused write stops the rendering at
    /// once: the sink is then left with a prefix of the rendering, whole
    /// writes only, and the refusal is surfaced unchanged.
    pub fn write_to<S: TextSink>(&self, sink: &mut S) -> (r: Result<(), WriteError>)
        ensures
            r is Ok ==> final(sink).content() == old(sink).content() + rendered(self.chain()),
            r is Err ==> exists|n: int|
                0 <= n <= rendered(self.chain()).len() && final(sink).content() == old(
                    sink,
                ).content() + rendered(self.chain()).take(n),
            (forall|sk: S, t: Seq<char>| sk.accepts(t)) ==> r is Ok,
    {
        let ghost full: Seq<Seq<char>> = self.chain();
        let ghost start: Seq<char> = sink.content();
        proof {
            self.err.chain_has_text();
        }
        let t0 = self.err.text();
        let ghost pre: S = *sink;
        match sink.write_text(t0.as_str()) {
            Err(refusal) => {
                proof {
                    assert(!pre.accepts(t0@));
                    assert(start + rendered(full).take(0) =~= start);
                    assert(0 <= 0 <= rendered(full).len() && sink.content() == start + rendered(
                        full,
                    ).take(0));
                }
                return Err(refusal);
            },
            Ok(u) => {
            },
        }
        proof {
            assert(full.take(1).first() == full.first());
            assert(full.take(1).drop_first() =~= Seq::<Seq<char>>::empty());
            assert(rendered_causes(Seq::<Seq<char>>::empty()) == Seq::<char>::empty());
            assert(full.first() + Seq::<char>::empty() =~= full.first());
            assert(rendered(full.take(1)) == full.first());
        }
        let mut cursor: Option<ErrorChain> = self.err.cause();
        let ghost mut i: int = 1;
        proof {
            assert(full.drop_first() =~= full.skip(1));
        }
        while cursor.is_some()
            invariant
                1 <= i <= full.len(),
                full == self.chain(),
                cursor is Some ==> i < full.len() && cursor->0.texts() == full.skip(i),
                cursor is None ==> i == full.len(),
                sink.content() == start + rendered(full.take(i)),
                start == old(sink).content(),
            decreases full.len() - i,
        {
            let e = cursor.unwrap();
            let ghost p: Seq<char> = rendered(full.take(i));
            let ghost pre_sep: S = *sink;
            match sink.write_text(" -> ") {
                Err(refusal) => {
                    proof {
                        assert(!pre_sep.accepts(" -> "@));
                        lemma_rendered_split(full, i);
                        assert(rendered(full).take(p.len() as int) =~= p);
                        assert(0 <= p.len() <= rendered(full).len() && sink.content() == start
                            + rendered(full).take(p.len() as int));
                    }
                    return Err(refusal);
                },
                Ok(u) => {
                },
            }
            let t = e.text();
            let ghost pre_text: S = *sink;
            match sink.write_text(t.as_str()) {
                Err(refusal) => {
                    proof {
                        assert(!pre_text.accepts(t@));
                        lemma_rendered_split(full, i);
                        let rest = full.skip(i);
                        assert(rest.first() == full[i]);
                        assert(rendered_causes(rest) == separator() + rest.first()
                            + rendered_causes(rest.drop_first()));
                        let w = full[i] + rendered_causes(rest.drop_first());
                        assert(p + (separator() + full[i] + rendered_causes(rest.drop_first()))
                            =~= (p + separator()) + w);
                        let ps = p + separator();
                        assert(rendered(full).take(ps.len() as int) =~= ps);
                        assert(" -> "@ == separator());
                        assert(0 <= ps.len() <= rendered(full).len() && sink.content() == start
                            + rendered(full).take(ps.len() as int));
                    }
                    return Err(refusal);
                },
                Ok(u) => {
                },
            }
            proof {
                assert(" -> "@ == separator());
                assert(t@ == full.skip(i).first());
                assert(full.skip(i).first() == full[i]);
                lemma_rendered_snoc(full, i);
                assert(((start + p) + separator()) + t@ =~= start + (p + separator() + full[i]));
            }
            cursor = e.cause();
            proof {
                i = i + 1;
                if cursor is Some {
                    assert(full.skip(i - 1).drop_first() =~= full.skip(i));
                }
            }
        }
        proof {
            assert(full.take(full.len() as int) =~= full);
        }
        Ok(())
    }

    /// The rendering of the error's chain, as one owned string: the error's
    /// own text, then each cause's text preceded by the separator.
    pub fn to_text(&self) -> (s: String)
        ensures
            s@ == rendered(self.chain()),
    {
        let mut sink = StringSink::new();
        let r = self.write_to(&mut sink);
        proof {
            assert(forall|sk: StringSink, t: Seq<char>| sk.accepts(t));
            assert(Seq::<char>::empty() + rendered(self.chain()) =~= rendered(self.chain()));
        }
        match r {
            Ok(u) => sink.into_text(),
            Err(refusal) => {
                proof {
                    assert(false);
                }
                unreached()
            },
        }
    }
}

} // verus!
