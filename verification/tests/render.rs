use error_display::erase;
use error_display::wrap;
use error_display::ErrorChain;
use error_display::ErrorDisplay;
use error_display::LimitedSink;
use error_display::Message;
use error_display::StringSink;
use error_display::TextError;
use error_display::WriteError;

#[test]
fn single() {
    let e = TextError::new(Message::Borrowed("an error without nested errors"));

    assert_eq!(e.display().to_text(), "an error without nested errors");
}

#[test]
fn nested() {
    let e = TextError::new(Message::Borrowed("entity not found"));
    let e = wrap(Message::Borrowed("nested error"), e);

    assert_eq!(e.display().to_text(), "nested error -> entity not found");
}

#[test]
fn trait_object() {
    let e: ErrorChain = erase(&TextError::new(Message::Borrowed(
        "an error without nested errors",
    )));

    assert_eq!(e.display().to_text(), "an error without nested errors");
}

#[test]
fn wrapped_twice() {
    let not_found = TextError::new(Message::Borrowed("entity not found"));
    let e = wrap(
        Message::Borrowed("reading config"),
        wrap(Message::Borrowed("opening file"), not_found),
    );

    assert_eq!(
        e.display().to_text(),
        "reading config -> opening file -> entity not found"
    );
}

#[test]
fn owned_message() {
    let e = TextError::new(Message::Owned(String::from("entity not found")));
    let e = wrap(Message::Owned(String::from("nested error")), e);

    assert_eq!(e.display().to_text(), "nested error -> entity not found");
}

#[test]
fn empty_texts() {
    let e = wrap(Message::Borrowed(""), TextError::new(Message::Borrowed("")));

    assert_eq!(e.display().to_text(), " -> ");
    assert_eq!(
        TextError::new(Message::Borrowed("")).display().to_text(),
        ""
    );
}

#[test]
fn erased_matches_concrete() {
    let concrete = wrap(
        Message::Borrowed("nested error"),
        TextError::new(Message::Borrowed("entity not found")),
    );
    let abstracted: ErrorChain = erase(&concrete);

    assert_eq!(concrete.display().to_text(), abstracted.display().to_text());
}

#[test]
fn wrapping_preserves_the_wrapped_error() {
    let e = TextError::new(Message::Borrowed("entity not found"));
    let before = e.display().to_text();
    let w = wrap(Message::Borrowed("opening file"), e);

    assert_eq!(w.error.display().to_text(), before);
    assert_eq!(w.message.as_text(), "opening file");
}

#[test]
fn built_chain() {
    let base = ErrorChain::new(String::from("entity not found"));
    let e = ErrorChain::with_cause(String::from("opening file"), base);

    assert_eq!(e.display().to_text(), "opening file -> entity not found");
    assert_eq!(e.duplicate().display().to_text(), e.display().to_text());
}

#[test]
fn own_text_and_cause() {
    let e = wrap(
        Message::Borrowed("nested error"),
        TextError::new(Message::Borrowed("entity not found")),
    );

    assert_eq!(e.text(), "nested error");
    let cause = e.cause().expect("a wrapper always reports its cause");
    assert_eq!(cause.display().to_text(), "entity not found");
    assert!(cause.cause().is_none());
}

#[test]
fn string_sink_takes_everything() {
    let e = wrap(
        Message::Borrowed("nested error"),
        TextError::new(Message::Borrowed("entity not found")),
    );
    let mut sink = StringSink::new();

    let written = e.display().write_to(&mut sink);

    assert_eq!(written, Ok(()));
    assert_eq!(sink.into_text(), "nested error -> entity not found");
}

#[test]
fn refused_write_stops_rendering() {
    let e = wrap(
        Message::Borrowed("nested error"),
        TextError::new(Message::Borrowed("entity not found")),
    );
    let mut sink = LimitedSink::new(2);

    let written = e.display().write_to(&mut sink);

    assert_eq!(written, Err(WriteError));
    assert_eq!(sink.into_text(), "nested error -> ");
}

#[test]
fn refused_first_write_leaves_the_sink_empty() {
    let e = TextError::new(Message::Borrowed("an error without nested errors"));
    let mut sink = LimitedSink::new(0);

    let written = e.display().write_to(&mut sink);

    assert_eq!(written, Err(WriteError));
    assert_eq!(sink.into_text(), "");
}
