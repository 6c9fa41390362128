use kompact::ask::{Ask, AskError};

#[test]
fn reply_resolves_exactly_once() {
    let mut ask: Ask<u64> = Ask::new();
    assert!(ask.try_resolve().is_none()); // still pending
    assert_eq!(ask.reply(5), Ok(()));
    assert_eq!(ask.try_resolve(), Some(Ok(5)));
    assert_eq!(ask.try_resolve(), None); // already resolved
}

#[test]
fn second_reply_is_already_replied() {
    let mut ask: Ask<u64> = Ask::new();
    assert_eq!(ask.reply(5), Ok(()));
    assert_eq!(ask.reply(6), Err(AskError::AlreadyReplied));
    // the first reply still stands
    assert_eq!(ask.try_resolve(), Some(Ok(5)));
}

#[test]
fn killed_responder_cancels_the_ask() {
    let mut ask: Ask<u64> = Ask::new();
    ask.cancel();
    assert_eq!(ask.try_resolve(), Some(Err(AskError::AskCancelled)));
    assert_eq!(ask.try_resolve(), None);
}

#[test]
fn reply_after_cancellation_fails() {
    let mut ask: Ask<u64> = Ask::new();
    ask.cancel();
    assert_eq!(ask.reply(5), Err(AskError::AskCancelled));
}

#[test]
fn cancel_after_reply_keeps_the_reply() {
    let mut ask: Ask<u64> = Ask::new();
    assert_eq!(ask.reply(7), Ok(()));
    ask.cancel();
    assert_eq!(ask.try_resolve(), Some(Ok(7)));
}
