//! Answers to the commands of a chat.
//!
//! A chat subscribes and unsubscribes by command.  Each command is run
//! against the registry and answered with a fixed text.

use vstd::prelude::*;
use vstd::string::StringExecFns;
use crate::decimal::{integer_text, integer_text_of};
use crate::registry::{subscribe, unsubscribe, Registry, RegistryError, Subscriber};

verus! {

/// The answer to a subscribe command from the chat `chat_id`.
pub open spec fn subscribe_reply(answer: Result<Subscriber, RegistryError>, chat_id: i64) -> Seq<
    char,
> {
    match answer {
        Ok(_) => "Your chat id is "@ + integer_text_of(chat_id as int),
        Err(RegistryError::AlreadyExists) => "The subscriber already exists"@,
        Err(_) => "Error while saving new subscriber to DB"@,
    }
}

/// The answer to an unsubscribe command.
pub open spec fn unsubscribe_reply(answer: Result<(), RegistryError>) -> Seq<char> {
    match answer {
        Ok(_) => "Sucessfully unsubscribed"@,
        Err(_) => "Can't unsubscribe. Are you subscribed?"@,
    }
}

/// What became of a subscribe command: the registry's answer, and the text
/// for the chat.
#[derive(Debug)]
pub struct Subscription {
    pub answer: Result<Subscriber, RegistryError>,
    pub reply: String,
}

/// What became of an unsubscribe command: the registry's answer, and the
/// text for the chat.
#[derive(Debug)]
pub struct Cancellation {
    pub answer: Result<(), RegistryError>,
    pub reply: String,
}

/// Words the answer to a subscribe command from the chat `chat_id`.
pub fn reply_to_subscribe(answer: &Result<Subscriber, RegistryError>, chat_id: i64) -> (reply:
    String)
    ensures
        reply@ == subscribe_reply(*answer, chat_id),
{
    match answer {
        Ok(_) => {
            let mut reply: String = "Your chat id is ".to_owned();
            let number: String = integer_text(chat_id);
            reply.append(number.as_str());
            reply
        },
        Err(RegistryError::AlreadyExists) => "The subscriber already exists".to_owned(),
        Err(_) => "Error while saving new subscriber to DB".to_owned(),
    }
}

/// Words the answer to an unsubscribe command.
pub fn reply_to_unsubscribe(answer: &Result<(), RegistryError>) -> (reply: String)
    ensures
        reply@ == unsubscribe_reply(*answer),
{
    match answer {
        Ok(_) => "Sucessfully unsubscribed".to_owned(),
        Err(_) => "Can't unsubscribe. Are you subscribed?".to_owned(),
    }
}

/// Runs a subscribe command from the chat `chat_id`: the answer tells what
/// was registered, if anything, and the reply is the text for the chat.
pub fn enroll(chat_id: i64, registry: &mut Registry) -> (done: Subscription)
    requires
        old(registry)@.wf(),
    ensures
        final(registry)@.wf(),
        final(registry)@ == old(registry)@.subscribed(chat_id),
        done.answer == old(registry)@.subscribe_answer(chat_id),
        done.reply@ == subscribe_reply(done.answer, chat_id),
{
    let answer = subscribe(chat_id, registry);
    let reply = reply_to_subscribe(&answer, chat_id);
    Subscription { answer, reply }
}

/// Runs an unsubscribe command from the chat `chat_id`: the answer tells
/// whether an entry was removed, and the reply is the text for the chat.
pub fn cancel(chat_id: i64, registry: &mut Registry) -> (done: Cancellation)
    requires
        old(registry)@.wf(),
    ensures
        final(registry)@.wf(),
        final(registry)@ == old(registry)@.unsubscribed(chat_id),
        done.answer == old(registry)@.unsubscribe_answer(chat_id),
        done.reply@ == unsubscribe_reply(done.answer),
{
    let answer = unsubscribe(chat_id, registry);
    let reply = reply_to_unsubscribe(&answer);
    Cancellation { answer, reply }
}

/// Runs a subscribe command from the chat `chat_id` and words the answer.
pub fn handle_subscribe(chat_id: i64, registry: &mut Registry) -> (reply: String)
    requires
        old(registry)@.wf(),
    ensures
        final(registry)@.wf(),
        final(registry)@ == old(registry)@.subscribed(chat_id),
        reply@ == subscribe_reply(old(registry)@.subscribe_answer(chat_id), chat_id),
{
    enroll(chat_id, registry).reply
}

/// Runs an unsubscribe command from the chat `chat_id` and words the answer.
pub fn handle_unsubscribe(chat_id: i64, registry: &mut Registry) -> (reply: String)
    requires
        old(registry)@.wf(),
    ensures
        final(registry)@.wf(),
        final(registry)@ == old(registry)@.unsubscribed(chat_id),
        reply@ == unsubscribe_reply(old(registry)@.unsubscribe_answer(chat_id)),
{
    cancel(chat_id, registry).reply
}

} // verus!
