//! The subscriber registry.
//!
//! A registry is the list of the chats that receive notifications.  A chat
//! is in it at most once, and every entry carries an identifier larger than
//! all that were given before it.

use vstd::prelude::*;

verus! {

/// A registered subscriber.
#[derive(Clone, Copy, Debug, PartialEq, Eq, Structural)]
pub struct Subscriber {
    /// The identifier the registry gave it.
    pub id: i32,
    /// The chat that notifications are sent to.
    pub telegram_chat_id: i64,
}

/// A subscriber that is not registered yet.
#[derive(Clone, Copy, Debug, PartialEq, Eq, Structural)]
pub struct NewSubscriber {
    pub telegram_chat_id: i64,
}

/// Why the registry refused a command.
#[derive(Clone, Copy, Debug, PartialEq, Eq, Structural)]
pub enum RegistryError {
    /// The chat is registered already.
    AlreadyExists,
    /// The chat is not registered.
    NotFound,
    /// No identifier is left for another subscriber.
    WriteFailed,
}

/// The largest identifier the registry can give.
pub const LAST_SUBSCRIBER_ID: i64 = 0x7FFF_FFFF;

/// What a registry holds: its entries in the order of their registration,
/// and the identifier that the next one gets.
pub struct RegistryState {
    pub rows: Seq<Subscriber>,
    pub next_id: int,
}

impl RegistryState {
    /// The chat identifiers of the entries, in order.
    pub open spec fn chats(self) -> Seq<i64> {
        Seq::new(self.rows.len(), |i: int| self.rows[i].telegram_chat_id)
    }

    /// Whether `chat_id` is registered.
    pub open spec fn has(self, chat_id: i64) -> bool {
        exists|i: int|
            0 <= i < self.rows.len() && #[trigger] self.rows[i].telegram_chat_id == chat_id
    }

    /// No chat occurs twice, the identifiers grow along the entries, and all
    /// lie from one on and below the next one to be given.
    pub open spec fn wf(self) -> bool {
        &&& 1 <= self.next_id <= LAST_SUBSCRIBER_ID + 1
        &&& forall|i: int|
            0 <= i < self.rows.len() ==> 1 <= #[trigger] self.rows[i].id < self.next_id
        &&& forall|i: int, j: int|
            0 <= i < j < self.rows.len() ==> #[trigger] self.rows[i].id < #[trigger] self.rows[j].id
        &&& forall|i: int, j: int|
            0 <= i < j < self.rows.len() ==> #[trigger] self.rows[i].telegram_chat_id
                != #[trigger] self.rows[j].telegram_chat_id
    }

    /// The registry after a subscribe command for `chat_id`.
    pub open spec fn subscribed(self, chat_id: i64) -> RegistryState {
        if self.has(chat_id) || self.next_id > LAST_SUBSCRIBER_ID {
            self
        } else {
            RegistryState {
                rows: self.rows.push(
                    Subscriber { id: self.next_id as i32, telegram_chat_id: chat_id },
                ),
                next_id: self.next_id + 1,
            }
        }
    }

    /// The answer to a subscribe command for `chat_id`.
    pub open spec fn subscribe_answer(self, chat_id: i64) -> Result<Subscriber, RegistryError> {
        if self.has(chat_id) {
            Err(RegistryError::AlreadyExists)
        } else if self.next_id > LAST_SUBSCRIBER_ID {
            Err(RegistryError::WriteFailed)
        } else {
            Ok(Subscriber { id: self.next_id as i32, telegram_chat_id: chat_id })
        }
    }

    /// Where `chat_id` stands among the entries, if it is registered.
    pub open spec fn position(self, chat_id: i64) -> int {
        choose|i: int|
            0 <= i < self.rows.len() && #[trigger] self.rows[i].telegram_chat_id == chat_id
    }

    /// The registry after an unsubscribe command for `chat_id`: the entry of
    /// the chat is gone, the others stay in their order.
    pub open spec fn unsubscribed(self, chat_id: i64) -> RegistryState {
        if self.has(chat_id) {
            RegistryState { rows: self.rows.remove(self.position(chat_id)), next_id: self.next_id }
        } else {
            self
        }
    }

    /// The answer to an unsubscribe command for `chat_id`.
    pub open spec fn unsubscribe_answer(self, chat_id: i64) -> Result<(), RegistryError> {
        if self.has(chat_id) {
            Ok(())
        } else {
            Err(RegistryError::NotFound)
        }
    }
}

/// A subscribe command registers a chat once: the first command for a chat
/// that is not registered succeeds, as long as an identifier is left, and a
/// second one right after it is refused because the chat exists already.
pub proof fn law_subscribe_twice(state: RegistryState, chat_id: i64)
    requires
        state.wf(),
        !state.has(chat_id),
        state.next_id <= LAST_SUBSCRIBER_ID,
    ensures
        state.subscribe_answer(chat_id) == Ok::<Subscriber, RegistryError>(
            Subscriber { id: state.next_id as i32, telegram_chat_id: chat_id },
        ),
        state.subscribed(chat_id).subscribe_answer(chat_id) == Err::<Subscriber, RegistryError>(
            RegistryError::AlreadyExists,
        ),
        state.subscribed(chat_id).subscribed(chat_id) == state.subscribed(chat_id),
{
    let after = state.subscribed(chat_id);
    assert(after.rows[state.rows.len() as int].telegram_chat_id == chat_id);
}

/// An unsubscribe command after a successful subscribe command for the same
/// chat succeeds, and leaves the entries that were there before the two.
pub proof fn law_unsubscribe_after_subscribe(state: RegistryState, chat_id: i64)
    requires
        state.wf(),
        !state.has(chat_id),
        state.next_id <= LAST_SUBSCRIBER_ID,
    ensures
        state.subscribed(chat_id).unsubscribe_answer(chat_id) == Ok::<(), RegistryError>(()),
        state.subscribed(chat_id).unsubscribed(chat_id).rows == state.rows,
        !state.subscribed(chat_id).unsubscribed(chat_id).has(chat_id),
{
    let after = state.subscribed(chat_id);
    let last: int = state.rows.len() as int;
    assert(after.rows[last].telegram_chat_id == chat_id);
    let at: int = after.position(chat_id);
    assert(at == last) by {
        if at < last {
            assert(state.rows[at].telegram_chat_id == chat_id);
        }
    }
    assert(after.rows.remove(at) =~= state.rows);
}

/// An unsubscribe command for a chat that is not registered is refused, and
/// changes nothing.
pub proof fn law_unsubscribe_unknown(state: RegistryState, chat_id: i64)
    requires
        !state.has(chat_id),
    ensures
        state.unsubscribe_answer(chat_id) == Err::<(), RegistryError>(RegistryError::NotFound),
        state.unsubscribed(chat_id) == state,
{
}

/// Commands keep the registry in order: after a subscribe or an unsubscribe
/// command a chat is still registered at most once, and the identifiers
/// still grow along the entries.
pub proof fn law_commands_keep_order(state: RegistryState, chat_id: i64)
    requires
        state.wf(),
    ensures
        state.subscribed(chat_id).wf(),
        state.unsubscribed(chat_id).wf(),
        !state.unsubscribed(chat_id).has(chat_id),
{
    let after = state.subscribed(chat_id);
    if !state.has(chat_id) && state.next_id <= LAST_SUBSCRIBER_ID {
        assert forall|i: int, j: int|
            0 <= i < j < after.rows.len() implies #[trigger] after.rows[i].telegram_chat_id
            != #[trigger] after.rows[j].telegram_chat_id by {
            if j == state.rows.len() {
                assert(state.rows[i].telegram_chat_id != chat_id);
            }
        }
    }
    if state.has(chat_id) {
        let at: int = state.position(chat_id);
        let gone = state.unsubscribed(chat_id);
        assert forall|i: int| 0 <= i < gone.rows.len() implies #[trigger] gone.rows[i]
            == state.rows[if i < at {
            i
        } else {
            i + 1
        }] by {}
        if gone.has(chat_id) {
            let k: int = gone.position(chat_id);
            let from: int = if k < at {
                k
            } else {
                k + 1
            };
            assert(state.rows[from].telegram_chat_id == chat_id);
            assert(state.rows[at].telegram_chat_id == chat_id);
        }
    }
}

/// The subscriber registry.
pub struct Registry {
    rows: Vec<Subscriber>,
    next: i64,
}

impl View for Registry {
    type V = RegistryState;

    closed spec fn view(&self) -> RegistryState {
        RegistryState { rows: self.rows@, next_id: self.next as int }
    }
}

impl Registry {
    /// An empty registry; the first subscriber gets the identifier one.
    pub fn new() -> (registry: Registry)
        ensures
            registry@ == (RegistryState { rows: Seq::<Subscriber>::empty(), next_id: 1 }),
            registry@.wf(),
    {
        Registry { rows: Vec::new(), next: 1 }
    }

    /// The index of the entry of `chat_id`.
    fn find(&self, chat_id: i64) -> (at: Option<usize>)
        ensures
            at is Some <==> self@.has(chat_id),
            at is Some ==> at->0 < self@.rows.len() && self@.rows[at->0 as int].telegram_chat_id
                == chat_id,
    {
        let mut i: usize = 0;
        while i < self.rows.len()
            invariant
                i <= self.rows@.len(),
                forall|k: int| 0 <= k < i ==> self.rows@[k].telegram_chat_id != chat_id,
            decreases self.rows@.len() - i,
        {
            if self.rows[i].telegram_chat_id == chat_id {
                assert(self@.rows[i as int].telegram_chat_id == chat_id);
                return Some(i);
            }
            i = i + 1;
        }
        None
    }

    /// Whether `chat_id` is registered.
    pub fn contains(&self, chat_id: i64) -> (found: bool)
        ensures
            found == self@.has(chat_id),
    {
        self.find(chat_id).is_some()
    }

    /// Takes back an entry that was registered earlier and kept elsewhere.
    /// It is kept where its identifier is not below the next one to be given
    /// and its chat is not registered; the registry then continues after its
    /// identifier.  Otherwise nothing changes.
    pub fn restore(&mut self, row: Subscriber) -> (kept: bool)
        requires
            old(self)@.wf(),
        ensures
            final(self)@.wf(),
            kept <==> old(self)@.next_id <= row.id && !old(self)@.has(row.telegram_chat_id),
            kept ==> final(self)@ == (RegistryState {
                rows: old(self)@.rows.push(row),
                next_id: row.id + 1,
            }),
            !kept ==> final(self)@ == old(self)@,
    {
        if (row.id as i64) < self.next || self.contains(row.telegram_chat_id) {
            return false;
        }
        self.rows.push(row);
        self.next = row.id as i64 + 1;
        proof {
            let after = final(self)@;
            let before = old(self)@;
            assert forall|i: int, j: int|
                0 <= i < j < after.rows.len() implies #[trigger] after.rows[i].telegram_chat_id
                != #[trigger] after.rows[j].telegram_chat_id by {
                if j == before.rows.len() {
                    assert(before.rows[i].telegram_chat_id != row.telegram_chat_id);
                }
            }
        }
        true
    }

    /// Registers a new subscriber under the next identifier.
    pub fn insert(&mut self, subscriber: NewSubscriber) -> (answer: Result<
        Subscriber,
        RegistryError,
    >)
        requires
            old(self)@.wf(),
        ensures
            final(self)@.wf(),
            final(self)@ == old(self)@.subscribed(subscriber.telegram_chat_id),
            answer == old(self)@.subscribe_answer(subscriber.telegram_chat_id),
    {
        let chat_id: i64 = subscriber.telegram_chat_id;
        if self.contains(chat_id) {
            return Err(RegistryError::AlreadyExists);
        }
        if self.next > LAST_SUBSCRIBER_ID {
            return Err(RegistryError::WriteFailed);
        }
        let row = Subscriber { id: self.next as i32, telegram_chat_id: chat_id };
        self.rows.push(row);
        self.next = self.next + 1;
        proof {
            law_commands_keep_order(old(self)@, chat_id);
        }
        Ok(row)
    }

    /// Removes the entry of `chat_id`.
    pub fn remove(&mut self, chat_id: i64) -> (answer: Result<(), RegistryError>)
        requires
            old(self)@.wf(),
        ensures
            final(self)@.wf(),
            final(self)@ == old(self)@.unsubscribed(chat_id),
            answer == old(self)@.unsubscribe_answer(chat_id),
    {
        match self.find(chat_id) {
            Some(at) => {
                proof {
                    let state = old(self)@;
                    let chosen: int = state.position(chat_id);
                    assert(chosen == at) by {
                        if chosen < at {
                            assert(state.rows[chosen].telegram_chat_id
                                != state.rows[at as int].telegram_chat_id);
                        } else if at < chosen {
                            assert(state.rows[at as int].telegram_chat_id
                                != state.rows[chosen].telegram_chat_id);
                        }
                    }
                    law_commands_keep_order(state, chat_id);
                }
                self.rows.remove(at);
                Ok(())
            },
            None => Err(RegistryError::NotFound),
        }
    }

    /// The chats of all entries, in the order of their registration.
    pub fn chats(&self) -> (chats: Vec<i64>)
        ensures
            chats@ == self@.chats(),
    {
        let mut chats: Vec<i64> = Vec::new();
        let mut i: usize = 0;
        while i < self.rows.len()
            invariant
                i <= self.rows@.len(),
                chats@.len() == i,
                forall|k: int| 0 <= k < i ==> chats@[k] == self.rows@[k].telegram_chat_id,
            decreases self.rows@.len() - i,
        {
            chats.push(self.rows[i].telegram_chat_id);
            i = i + 1;
        }
        assert(chats@ =~= self@.chats());
        chats
    }

    /// The number of entries.
    pub fn len(&self) -> (n: usize)
        ensures
            n == self@.rows.len(),
    {
        self.rows.len()
    }
}

/// Registers the chat `chat_id`.  A chat that is registered already is
/// refused with `AlreadyExists`; otherwise the new subscriber is returned
/// with the identifier it was given.
pub fn subscribe(chat_id: i64, registry: &mut Registry) -> (answer: Result<
    Subscriber,
    RegistryError,
>)
    requires
        old(registry)@.wf(),
    ensures
        final(registry)@.wf(),
        final(registry)@ == old(registry)@.subscribed(chat_id),
        answer == old(registry)@.subscribe_answer(chat_id),
{
    let subscriber = NewSubscriber { telegram_chat_id: chat_id };
    registry.insert(subscriber)
}

/// Removes the chat `chat_id` from the registry.  A chat that is not
/// registered is refused with `NotFound`.
pub fn unsubscribe(chat_id: i64, registry: &mut Registry) -> (answer: Result<(), RegistryError>)
    requires
        old(registry)@.wf(),
    ensures
        final(registry)@.wf(),
        final(registry)@ == old(registry)@.unsubscribed(chat_id),
        answer == old(registry)@.unsubscribe_answer(chat_id),
{
    registry.remove(chat_id)
}

/// The chats of all subscribers: a snapshot for one fan-out.
pub fn get_all_subscribers(registry: &Registry) -> (chats: Vec<i64>)
    ensures
        chats@ == registry@.chats(),
{
    registry.chats()
}

} // verus!
