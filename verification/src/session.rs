//! The mathematical model of the chat session controller: the store, the
//! requests that are outstanding, and what each intent and each resolved
//! exchange makes of them. The laws of busy state and cancellation are
//! proved here.

use crate::history::{
    lemma_capped_keeps_newest, lemma_filter_source, lemma_renamed_valid, lemma_wiped,
    lemma_with_chat_valid, lemma_with_message_valid, lemma_without_chat_valid, newest, MessageView,
    Role, StoreView,
};
use crate::inference::no_model_text;
use crate::settings::{canonical, loaded, record_of, SettingsDraftView, StoredSettingsView};
use crate::text::blank;
use vstd::prelude::*;

verus! {

/// A request that is outstanding: the chat it was sent for, and the token
/// by which its result is recognised.
pub struct PendingView {
    pub chat_id: Seq<char>,
    pub token: u64,
}

/// Mathematical value of the controller.
#[verifier::ext_equal]
pub struct ControllerView {
    pub store: StoreView,
    /// The outstanding requests, oldest first.
    pub pending: Seq<PendingView>,
    /// The token that the next request gets.
    pub next_token: u64,
    /// Most messages that a chat keeps.
    pub cap: nat,
}

/// Selects the outstanding requests of all chats but one.
pub open spec fn not_for_chat(chat: Seq<char>) -> spec_fn(PendingView) -> bool {
    |p: PendingView| p.chat_id != chat
}

/// What a user can ask of the controller, and what comes back to it.
pub enum Event {
    CreateChat { id: Seq<char>, title: Seq<char> },
    RenameChat { id: Seq<char>, title: Seq<char> },
    DeleteChat { id: Seq<char> },
    DeleteAllHistory,
    ApplySettings { record: StoredSettingsView },
    /// A user turn, sent under the model named.
    Send { chat: Seq<char>, text: Seq<char>, model: Seq<char>, now: u64 },
    /// The exchange with this token resolved; `text` is the reply or the
    /// message of the failure.
    Complete { chat: Seq<char>, token: u64, text: Seq<char>, now: u64 },
    Cancel { chat: Seq<char> },
}

impl ControllerView {
    /// Whether a request is outstanding for the chat: the chat is Pending,
    /// not Idle.
    pub open spec fn is_pending(self, chat: Seq<char>) -> bool {
        exists|i: int| 0 <= i < self.pending.len() && (#[trigger] self.pending[i]).chat_id == chat
    }

    /// Whether the result of the exchange with this token is still wanted.
    pub open spec fn awaits(self, chat: Seq<char>, token: u64) -> bool {
        exists|i: int|
            0 <= i < self.pending.len() && #[trigger] self.pending[i] == (PendingView {
                chat_id: chat,
                token,
            })
    }

    /// How many requests are outstanding for the chat.
    pub open spec fn outstanding(self, chat: Seq<char>) -> nat {
        self.pending.filter(|p: PendingView| p.chat_id == chat).len()
    }

    /// Whether a message can be stored for the chat: it exists, and a
    /// message id is left.
    pub open spec fn can_record(self, chat: Seq<char>) -> bool {
        self.store.has_chat(chat) && self.store.next_id < u64::MAX
    }

    /// What always holds of a controller: the store is valid; the limit is
    /// at least one, and every chat is within it; no chat has two
    /// outstanding requests; every outstanding request belongs to a chat
    /// that exists, and its token has been given out.
    pub open spec fn valid(self) -> bool {
        &&& self.store.valid()
        &&& self.cap >= 1
        &&& self.store.within(self.cap)
        &&& forall|i: int, j: int|
            0 <= i < j < self.pending.len() ==> self.pending[i].chat_id != self.pending[j].chat_id
        &&& forall|i: int|
            0 <= i < self.pending.len() ==> (#[trigger] self.pending[i]).token < self.next_token
        &&& forall|i: int|
            0 <= i < self.pending.len() ==> self.store.has_chat(
                (#[trigger] self.pending[i]).chat_id,
            )
    }

    /// A controller over `store` with nothing outstanding.
    pub open spec fn fresh(store: StoreView, cap: nat) -> ControllerView {
        ControllerView { store, pending: Seq::empty(), next_token: 0, cap }
    }

    /// The controller after a message was stored for a chat and the history
    /// limit enforced on it.
    pub open spec fn recorded(
        self,
        chat: Seq<char>,
        role: Role,
        content: Seq<char>,
        now: u64,
    ) -> ControllerView {
        ControllerView { store: self.store.recorded(chat, role, content, now, self.cap), ..self }
    }

    /// The controller after the chat went from Idle to Pending under the
    /// next token.
    pub open spec fn awaiting(self, chat: Seq<char>) -> ControllerView {
        ControllerView {
            pending: self.pending.push(PendingView { chat_id: chat, token: self.next_token }),
            next_token: (self.next_token + 1) as u64,
            ..self
        }
    }

    /// The controller after the chat went back to Idle.
    pub open spec fn idle(self, chat: Seq<char>) -> ControllerView {
        ControllerView { pending: self.pending.filter(not_for_chat(chat)), ..self }
    }

    /// Whether a user turn for the chat is turned away: the chat is Pending,
    /// or no message can be stored for it.
    pub open spec fn refuses(self, chat: Seq<char>) -> bool {
        self.is_pending(chat) || !self.can_record(chat)
    }

    /// Whether a user turn for the chat leads to a request.
    pub open spec fn dispatches(self, chat: Seq<char>, model: Seq<char>) -> bool {
        !self.refuses(chat) && !blank(model) && self.next_token < u64::MAX
    }

    /// The controller after a user turn was sent. A turn that is refused
    /// changes nothing. With no model selected, the message that says so is
    /// stored and the chat stays Idle. Else the turn is stored and the chat
    /// becomes Pending.
    pub open spec fn sent(
        self,
        chat: Seq<char>,
        text: Seq<char>,
        model: Seq<char>,
        now: u64,
    ) -> ControllerView {
        if self.refuses(chat) {
            self
        } else if blank(model) {
            self.recorded(chat, Role::Assistant, no_model_text(), now)
        } else if self.next_token == u64::MAX {
            self
        } else {
            self.recorded(chat, Role::User, text, now).awaiting(chat)
        }
    }

    /// The controller after an exchange resolved. Where its result is no
    /// longer wanted, nothing changes. Else the chat goes back to Idle, and
    /// the text is stored as the assistant's message if an id is left.
    pub open spec fn completed(
        self,
        chat: Seq<char>,
        token: u64,
        text: Seq<char>,
        now: u64,
    ) -> ControllerView {
        if !self.awaits(chat, token) {
            self
        } else if self.store.next_id == u64::MAX {
            self.idle(chat)
        } else {
            self.idle(chat).recorded(chat, Role::Assistant, text, now)
        }
    }

    /// The controller after a chat was created. An id that is taken changes
    /// nothing.
    pub open spec fn with_chat(self, id: Seq<char>, title: Seq<char>) -> ControllerView {
        if self.store.has_chat(id) {
            self
        } else {
            ControllerView { store: self.store.with_chat(id, title), ..self }
        }
    }

    /// The controller after a chat was deleted: its messages are gone, and
    /// a request that was outstanding for it is no longer wanted.
    pub open spec fn without_chat(self, id: Seq<char>) -> ControllerView {
        ControllerView { store: self.store.without_chat(id), ..self.idle(id) }
    }

    /// The controller after all history was deleted: no outstanding request
    /// is wanted any longer.
    pub open spec fn wiped(self) -> ControllerView {
        ControllerView { store: self.store.wiped(), pending: Seq::empty(), ..self }
    }

    /// The controller after a run of events, the first of them first.
    pub open spec fn after_all(self, events: Seq<Event>) -> ControllerView
        decreases events.len(),
    {
        if events.len() == 0 {
            self
        } else {
            self.after_all(events.drop_last()).after(events.last())
        }
    }

    /// The controller after an event.
    pub open spec fn after(self, event: Event) -> ControllerView {
        match event {
            Event::CreateChat { id, title } => self.with_chat(id, title),
            Event::RenameChat { id, title } => ControllerView {
                store: self.store.renamed(id, title),
                ..self
            },
            Event::DeleteChat { id } => self.without_chat(id),
            Event::DeleteAllHistory => self.wiped(),
            Event::ApplySettings { record } => ControllerView {
                store: self.store.with_settings(record),
                ..self
            },
            Event::Send { chat, text, model, now } => self.sent(chat, text, model, now),
            Event::Complete { chat, token, text, now } => self.completed(chat, token, text, now),
            Event::Cancel { chat } => self.idle(chat),
        }
    }
}

/// Going back to Idle keeps the controller valid; the chat is Idle then, no
/// token of it is awaited, and every other chat is as it was.
pub proof fn lemma_idle(c: ControllerView, chat: Seq<char>)
    requires
        c.valid(),
    ensures
        c.idle(chat).valid(),
        !c.idle(chat).is_pending(chat),
        forall|token: u64| !c.idle(chat).awaits(chat, token),
        forall|other: Seq<char>|
            other != chat ==> c.idle(chat).is_pending(other) == c.is_pending(other),
        forall|other: Seq<char>, token: u64|
            c.idle(chat).awaits(other, token) ==> c.awaits(other, token),
        forall|other: Seq<char>, token: u64|
            other != chat && c.awaits(other, token) ==> c.idle(chat).awaits(other, token),
        !c.is_pending(chat) ==> c.idle(chat) == c,
{
    let keep = not_for_chat(chat);
    let left = c.pending.filter(keep);
    let after = c.idle(chat);
    assert forall|i: int, j: int| 0 <= i < j < left.len() implies left[i].chat_id
        != left[j].chat_id by {
        let a = lemma_filter_source(c.pending, keep, i);
        let b = lemma_filter_source(c.pending, keep, j);
        if a >= b {
            assert(c.pending.take(a).take(b) == c.pending.take(b));
            c.pending.take(a).lemma_filter_take_len(keep, b);
        }
    }
    assert forall|i: int| 0 <= i < left.len() implies {
        &&& (#[trigger] left[i]).token < c.next_token
        &&& c.store.has_chat(left[i].chat_id)
        &&& left[i].chat_id != chat
        &&& c.awaits(left[i].chat_id, left[i].token)
    } by {
        let a = lemma_filter_source(c.pending, keep, i);
        assert(c.store.has_chat(c.pending[a].chat_id));
    }
    assert forall|other: Seq<char>| other != chat implies after.is_pending(other) == c.is_pending(
        other,
    ) by {
        if c.is_pending(other) {
            let k = choose|k: int|
                0 <= k < c.pending.len() && (#[trigger] c.pending[k]).chat_id == other;
            c.pending.lemma_filter_contains(keep, k);
            let at = left.lemma_contains_to_index(c.pending[k]);
            assert(after.pending[at].chat_id == other);
        }
        if after.is_pending(other) {
            let k = choose|k: int|
                0 <= k < after.pending.len() && (#[trigger] after.pending[k]).chat_id == other;
            let a = lemma_filter_source(c.pending, keep, k);
            assert(c.pending[a].chat_id == other);
        }
    }
    assert forall|other: Seq<char>, token: u64|
        other != chat && c.awaits(other, token) implies after.awaits(other, token) by {
        let wanted = PendingView { chat_id: other, token };
        let k = choose|k: int| 0 <= k < c.pending.len() && #[trigger] c.pending[k] == wanted;
        c.pending.lemma_filter_contains(keep, k);
        let at = left.lemma_contains_to_index(c.pending[k]);
        assert(after.pending[at] == wanted);
    }
    if !c.is_pending(chat) {
        crate::history::lemma_filter_tail(c.pending, keep, 0);
        assert(left =~= c.pending);
    }
}

/// A chat that is Pending has exactly one outstanding request, and a chat
/// that is Idle has none: there is never a second one.
pub proof fn lemma_at_most_one_pending(c: ControllerView, chat: Seq<char>)
    requires
        c.valid(),
    ensures
        c.outstanding(chat) <= 1,
        c.outstanding(chat) == 1 <==> c.is_pending(chat),
{
    let mine = |p: PendingView| p.chat_id == chat;
    let found = c.pending.filter(mine);
    if found.len() >= 2 {
        let a = lemma_filter_source(c.pending, mine, 0);
        let b = lemma_filter_source(c.pending, mine, 1);
        if a >= b {
            assert(c.pending.take(a).take(b) == c.pending.take(b));
            c.pending.take(a).lemma_filter_take_len(mine, b);
        }
        assert(false);
    }
    if found.len() == 1 {
        let a = lemma_filter_source(c.pending, mine, 0);
        assert(c.pending[a].chat_id == chat);
    }
    if c.is_pending(chat) {
        let k = choose|k: int|
            0 <= k < c.pending.len() && (#[trigger] c.pending[k]).chat_id == chat;
        c.pending.lemma_filter_contains(mine, k);
    }
}

/// Storing a message keeps the controller valid and touches no request;
/// the message ends the chat's thread, which holds its newest messages up
/// to the limit.
pub proof fn lemma_recorded(
    c: ControllerView,
    chat: Seq<char>,
    role: Role,
    content: Seq<char>,
    now: u64,
)
    requires
        c.valid(),
        c.can_record(chat),
    ensures
        c.recorded(chat, role, content, now).valid(),
        c.recorded(chat, role, content, now).pending == c.pending,
        c.recorded(chat, role, content, now).next_token == c.next_token,
        c.recorded(chat, role, content, now).store.chats == c.store.chats,
        c.recorded(chat, role, content, now).store.next_id == c.store.next_id + 1,
        c.recorded(chat, role, content, now).store.thread(chat) == newest(
            c.store.thread(chat).push(c.store.next_message(chat, role, content, now)),
            c.cap,
        ),
        c.recorded(chat, role, content, now).store.thread(chat).last() == c.store.next_message(
            chat,
            role,
            content,
            now,
        ),
        forall|other: Seq<char>|
            other != chat ==> #[trigger] c.recorded(chat, role, content, now).store.thread(other)
                == c.store.thread(other),
{
    let stored = c.store.with_message(chat, role, content, now);
    lemma_with_message_valid(c.store, chat, role, content, now);
    lemma_capped_keeps_newest(stored, chat, c.cap);
    let after = c.recorded(chat, role, content, now);
    assert forall|i: int| 0 <= i < after.pending.len() implies after.store.has_chat(
        (#[trigger] after.pending[i]).chat_id,
    ) by {
        assert(c.store.has_chat(c.pending[i].chat_id));
    }
    assert forall|to: Seq<char>| (#[trigger] after.store.thread(to)).len() <= after.cap by {
        if to != chat {
            assert(after.store.thread(to) == c.store.thread(to));
        }
    }
}

/// Every event leaves a valid controller valid: in particular every chat
/// stays within the history limit.
pub proof fn lemma_after_valid(c: ControllerView, event: Event)
    requires
        c.valid(),
    ensures
        c.after(event).valid(),
{
    let after = c.after(event);
    match event {
        Event::CreateChat { id, title } => {
            if !c.store.has_chat(id) {
                lemma_with_chat_valid(c.store, id, title);
                assert forall|i: int| 0 <= i < after.pending.len() implies after.store.has_chat(
                    (#[trigger] after.pending[i]).chat_id,
                ) by {
                    let wanted = c.pending[i].chat_id;
                    assert(c.store.has_chat(wanted));
                    let k = choose|k: int|
                        0 <= k < c.store.chats.len() && (#[trigger] c.store.chats[k]).id == wanted;
                    assert(after.store.chats[k].id == wanted);
                }
            }
            assert forall|chat: Seq<char>| (#[trigger] after.store.thread(chat)).len()
                <= after.cap by {
                assert(after.store.thread(chat) == c.store.thread(chat));
            }
        },
        Event::RenameChat { id, title } => {
            lemma_renamed_valid(c.store, id, title);
            assert forall|i: int| 0 <= i < after.pending.len() implies after.store.has_chat(
                (#[trigger] after.pending[i]).chat_id,
            ) by {
                assert(c.store.has_chat(c.pending[i].chat_id));
            }
            assert forall|chat: Seq<char>| (#[trigger] after.store.thread(chat)).len()
                <= after.cap by {
                assert(after.store.thread(chat) == c.store.thread(chat));
            }
        },
        Event::DeleteChat { id } => {
            lemma_without_chat_valid(c.store, id);
            lemma_idle(c, id);
            let left = c.idle(id).pending;
            assert forall|i: int| 0 <= i < left.len() implies after.store.has_chat(
                (#[trigger] left[i]).chat_id,
            ) by {
                let a = lemma_filter_source(c.pending, not_for_chat(id), i);
                assert(c.store.has_chat(c.pending[a].chat_id));
            }
            assert forall|chat: Seq<char>| (#[trigger] after.store.thread(chat)).len()
                <= after.cap by {
                if chat != id {
                    assert(after.store.thread(chat) == c.store.thread(chat));
                }
            }
        },
        Event::DeleteAllHistory => {
            lemma_wiped(c.store);
        },
        Event::ApplySettings { record } => {
            assert forall|i: int| 0 <= i < after.store.messages.len() implies after.store.has_chat(
                (#[trigger] after.store.messages[i]).chat_id,
            ) by {
                assert(c.store.has_chat(c.store.messages[i].chat_id));
            }
            assert forall|i: int| 0 <= i < after.pending.len() implies after.store.has_chat(
                (#[trigger] after.pending[i]).chat_id,
            ) by {
                assert(c.store.has_chat(c.pending[i].chat_id));
            }
            assert forall|chat: Seq<char>| (#[trigger] after.store.thread(chat)).len()
                <= after.cap by {
                assert(after.store.thread(chat) == c.store.thread(chat));
            }
        },
        Event::Send { chat, text, model, now } => {
            lemma_sent(c, chat, text, model, now);
        },
        Event::Complete { chat, token, text, now } => {
            lemma_completed(c, chat, token, text, now);
        },
        Event::Cancel { chat } => {
            lemma_idle(c, chat);
        },
    }
}

/// Sending keeps the controller valid. A chat that is Pending stays as it
/// is, with its one request: no second one is made. With no model selected
/// the chat stays Idle and its thread ends with the message that says so.
/// A turn that leads to a request makes the chat Pending under a token
/// that was never given out before.
pub proof fn lemma_sent(
    c: ControllerView,
    chat: Seq<char>,
    text: Seq<char>,
    model: Seq<char>,
    now: u64,
)
    requires
        c.valid(),
    ensures
        c.sent(chat, text, model, now).valid(),
        c.is_pending(chat) ==> c.sent(chat, text, model, now) == c,
        !c.refuses(chat) && blank(model) ==> {
            let after = c.sent(chat, text, model, now);
            &&& !after.is_pending(chat)
            &&& after.pending == c.pending
            &&& after.store.thread(chat) == newest(
                c.store.thread(chat).push(
                    c.store.next_message(chat, Role::Assistant, no_model_text(), now),
                ),
                c.cap,
            )
            &&& after.store.thread(chat).last() == c.store.next_message(
                chat,
                Role::Assistant,
                no_model_text(),
                now,
            )
        },
        c.dispatches(chat, model) ==> {
            let after = c.sent(chat, text, model, now);
            &&& after.awaits(chat, c.next_token)
            &&& after.is_pending(chat)
            &&& !c.awaits(chat, c.next_token)
            &&& after.store.thread(chat).last() == c.store.next_message(
                chat,
                Role::User,
                text,
                now,
            )
        },
        !c.dispatches(chat, model) ==> c.sent(chat, text, model, now).pending == c.pending,
{
    if !c.refuses(chat) {
        if blank(model) {
            lemma_recorded(c, chat, Role::Assistant, no_model_text(), now);
        } else if c.next_token < u64::MAX {
            lemma_recorded(c, chat, Role::User, text, now);
            let stored = c.recorded(chat, Role::User, text, now);
            let after = stored.awaiting(chat);
            let last = c.pending.len() as int;
            assert(after.pending[last] == PendingView { chat_id: chat, token: c.next_token });
            assert forall|i: int| 0 <= i < after.pending.len() implies after.store.has_chat(
                (#[trigger] after.pending[i]).chat_id,
            ) by {
                if i < last {
                    assert(stored.store.has_chat(stored.pending[i].chat_id));
                }
            }
            assert forall|i: int, j: int|
                0 <= i < j < after.pending.len() implies after.pending[i].chat_id
                != after.pending[j].chat_id by {
                if j == last {
                    assert(c.pending[i].chat_id != chat);
                }
            }
        }
    }
}

/// Resolving keeps the controller valid. A result that is no longer wanted
/// changes nothing. One that is wanted leaves the chat Idle, and its text
/// ends the chat's thread if a message id was left.
pub proof fn lemma_completed(
    c: ControllerView,
    chat: Seq<char>,
    token: u64,
    text: Seq<char>,
    now: u64,
)
    requires
        c.valid(),
    ensures
        c.completed(chat, token, text, now).valid(),
        !c.awaits(chat, token) ==> c.completed(chat, token, text, now) == c,
        !c.completed(chat, token, text, now).awaits(chat, token),
        c.awaits(chat, token) ==> !c.completed(chat, token, text, now).is_pending(chat),
        c.awaits(chat, token) && c.store.next_id < u64::MAX ==> {
            let after = c.completed(chat, token, text, now);
            let message = c.store.next_message(chat, Role::Assistant, text, now);
            &&& after.store.thread(chat) == newest(c.store.thread(chat).push(message), c.cap)
            &&& after.store.thread(chat).last() == message
        },
{
    if c.awaits(chat, token) {
        lemma_idle(c, chat);
        let k = choose|k: int|
            0 <= k < c.pending.len() && #[trigger] c.pending[k] == (PendingView {
                chat_id: chat,
                token,
            });
        assert(c.store.has_chat(c.pending[k].chat_id));
        if c.store.next_id < u64::MAX {
            lemma_recorded(c.idle(chat), chat, Role::Assistant, text, now);
        }
    }
}

/// Cancellation is final: once the result of an exchange is no longer
/// wanted, no later event makes it wanted again, so it is dropped whenever
/// the exchange resolves.
pub proof fn lemma_stale_stays_stale(c: ControllerView, chat: Seq<char>, token: u64, event: Event)
    requires
        c.valid(),
        token < c.next_token,
        !c.awaits(chat, token),
    ensures
        token < c.after(event).next_token,
        !c.after(event).awaits(chat, token),
{
    let after = c.after(event);
    match event {
        Event::Send { chat: to, text, model, now } => {
            if c.dispatches(to, model) {
                let last = c.pending.len() as int;
                if after.awaits(chat, token) {
                    let k = choose|k: int|
                        0 <= k < after.pending.len() && #[trigger] after.pending[k] == (PendingView {
                            chat_id: chat,
                            token,
                        });
                    if k < last {
                        assert(c.pending[k] == after.pending[k]);
                    }
                }
            }
        },
        Event::Complete { chat: of, token: t, text, now } => {
            lemma_idle(c, of);
        },
        Event::Cancel { chat: of } => {
            lemma_idle(c, of);
        },
        Event::DeleteChat { id } => {
            lemma_idle(c, id);
        },
        _ => {},
    }
}

/// What is sent, resolved or cancelled for one chat leaves every other
/// chat as it is: its thread, whether it is Pending, and the exchange
/// whose result it awaits. No reply ends up in another conversation.
pub proof fn lemma_chats_are_independent(
    c: ControllerView,
    event: Event,
    other: Seq<char>,
    token: u64,
)
    requires
        c.valid(),
        event matches Event::Send { chat, .. } ==> chat != other,
        event matches Event::Complete { chat, .. } ==> chat != other,
        event matches Event::Cancel { chat } ==> chat != other,
        event is Send || event is Complete || event is Cancel,
    ensures
        c.after(event).store.thread(other) == c.store.thread(other),
        c.after(event).is_pending(other) == c.is_pending(other),
        c.after(event).awaits(other, token) == c.awaits(other, token),
{
    let after = c.after(event);
    match event {
        Event::Send { chat, text, model, now } => {
            if !c.refuses(chat) {
                if blank(model) {
                    lemma_recorded(c, chat, Role::Assistant, no_model_text(), now);
                } else if c.next_token < u64::MAX {
                    lemma_recorded(c, chat, Role::User, text, now);
                    let last = c.pending.len() as int;
                    if c.is_pending(other) {
                        let k = choose|k: int|
                            0 <= k < c.pending.len() && (#[trigger] c.pending[k]).chat_id == other;
                        assert(after.pending[k].chat_id == other);
                    }
                    if after.is_pending(other) {
                        let k = choose|k: int|
                            0 <= k < after.pending.len() && (#[trigger] after.pending[k]).chat_id
                                == other;
                        assert(k < last);
                        assert(c.pending[k].chat_id == other);
                    }
                    let wanted = PendingView { chat_id: other, token };
                    if c.awaits(other, token) {
                        let k = choose|k: int|
                            0 <= k < c.pending.len() && #[trigger] c.pending[k] == wanted;
                        assert(after.pending[k] == wanted);
                    }
                    if after.awaits(other, token) {
                        let k = choose|k: int|
                            0 <= k < after.pending.len() && #[trigger] after.pending[k] == wanted;
                        assert(k < last);
                        assert(c.pending[k] == wanted);
                    }
                }
            }
        },
        Event::Complete { chat, token: t, text, now } => {
            if c.awaits(chat, t) {
                lemma_idle(c, chat);
                let k = choose|k: int|
                    0 <= k < c.pending.len() && #[trigger] c.pending[k] == (PendingView {
                        chat_id: chat,
                        token: t,
                    });
                assert(c.store.has_chat(c.pending[k].chat_id));
                if c.store.next_id < u64::MAX {
                    lemma_recorded(c.idle(chat), chat, Role::Assistant, text, now);
                }
            }
        },
        Event::Cancel { chat } => {
            lemma_idle(c, chat);
        },
        _ => {},
    }
}

/// Whatever happens, the controller stays valid: no chat ever has two
/// outstanding requests, and no chat ever holds more messages than the
/// history limit.
pub proof fn lemma_after_all_valid(c: ControllerView, events: Seq<Event>)
    requires
        c.valid(),
    ensures
        c.after_all(events).valid(),
        forall|chat: Seq<char>| c.after_all(events).outstanding(chat) <= 1,
        forall|chat: Seq<char>| (#[trigger] c.after_all(events).store.thread(chat)).len() <= c.cap,
        c.after_all(events).cap == c.cap,
    decreases events.len(),
{
    if events.len() > 0 {
        lemma_after_all_valid(c, events.drop_last());
        lemma_after_valid(c.after_all(events.drop_last()), events.last());
    }
    assert forall|chat: Seq<char>| c.after_all(events).outstanding(chat) <= 1 by {
        lemma_at_most_one_pending(c.after_all(events), chat);
    }
}

/// Cancellation never happened as far as the store can tell: when a chat
/// is cancelled while an exchange is in flight for it, the cancellation
/// itself stores nothing, and whatever happens between it and the moment
/// the exchange resolves, its result is dropped and no message comes of
/// it.
pub proof fn lemma_cancel_is_final(
    c: ControllerView,
    chat: Seq<char>,
    token: u64,
    events: Seq<Event>,
    text: Seq<char>,
    now: u64,
)
    requires
        c.valid(),
        c.awaits(chat, token),
    ensures
        c.idle(chat).store == c.store,
        !c.idle(chat).is_pending(chat),
        !c.idle(chat).after_all(events).awaits(chat, token),
        c.idle(chat).after_all(events).completed(chat, token, text, now) == c.idle(chat).after_all(
            events,
        ),
{
    lemma_idle(c, chat);
    let cancelled = c.idle(chat);
    let k = choose|k: int|
        0 <= k < c.pending.len() && #[trigger] c.pending[k] == (PendingView {
            chat_id: chat,
            token,
        });
    assert(c.pending[k].token < c.next_token);
    lemma_stale_through(cancelled, chat, token, events);
}

/// A result that is not wanted stays unwanted through any events.
proof fn lemma_stale_through(c: ControllerView, chat: Seq<char>, token: u64, events: Seq<Event>)
    requires
        c.valid(),
        token < c.next_token,
        !c.awaits(chat, token),
    ensures
        c.after_all(events).valid(),
        token < c.after_all(events).next_token,
        !c.after_all(events).awaits(chat, token),
    decreases events.len(),
{
    if events.len() > 0 {
        lemma_stale_through(c, chat, token, events.drop_last());
        let before = c.after_all(events.drop_last());
        lemma_after_valid(before, events.last());
        lemma_stale_stays_stale(before, chat, token, events.last());
    }
}

/// Deleting all history leaves no chat to list, and leaves the settings
/// that were applied before as they were applied.
pub proof fn lemma_history_wipe_keeps_settings(c: ControllerView, draft: SettingsDraftView)
    requires
        c.valid(),
    ensures
        ({
            let applied = c.after(Event::ApplySettings { record: record_of(canonical(draft)) });
            let wiped = applied.after(Event::DeleteAllHistory);
            &&& wiped.store.chats.len() == 0
            &&& forall|chat: Seq<char>| !wiped.store.has_chat(chat) && !wiped.is_pending(chat)
            &&& loaded(wiped.store.settings) == canonical(draft)
            &&& loaded(wiped.store.settings).temperature == draft.temperature
        }),
{
    crate::settings::lemma_load_after_store(canonical(draft));
}

} // verus!
