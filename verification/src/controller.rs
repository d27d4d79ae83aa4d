//! The chat session controller: it owns the store and the busy state of
//! every chat, decides what becomes of a user turn and of the result of an
//! exchange, and makes cancellation final. It performs no exchange itself:
//! a turn that needs one is handed back as a request with a token, and the
//! result is handed in under that token when the exchange has resolved.

use crate::history::{newest, Role, StoreView};
use crate::ident::{chat_id_shaped, fresh_chat_id};
use crate::inference::{
    build_request, failure_message, no_model_message, no_model_text, outcome_view, reply_text,
    request_for, ChatRequest, GenerateError,
};
use crate::session::{
    lemma_after_valid, lemma_completed, lemma_idle, lemma_sent, not_for_chat, ControllerView, Event,
    PendingView,
};
use crate::settings::{canonical, loaded, record_of, Settings, SettingsDraft, StoredSettings};
use crate::store::{chat_views, message_views, Chat, Message, Store, StoreError, Written};
use crate::text::{blank, is_blank};
use vstd::prelude::*;

verus! {

/// The title that a new chat gets.
pub open spec fn new_chat_title() -> Seq<char> {
    "New Chat"@
}

/// A request that is outstanding.
struct Pending {
    chat_id: String,
    token: u64,
}

impl View for Pending {
    type V = PendingView;

    closed spec fn view(&self) -> PendingView {
        PendingView { chat_id: self.chat_id@, token: self.token }
    }
}

/// The values of a sequence of outstanding requests.
spec fn pending_views(pending: Seq<Pending>) -> Seq<PendingView> {
    pending.map_values(|p: Pending| p@)
}

/// What became of a user turn.
#[derive(Debug, PartialEq, Eq)]
pub enum SendOutcome {
    /// The chat is Pending: the turn was turned away and nothing changed.
    Busy,
    /// No model is selected: the message that says so was stored, and no
    /// request is to be made.
    NoModel { written: Written },
    /// The turn was stored and the chat is Pending: the request is to be
    /// made, and its result handed in under the token.
    Dispatched { token: u64, request: ChatRequest, written: Written },
}

/// What became of the result of an exchange.
#[derive(Debug, PartialEq, Eq)]
pub enum Completion {
    /// The result was no longer wanted: nothing was stored.
    Discarded,
    /// The reply, or the message of the failure, was stored.
    Stored { written: Written },
}

/// Whether `written` is what storing a message for `chat` writes to the
/// store `before`: the message under the next id, and the id up to which
/// the history limit has the chat's messages deleted.
pub open spec fn writes(
    before: StoreView,
    written: Written,
    chat: Seq<char>,
    role: Role,
    content: Seq<char>,
    now: u64,
    cap: nat,
) -> bool {
    &&& written.message@ == before.next_message(chat, role, content, now)
    &&& written.deleted_upto == before.with_message(chat, role, content, now).cutoff(chat, cap)
}

/// The message that stands in a chat for the outcome of an exchange.
pub open spec fn text_of(outcome: Result<String, GenerateError>) -> Seq<char> {
    reply_text(outcome_view(outcome))
}

/// Whether a fresh id could be taken in the store: whether some chat of it
/// has an id of the shape that fresh ids have.
pub open spec fn may_hold_fresh_id(store: StoreView) -> bool {
    exists|i: int|
        0 <= i < store.chats.len() && chat_id_shaped((#[trigger] store.chats[i]).id)
}

/// The controller.
pub struct Controller {
    store: Store,
    pending: Vec<Pending>,
    next_token: u64,
    cap: usize,
}

impl View for Controller {
    type V = ControllerView;

    closed spec fn view(&self) -> ControllerView {
        ControllerView {
            store: self.store@,
            pending: pending_views(self.pending@),
            next_token: self.next_token,
            cap: self.cap as nat,
        }
    }
}

/// Where the request of `chat` stands in `pending`, if it has one.
fn request_of(pending: &Vec<Pending>, chat: &String) -> (r: Option<usize>)
    ensures
        match r {
            Some(i) => i < pending.len() && pending[i as int].chat_id@ == chat@,
            None => forall|k: int|
                0 <= k < pending.len() ==> (#[trigger] pending_views(pending@)[k]).chat_id
                    != chat@,
        },
{
    let mut i: usize = 0;
    while i < pending.len()
        invariant
            i <= pending.len(),
            forall|k: int| 0 <= k < i ==> (#[trigger] pending_views(pending@)[k]).chat_id != chat@,
        decreases pending.len() - i,
    {
        if pending[i].chat_id == *chat {
            return Some(i);
        }
        i = i + 1;
    }
    None
}

/// The requests of all chats but `chat`, in their order.
fn requests_of_others(pending: Vec<Pending>, chat: &String) -> (r: Vec<Pending>)
    ensures
        pending_views(r@) == pending_views(pending@).filter(not_for_chat(chat@)),
{
    broadcast use vstd::std_specs::vec::axiom_spec_into_iter;

    let ghost all = pending_views(pending@);
    let ghost keep = not_for_chat(chat@);
    let mut kept: Vec<Pending> = Vec::new();
    assert(all.take(0).filter(keep) =~= Seq::<PendingView>::empty()) by {
        reveal(Seq::filter);
    }
    for p in it: pending
        invariant
            pending_views(it.seq()) == all,
            keep == not_for_chat(chat@),
            pending_views(kept@) == all.take(it.index()).filter(keep),
    {
        proof {
            all.lemma_take_succ_push(it.index());
            all.take(it.index()).lemma_filter_push(p@, keep);
        }
        if !(p.chat_id == *chat) {
            let ghost before = kept@;
            kept.push(p);
            assert(pending_views(kept@) =~= pending_views(before).push(p@));
        }
    }
    assert(all.take(all.len() as int) =~= all);
    kept
}

impl Controller {
    /// Every controller is valid.
    #[verifier::type_invariant]
    pub open spec fn inv(&self) -> bool {
        self@.valid()
    }

    /// A controller over `store` that keeps at most `cap` messages per
    /// chat, with every chat Idle. A limit of zero gives none, and so does
    /// a store in which a chat holds more than `cap` messages: the limit
    /// is to be enforced on the store before.
    pub fn new(store: Store, cap: usize) -> (r: Option<Controller>)
        ensures
            r is Some <==> cap >= 1 && store@.within(cap as nat),
            r matches Some(c) ==> c@ == ControllerView::fresh(store@, cap as nat),
    {
        if cap == 0 || !store.is_within(cap) {
            return None;
        }
        proof {
            use_type_invariant(&store);
        }
        let c = Controller { store, pending: Vec::new(), next_token: 0, cap };
        assert(c@ =~= ControllerView::fresh(store@, cap as nat));
        Some(c)
    }

    /// Moves the controller out and leaves an empty one in its place.
    fn take(&mut self) -> (r: Controller)
        ensures
            r == *old(self),
    {
        let mut taken = Controller {
            store: Store::new(StoredSettings::initial()),
            pending: Vec::new(),
            next_token: 0,
            cap: 1,
        };
        std::mem::swap(self, &mut taken);
        taken
    }

    /// The store, to read from.
    pub fn store(&self) -> (r: &Store)
        ensures
            r@ == self@.store,
    {
        &self.store
    }

    /// Most messages that a chat keeps.
    pub fn cap(&self) -> (r: usize)
        ensures
            r == self@.cap,
            r >= 1,
    {
        proof {
            use_type_invariant(self);
        }
        self.cap
    }

    /// Tells whether the chat is Pending.
    pub fn is_busy(&self, chat_id: &str) -> (r: bool)
        ensures
            r == self@.is_pending(chat_id@),
    {
        let key = chat_id.to_owned();
        match request_of(&self.pending, &key) {
            Some(i) => {
                assert(self@.pending[i as int].chat_id == chat_id@);
                true
            },
            None => {
                assert(self@.pending == pending_views(self.pending@));
                assert(!self@.is_pending(chat_id@));
                false
            },
        }
    }

    /// The chats, in the order in which they were created.
    pub fn chats(&self) -> (r: Vec<Chat>)
        ensures
            chat_views(r@) == self@.store.chats,
    {
        self.store.list_chats()
    }

    /// The messages of a chat, oldest first. They are never more than the
    /// history limit.
    pub fn messages(&self, chat_id: &str) -> (r: Vec<Message>)
        ensures
            message_views(r@) == self@.store.thread(chat_id@),
            r@.len() <= self@.cap,
    {
        proof {
            use_type_invariant(self);
            assert(self@.store.thread(chat_id@).len() <= self@.cap);
        }
        self.store.load_messages(chat_id, self.cap)
    }

    /// Takes a user turn for a chat.
    ///
    /// A chat that is Pending turns it away. Else it needs the chat to
    /// exist and a message id to be left, and fails without a change where
    /// they are not. With no model selected, that is one that is blank, the
    /// message that says so is stored as the assistant's and the chat stays
    /// Idle. Else it needs a request token to be left, and fails without a
    /// change where none is, with the same error as for message ids:
    /// [`StoreError::IdsExhausted`]. Else the turn is stored, the chat
    /// becomes Pending, and the request is handed back: the system prompt
    /// if there is one, the messages that the chat held, and the turn.
    /// After each stored message the history limit is enforced.
    pub fn send(&mut self, chat_id: &str, user_text: &str, settings: &Settings, now: u64) -> (r:
        Result<SendOutcome, StoreError>)
        ensures
            final(self)@ == old(self)@.sent(chat_id@, user_text@, settings@.model, now),
            old(self)@.is_pending(chat_id@) ==> (r matches Ok(SendOutcome::Busy)) && final(self)@
                == old(self)@,
            !old(self)@.is_pending(chat_id@) && !old(self)@.store.has_chat(chat_id@) ==> r
                matches Err(StoreError::UnknownChat),
            !old(self)@.is_pending(chat_id@) && old(self)@.store.has_chat(chat_id@) && old(
                self,
            )@.store.next_id == u64::MAX ==> r matches Err(StoreError::IdsExhausted),
            !old(self)@.refuses(chat_id@) && blank(settings@.model) ==> {
                &&& r matches Ok(SendOutcome::NoModel { written })
                &&& writes(
                    old(self)@.store,
                    written,
                    chat_id@,
                    Role::Assistant,
                    no_model_text(),
                    now,
                    old(self)@.cap,
                )
                &&& !final(self)@.is_pending(chat_id@)
                &&& final(self)@.pending == old(self)@.pending
                &&& final(self)@.store.thread(chat_id@) == newest(
                    old(self)@.store.thread(chat_id@).push(
                        old(self)@.store.next_message(
                            chat_id@,
                            Role::Assistant,
                            no_model_text(),
                            now,
                        ),
                    ),
                    old(self)@.cap,
                )
            },
            !old(self)@.refuses(chat_id@) && !blank(settings@.model) && old(self)@.next_token
                == u64::MAX ==> r matches Err(StoreError::IdsExhausted),
            old(self)@.dispatches(chat_id@, settings@.model) ==> {
                &&& r matches Ok(SendOutcome::Dispatched { token, request, written })
                &&& token == old(self)@.next_token
                &&& request@ == request_for(
                    settings@,
                    old(self)@.store.thread(chat_id@),
                    user_text@,
                )
                &&& writes(
                    old(self)@.store,
                    written,
                    chat_id@,
                    Role::User,
                    user_text@,
                    now,
                    old(self)@.cap,
                )
                &&& final(self)@.awaits(chat_id@, token)
            },
    {
        proof {
            use_type_invariant(&*self);
            lemma_sent(old(self)@, chat_id@, user_text@, settings@.model, now);
        }
        if self.is_busy(chat_id) {
            return Ok(SendOutcome::Busy);
        }
        if !self.store.has_chat(chat_id) {
            return Err(StoreError::UnknownChat);
        }
        if self.store.next_id() == u64::MAX {
            return Err(StoreError::IdsExhausted);
        }
        if is_blank(settings.model.as_str()) {
            let Controller { mut store, pending, next_token, cap } = self.take();
            let stored = store.record(chat_id, Role::Assistant, no_model_message(), now, cap);
            *self = Controller { store, pending, next_token, cap };
            assert(self@ =~= old(self)@.sent(chat_id@, user_text@, settings@.model, now));
            return match stored {
                Ok(written) => Ok(SendOutcome::NoModel { written }),
                Err(e) => Err(e),
            };
        }
        if self.next_token == u64::MAX {
            return Err(StoreError::IdsExhausted);
        }
        let stored_before = self.messages(chat_id);
        let request = build_request(settings, &stored_before, user_text);
        let Controller { mut store, mut pending, next_token, cap } = self.take();
        let stored = store.record(chat_id, Role::User, user_text, now, cap);
        let ghost before = pending@;
        pending.push(Pending { chat_id: chat_id.to_owned(), token: next_token });
        proof {
            assert(pending_views(pending@) =~= pending_views(before).push(
                PendingView { chat_id: chat_id@, token: next_token },
            ));
        }
        *self = Controller { store, pending, next_token: next_token + 1, cap };
        assert(self@ =~= old(self)@.sent(chat_id@, user_text@, settings@.model, now));
        match stored {
            Ok(written) => Ok(SendOutcome::Dispatched { token: next_token, request, written }),
            Err(e) => Err(e),
        }
    }

    /// Takes the result of the exchange that was made under `token` for a
    /// chat: the reply, or why there is none.
    ///
    /// Where the chat is no longer waiting for that exchange, because it
    /// was cancelled or deleted, the result is dropped and nothing changes.
    /// Else the chat goes back to Idle, and the reply, or the message of
    /// the failure, is stored as the assistant's and the history limit
    /// enforced. Where no message id is left the chat goes back to Idle
    /// and the error says so.
    pub fn complete(
        &mut self,
        chat_id: &str,
        token: u64,
        outcome: Result<String, GenerateError>,
        now: u64,
    ) -> (r: Result<Completion, StoreError>)
        ensures
            final(self)@ == old(self)@.completed(chat_id@, token, text_of(outcome), now),
            !old(self)@.awaits(chat_id@, token) ==> (r matches Ok(Completion::Discarded))
                && final(self)@ == old(self)@,
            old(self)@.awaits(chat_id@, token) && old(self)@.store.next_id == u64::MAX ==> r
                matches Err(StoreError::IdsExhausted),
            old(self)@.awaits(chat_id@, token) && old(self)@.store.next_id < u64::MAX ==> {
                &&& r matches Ok(Completion::Stored { written })
                &&& writes(
                    old(self)@.store,
                    written,
                    chat_id@,
                    Role::Assistant,
                    text_of(outcome),
                    now,
                    old(self)@.cap,
                )
            },
            old(self)@.awaits(chat_id@, token) ==> !final(self)@.is_pending(chat_id@),
    {
        proof {
            use_type_invariant(&*self);
            lemma_completed(old(self)@, chat_id@, token, text_of(outcome), now);
            lemma_idle(old(self)@, chat_id@);
        }
        let key = chat_id.to_owned();
        let found = request_of(&self.pending, &key);
        let wanted = match found {
            Some(i) => self.pending[i].token == token,
            None => false,
        };
        proof {
            let c = old(self)@;
            assert(c.pending == pending_views(self.pending@));
            if c.awaits(chat_id@, token) {
                let k = choose|k: int|
                    0 <= k < c.pending.len() && #[trigger] c.pending[k] == (PendingView {
                        chat_id: chat_id@,
                        token,
                    });
                assert(c.pending[k].chat_id == chat_id@);
                assert(c.store.has_chat(c.pending[k].chat_id));
                let i = request_of_index(c, chat_id@);
                match found {
                    Some(j) => {
                        assert(c.pending[j as int].chat_id == chat_id@);
                    },
                    None => {
                        assert(pending_views(self.pending@)[k].chat_id == chat_id@);
                    },
                }
            }
            if wanted {
                let i = found->0 as int;
                assert(c.pending[i] == PendingView { chat_id: chat_id@, token });
            }
        }
        if !wanted {
            return Ok(Completion::Discarded);
        }
        let text = match outcome {
            Ok(reply) => reply,
            Err(e) => failure_message(e),
        };
        let Controller { mut store, pending, next_token, cap } = self.take();
        let pending = requests_of_others(pending, &key);
        let stored = store.record(chat_id, Role::Assistant, text.as_str(), now, cap);
        *self = Controller { store, pending, next_token, cap };
        assert(self@ =~= old(self)@.completed(chat_id@, token, text_of(outcome), now));
        match stored {
            Ok(written) => Ok(Completion::Stored { written }),
            Err(e) => Err(e),
        }
    }

    /// Cancels the request of a chat, if it has one, and tells whether it
    /// had. The chat is Idle at once; the exchange itself is left to
    /// resolve, and its result will be dropped.
    pub fn cancel(&mut self, chat_id: &str) -> (r: bool)
        ensures
            r == old(self)@.is_pending(chat_id@),
            final(self)@ == old(self)@.idle(chat_id@),
            final(self)@.store == old(self)@.store,
            !final(self)@.is_pending(chat_id@),
            forall|token: u64| !final(self)@.awaits(chat_id@, token),
    {
        proof {
            use_type_invariant(&*self);
            lemma_idle(old(self)@, chat_id@);
        }
        let was_busy = self.is_busy(chat_id);
        let key = chat_id.to_owned();
        let Controller { store, pending, next_token, cap } = self.take();
        let pending = requests_of_others(pending, &key);
        *self = Controller { store, pending, next_token, cap };
        assert(self@ =~= old(self)@.idle(chat_id@));
        was_busy
    }

    /// Creates a chat under the id given. Where a chat with this id exists,
    /// nothing changes and the error says so.
    pub fn create_chat(&mut self, id: &str, title: &str) -> (r: Result<(), StoreError>)
        ensures
            final(self)@ == old(self)@.with_chat(id@, title@),
            old(self)@.store.has_chat(id@) ==> r == Err::<(), StoreError>(
                StoreError::DuplicateChat,
            ),
            !old(self)@.store.has_chat(id@) ==> r is Ok && final(self)@.store.has_chat(id@),
    {
        proof {
            use_type_invariant(&*self);
            lemma_after_valid(old(self)@, Event::CreateChat { id: id@, title: title@ });
            if !old(self)@.store.has_chat(id@) {
                crate::history::lemma_with_chat_valid(old(self)@.store, id@, title@);
            }
        }
        let Controller { mut store, pending, next_token, cap } = self.take();
        let r = store.create_chat(id, title);
        *self = Controller { store, pending, next_token, cap };
        assert(self@ =~= old(self)@.with_chat(id@, title@));
        r
    }

    /// Creates a chat titled "New Chat" under a fresh random id, which is
    /// returned. Should the id be taken, nothing changes and the error
    /// says so. That can only be where some chat has an id of the shape
    /// of a fresh one: on every other store, the empty one among them, the
    /// chat is created.
    pub fn new_chat(&mut self) -> (r: Result<String, StoreError>)
        ensures
            !may_hold_fresh_id(old(self)@.store) ==> r is Ok,
            match r {
                Ok(id) => chat_id_shaped(id@) && !old(self)@.store.has_chat(id@) && final(self)@
                    == old(self)@.with_chat(id@, new_chat_title()),
                Err(e) => e == StoreError::DuplicateChat && final(self)@ == old(self)@,
            },
    {
        let id = fresh_chat_id();
        match self.create_chat(id.as_str(), "New Chat") {
            Ok(()) => Ok(id),
            Err(e) => Err(e),
        }
    }

    /// Gives a chat another title. Where no chat has this id, nothing
    /// changes.
    pub fn rename_chat(&mut self, id: &str, title: &str)
        ensures
            final(self)@ == old(self)@.after(Event::RenameChat { id: id@, title: title@ }),
    {
        proof {
            use_type_invariant(&*self);
            lemma_after_valid(old(self)@, Event::RenameChat { id: id@, title: title@ });
        }
        let Controller { mut store, pending, next_token, cap } = self.take();
        store.rename_chat(id, title);
        *self = Controller { store, pending, next_token, cap };
        assert(self@ =~= old(self)@.after(Event::RenameChat { id: id@, title: title@ }));
    }

    /// Deletes a chat and all its messages. A request that was outstanding
    /// for it is cancelled.
    pub fn delete_chat(&mut self, id: &str)
        ensures
            final(self)@ == old(self)@.without_chat(id@),
            !final(self)@.store.has_chat(id@),
            !final(self)@.is_pending(id@),
    {
        proof {
            use_type_invariant(&*self);
            lemma_after_valid(old(self)@, Event::DeleteChat { id: id@ });
            lemma_idle(old(self)@, id@);
            crate::history::lemma_without_chat_valid(old(self)@.store, id@);
        }
        let key = id.to_owned();
        let Controller { mut store, pending, next_token, cap } = self.take();
        store.delete_chat(id);
        let pending = requests_of_others(pending, &key);
        *self = Controller { store, pending, next_token, cap };
        assert(self@ =~= old(self)@.without_chat(id@));
    }

    /// Deletes every chat and every message, and cancels every request.
    /// The settings stay as they are.
    pub fn delete_all_history(&mut self)
        ensures
            final(self)@ == old(self)@.wiped(),
            final(self)@.store.chats.len() == 0,
            final(self)@.store.settings == old(self)@.store.settings,
    {
        proof {
            use_type_invariant(&*self);
            lemma_after_valid(old(self)@, Event::DeleteAllHistory);
        }
        let Controller { mut store, pending: _, next_token, cap } = self.take();
        store.delete_all();
        *self = Controller { store, pending: Vec::new(), next_token, cap };
        assert(self@ =~= old(self)@.wiped());
    }

    /// The settings as they are stored, in canonical form: a default for
    /// whatever is missing, and the maximized flag set.
    pub fn load_settings(&self) -> (r: Settings)
        ensures
            r@ == loaded(self@.store.settings),
    {
        self.store.settings().load()
    }

    /// Brings a draft into canonical form, stores it, and returns it.
    /// Chats, messages and requests stay as they are.
    pub fn apply_settings(&mut self, draft: &SettingsDraft) -> (r: Settings)
        ensures
            r@ == canonical(draft@),
            final(self)@ == old(self)@.after(
                Event::ApplySettings { record: record_of(canonical(draft@)) },
            ),
    {
        proof {
            use_type_invariant(&*self);
            lemma_after_valid(
                old(self)@,
                Event::ApplySettings { record: record_of(canonical(draft@)) },
            );
        }
        let settings = draft.canonicalize();
        let Controller { mut store, pending, next_token, cap } = self.take();
        store.set_settings(settings.to_record());
        *self = Controller { store, pending, next_token, cap };
        assert(self@ =~= old(self)@.after(
            Event::ApplySettings { record: record_of(canonical(draft@)) },
        ));
        settings
    }
}

/// Where the one request of a Pending chat stands.
proof fn request_of_index(c: ControllerView, chat: Seq<char>) -> (i: int)
    requires
        c.valid(),
        c.is_pending(chat),
    ensures
        0 <= i < c.pending.len(),
        c.pending[i].chat_id == chat,
        forall|k: int| 0 <= k < c.pending.len() && c.pending[k].chat_id == chat ==> k == i,
{
    let i = choose|i: int| 0 <= i < c.pending.len() && (#[trigger] c.pending[i]).chat_id == chat;
    assert forall|k: int| 0 <= k < c.pending.len() && c.pending[k].chat_id == chat implies k
        == i by {
        if k < i {
            assert(c.pending[k].chat_id != c.pending[i].chat_id);
        } else if i < k {
            assert(c.pending[i].chat_id != c.pending[k].chat_id);
        }
    }
    i
}

} // verus!
