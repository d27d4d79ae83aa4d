//! The conversation store: chats, their messages and the settings record,
//! kept in memory in the order in which they were written. Every operation
//! is stated against the model in [`crate::history`].

use crate::history::{
    lemma_capped_all, lemma_capped_keeps_newest, lemma_capped_upto, lemma_filter_agree,
    lemma_filter_source, lemma_renamed_valid, lemma_thread_ascending, lemma_wiped,
    lemma_with_chat_valid, lemma_with_message_valid, lemma_without_chat_valid, lists_chat, newest,
    not_of_chat, of_chat, other_than, outlives, ChatView, MessageView, Role, StoreView,
    MAX_MESSAGE_CHARS, MAX_TITLE_CHARS,
};
use crate::settings::StoredSettings;
use crate::text::truncate_chars;
use vstd::prelude::*;

verus! {

/// A conversation thread.
#[derive(Debug, PartialEq, Eq)]
pub struct Chat {
    pub id: String,
    pub title: String,
}

impl View for Chat {
    type V = ChatView;

    open spec fn view(&self) -> ChatView {
        ChatView { id: self.id@, title: self.title@ }
    }
}

impl Clone for Chat {
    fn clone(&self) -> (r: Chat)
        ensures
            r == *self,
    {
        Chat { id: self.id.clone(), title: self.title.clone() }
    }
}

/// One turn of a conversation.
#[derive(Debug, PartialEq, Eq)]
pub struct Message {
    pub id: u64,
    pub chat_id: String,
    pub role: Role,
    pub content: String,
    pub timestamp: u64,
}

impl View for Message {
    type V = MessageView;

    open spec fn view(&self) -> MessageView {
        MessageView {
            id: self.id,
            chat_id: self.chat_id@,
            role: self.role,
            content: self.content@,
            timestamp: self.timestamp,
        }
    }
}

impl Clone for Message {
    fn clone(&self) -> (r: Message)
        ensures
            r == *self,
    {
        Message {
            id: self.id,
            chat_id: self.chat_id.clone(),
            role: self.role,
            content: self.content.clone(),
            timestamp: self.timestamp,
        }
    }
}

/// What one recorded message changed in the store.
#[derive(Debug, PartialEq, Eq)]
pub struct Written {
    /// The message as it is stored.
    pub message: Message,
    /// The id up to which messages of the chat were deleted to keep it
    /// within its limit, if any were.
    pub deleted_upto: Option<u64>,
}

/// What enforcing the history limit deleted of one chat.
#[derive(Debug, PartialEq, Eq)]
pub struct Trimmed {
    pub chat_id: String,
    /// The id up to which the messages of the chat are gone.
    pub deleted_upto: u64,
}

/// The values of a sequence of deletions.
pub open spec fn trimmed_views(trimmed: Seq<Trimmed>) -> Seq<(Seq<char>, u64)> {
    trimmed.map_values(|t: Trimmed| (t.chat_id@, t.deleted_upto))
}

/// Why a store operation did nothing.
#[derive(Clone, Copy, Debug, PartialEq, Eq, Structural)]
pub enum StoreError {
    /// No chat has the id that was named.
    UnknownChat,
    /// A chat with that id exists already.
    DuplicateChat,
    /// Every number of the kind that the operation needs has been given
    /// out: every message id, where a message was to be stored, or every
    /// request token, where a chat was to become Pending.
    IdsExhausted,
}

/// The values of a sequence of chats.
pub open spec fn chat_views(chats: Seq<Chat>) -> Seq<ChatView> {
    chats.map_values(|c: Chat| c@)
}

/// The values of a sequence of messages.
pub open spec fn message_views(messages: Seq<Message>) -> Seq<MessageView> {
    messages.map_values(|m: Message| m@)
}

/// The value of a store that holds what was read back from storage.
pub open spec fn restored(
    chats: Seq<Chat>,
    messages: Seq<Message>,
    next_id: u64,
    settings: StoredSettings,
) -> StoreView {
    StoreView {
        chats: chat_views(chats),
        messages: message_views(messages),
        next_id,
        settings: settings@,
    }
}

/// The store.
pub struct Store {
    chats: Vec<Chat>,
    messages: Vec<Message>,
    next_id: u64,
    settings: StoredSettings,
}

impl View for Store {
    type V = StoreView;

    closed spec fn view(&self) -> StoreView {
        StoreView {
            chats: chat_views(self.chats@),
            messages: message_views(self.messages@),
            next_id: self.next_id,
            settings: self.settings@,
        }
    }
}

/// Where the chat `id` stands in `chats`, if it is there.
fn position_of(chats: &Vec<Chat>, id: &String) -> (r: Option<usize>)
    ensures
        match r {
            Some(i) => i < chats.len() && chats[i as int].id@ == id@,
            None => !lists_chat(chat_views(chats@), id@),
        },
{
    let mut i: usize = 0;
    while i < chats.len()
        invariant
            i <= chats.len(),
            forall|k: int| 0 <= k < i ==> (#[trigger] chat_views(chats@)[k]).id != id@,
        decreases chats.len() - i,
    {
        if chats[i].id == *id {
            return Some(i);
        }
        i = i + 1;
    }
    None
}

impl Store {
    /// Every store is valid.
    #[verifier::type_invariant]
    pub open spec fn inv(&self) -> bool {
        self@.valid()
    }

    /// A store without chats and messages that holds `settings`.
    pub fn new(settings: StoredSettings) -> (r: Store)
        ensures
            r@ == StoreView::fresh(settings@),
    {
        let r = Store { chats: Vec::new(), messages: Vec::new(), next_id: 1, settings };
        assert(r@ =~= StoreView::fresh(settings@));
        r
    }

    /// The store that holds what was read back from storage, where that is
    /// valid: chat ids unique, titles and contents within their limits,
    /// message ids strictly increasing and below `next_id`, and every
    /// message in a chat that is there. Else none.
    pub fn restore(
        chats: Vec<Chat>,
        messages: Vec<Message>,
        next_id: u64,
        settings: StoredSettings,
    ) -> (r: Option<Store>)
        ensures
            match r {
                Some(store) => store@ == restored(chats@, messages@, next_id, settings),
                None => !restored(chats@, messages@, next_id, settings).valid(),
            },
    {
        let ghost wanted = restored(chats@, messages@, next_id, settings);
        let mut i: usize = 0;
        while i < chats.len()
            invariant
                i <= chats.len(),
                wanted == restored(chats@, messages@, next_id, settings),
                forall|a: int, b: int| 0 <= a < b < i ==> wanted.chats[a].id != wanted.chats[b].id,
                forall|a: int|
                    0 <= a < i ==> (#[trigger] wanted.chats[a]).title.len() <= MAX_TITLE_CHARS,
            decreases chats.len() - i,
        {
            if chats[i].title.as_str().unicode_len() > MAX_TITLE_CHARS {
                assert(wanted.chats[i as int].title.len() > MAX_TITLE_CHARS);
                return None;
            }
            let mut k: usize = 0;
            while k < i
                invariant
                    k <= i < chats.len(),
                    wanted == restored(chats@, messages@, next_id, settings),
                    forall|a: int| 0 <= a < k ==> wanted.chats[a].id != wanted.chats[i as int].id,
                decreases i - k,
            {
                if chats[k].id == chats[i].id {
                    assert(wanted.chats[k as int].id == wanted.chats[i as int].id);
                    return None;
                }
                k = k + 1;
            }
            i = i + 1;
        }
        let mut j: usize = 0;
        while j < messages.len()
            invariant
                j <= messages.len(),
                wanted == restored(chats@, messages@, next_id, settings),
                forall|a: int, b: int|
                    0 <= a < b < j ==> wanted.messages[a].id < wanted.messages[b].id,
                forall|a: int| 0 <= a < j ==> (#[trigger] wanted.messages[a]).id < next_id,
                forall|a: int|
                    0 <= a < j ==> wanted.has_chat((#[trigger] wanted.messages[a]).chat_id),
                forall|a: int|
                    0 <= a < j ==> (#[trigger] wanted.messages[a]).content.len()
                        <= MAX_MESSAGE_CHARS,
            decreases messages.len() - j,
        {
            let m = &messages[j];
            assert(wanted.messages[j as int] == m@);
            if m.id >= next_id {
                return None;
            }
            if j > 0 && messages[j - 1].id >= m.id {
                assert(wanted.messages[j - 1].id >= wanted.messages[j as int].id);
                return None;
            }
            if m.content.as_str().unicode_len() > MAX_MESSAGE_CHARS {
                return None;
            }
            match position_of(&chats, &m.chat_id) {
                None => {
                    return None;
                },
                Some(at) => {
                    assert(wanted.chats[at as int].id == m@.chat_id);
                },
            }
            proof {
                assert forall|a: int, b: int| 0 <= a < b < j + 1 implies wanted.messages[a].id
                    < wanted.messages[b].id by {
                    if b == j && a < j - 1 {
                        assert(wanted.messages[a].id < wanted.messages[j - 1].id);
                    }
                }
            }
            j = j + 1;
        }
        let store = Store { chats, messages, next_id, settings };
        assert(store@ =~= wanted);
        Some(store)
    }

    /// Moves the store out and leaves an empty one in its place.
    fn take(&mut self) -> (r: Store)
        ensures
            r == *old(self),
    {
        let mut taken = Store {
            chats: Vec::new(),
            messages: Vec::new(),
            next_id: 1,
            settings: StoredSettings::initial(),
        };
        std::mem::swap(self, &mut taken);
        taken
    }

    /// Tells whether a chat with this id exists.
    pub fn has_chat(&self, id: &str) -> (r: bool)
        ensures
            r == self@.has_chat(id@),
    {
        let key = id.to_owned();
        match position_of(&self.chats, &key) {
            Some(i) => {
                assert(chat_views(self.chats@)[i as int].id == id@);
                true
            },
            None => false,
        }
    }

    /// Creates a chat, which comes last in the list. The title is cut to
    /// [`MAX_TITLE_CHARS`]. Where a chat with this id exists, nothing
    /// changes and the error says so.
    pub fn create_chat(&mut self, id: &str, title: &str) -> (r: Result<(), StoreError>)
        ensures
            old(self)@.has_chat(id@) ==> r == Err::<(), StoreError>(StoreError::DuplicateChat)
                && final(self)@ == old(self)@,
            !old(self)@.has_chat(id@) ==> r is Ok && final(self)@ == old(self)@.with_chat(
                id@,
                title@,
            ),
    {
        proof {
            use_type_invariant(&*self);
        }
        if self.has_chat(id) {
            return Err(StoreError::DuplicateChat);
        }
        let chat = Chat { id: id.to_owned(), title: truncate_chars(title, MAX_TITLE_CHARS) };
        let Store { mut chats, messages, next_id, settings } = self.take();
        chats.push(chat);
        proof {
            lemma_with_chat_valid(old(self)@, id@, title@);
            assert(chat_views(chats@) =~= old(self)@.with_chat(id@, title@).chats);
        }
        *self = Store { chats, messages, next_id, settings };
        assert(self@ =~= old(self)@.with_chat(id@, title@));
        Ok(())
    }

    /// The chats, in the order in which they were created.
    pub fn list_chats(&self) -> (r: Vec<Chat>)
        ensures
            chat_views(r@) == self@.chats,
    {
        let mut out: Vec<Chat> = Vec::new();
        let mut i: usize = 0;
        while i < self.chats.len()
            invariant
                i <= self.chats.len(),
                out@.len() == i,
                chat_views(out@) == chat_views(self.chats@).take(i as int),
            decreases self.chats.len() - i,
        {
            out.push(self.chats[i].clone());
            proof {
                assert(out@[i as int] == self.chats@[i as int]);
                assert(chat_views(out@) =~= chat_views(self.chats@).take(i + 1));
            }
            i = i + 1;
        }
        assert(chat_views(self.chats@).take(i as int) =~= chat_views(self.chats@));
        out
    }

    /// The id that the next message gets.
    pub fn next_id(&self) -> (r: u64)
        ensures
            r == self@.next_id,
    {
        self.next_id
    }

    /// The settings record.
    pub fn settings(&self) -> (r: StoredSettings)
        ensures
            r@ == self@.settings,
    {
        self.settings.clone()
    }

    /// Replaces the settings record. Chats and messages stay.
    pub fn set_settings(&mut self, record: StoredSettings)
        ensures
            final(self)@ == old(self)@.with_settings(record@),
    {
        proof {
            use_type_invariant(&*self);
        }
        self.settings = record;
        assert(self@ =~= old(self)@.with_settings(record@));
    }

    /// Gives a chat another title, cut to [`MAX_TITLE_CHARS`]. Where no chat
    /// has this id, nothing changes.
    pub fn rename_chat(&mut self, id: &str, title: &str)
        ensures
            final(self)@ == old(self)@.renamed(id@, title@),
    {
        proof {
            use_type_invariant(&*self);
            lemma_renamed_valid(old(self)@, id@, title@);
        }
        let key = id.to_owned();
        match position_of(&self.chats, &key) {
            None => {},
            Some(i) => {
                let Store { mut chats, messages, next_id, settings } = self.take();
                chats[i].title = truncate_chars(title, MAX_TITLE_CHARS);
                proof {
                    let wanted = old(self)@.renamed(id@, title@).chats;
                    assert forall|k: int| 0 <= k < wanted.len() implies chat_views(chats@)[k]
                        == wanted[k] by {
                        if k != i {
                            assert(old(self)@.chats[k].id != old(self)@.chats[i as int].id);
                        }
                    }
                    assert(chat_views(chats@) =~= wanted);
                }
                *self = Store { chats, messages, next_id, settings };
                assert(self@ =~= old(self)@.renamed(id@, title@));
            },
        }
    }

    /// Deletes a chat and all its messages. Where no chat has this id,
    /// nothing changes.
    pub fn delete_chat(&mut self, id: &str)
        ensures
            final(self)@ == old(self)@.without_chat(id@),
    {
        proof {
            use_type_invariant(&*self);
            lemma_without_chat_valid(old(self)@, id@);
        }
        let key = id.to_owned();
        let Store { chats, messages, next_id, settings } = self.take();
        let chats = other_chats(chats, &key);
        let messages = drop_upto(messages, &key, u64::MAX);
        proof {
            lemma_filter_agree(
                old(self)@.messages,
                outlives(id@, u64::MAX),
                not_of_chat(id@),
            );
        }
        *self = Store { chats, messages, next_id, settings };
        assert(self@ =~= old(self)@.without_chat(id@));
    }

    /// Appends a message to a chat. It gets the next id, which is returned,
    /// and its content is cut to [`MAX_MESSAGE_CHARS`]. Where no chat has
    /// this id, or no message id is left, nothing changes and the error says
    /// which.
    pub fn append_message(
        &mut self,
        chat_id: &str,
        role: Role,
        content: &str,
        timestamp: u64,
    ) -> (r: Result<u64, StoreError>)
        ensures
            !old(self)@.has_chat(chat_id@) ==> r == Err::<u64, StoreError>(StoreError::UnknownChat),
            old(self)@.has_chat(chat_id@) && old(self)@.next_id == u64::MAX ==> r == Err::<
                u64,
                StoreError,
            >(StoreError::IdsExhausted),
            old(self)@.has_chat(chat_id@) && old(self)@.next_id < u64::MAX ==> r == Ok::<
                u64,
                StoreError,
            >(old(self)@.next_id),
            r is Err ==> final(self)@ == old(self)@,
            r is Ok ==> final(self)@ == old(self)@.with_message(
                chat_id@,
                role,
                content@,
                timestamp,
            ),
    {
        proof {
            use_type_invariant(&*self);
        }
        if !self.has_chat(chat_id) {
            return Err(StoreError::UnknownChat);
        }
        if self.next_id == u64::MAX {
            return Err(StoreError::IdsExhausted);
        }
        let Store { chats, mut messages, next_id, settings } = self.take();
        let message = Message {
            id: next_id,
            chat_id: chat_id.to_owned(),
            role,
            content: truncate_chars(content, MAX_MESSAGE_CHARS),
            timestamp,
        };
        messages.push(message);
        proof {
            lemma_with_message_valid(old(self)@, chat_id@, role, content@, timestamp);
            assert(message_views(messages@) =~= old(self)@.with_message(
                chat_id@,
                role,
                content@,
                timestamp,
            ).messages);
        }
        *self = Store { chats, messages, next_id: next_id + 1, settings };
        assert(self@ =~= old(self)@.with_message(chat_id@, role, content@, timestamp));
        Ok(next_id)
    }

    /// How many messages a chat holds.
    pub fn count_messages(&self, chat_id: &str) -> (r: usize)
        ensures
            r == self@.thread(chat_id@).len(),
    {
        let key = chat_id.to_owned();
        let ghost all = message_views(self.messages@);
        let ghost mine = of_chat(chat_id@);
        let mut count: usize = 0;
        let mut i: usize = 0;
        assert(all.take(0).filter(mine).len() == 0) by {
            reveal(Seq::filter);
        }
        while i < self.messages.len()
            invariant
                i <= self.messages.len(),
                all == message_views(self.messages@),
                mine == of_chat(chat_id@),
                key@ == chat_id@,
                count == all.take(i as int).filter(mine).len(),
                count <= i,
            decreases self.messages.len() - i,
        {
            proof {
                all.lemma_take_succ_push(i as int);
                all.take(i as int).lemma_filter_push(all[i as int], mine);
            }
            if self.messages[i].chat_id == key {
                count = count + 1;
            }
            i = i + 1;
        }
        assert(all.take(i as int) =~= all);
        count
    }

    /// The newest `limit` messages of a chat, oldest first.
    pub fn load_messages(&self, chat_id: &str, limit: usize) -> (r: Vec<Message>)
        ensures
            message_views(r@) == newest(self@.thread(chat_id@), limit as nat),
    {
        let key = chat_id.to_owned();
        let total = self.count_messages(chat_id);
        let skip: usize = if total > limit {
            total - limit
        } else {
            0
        };
        let ghost all = message_views(self.messages@);
        let ghost mine = of_chat(chat_id@);
        let mut out: Vec<Message> = Vec::new();
        let mut seen: usize = 0;
        let mut i: usize = 0;
        assert(all.take(0).filter(mine).len() == 0) by {
            reveal(Seq::filter);
        }
        while i < self.messages.len()
            invariant
                i <= self.messages.len(),
                all == message_views(self.messages@),
                mine == of_chat(chat_id@),
                key@ == chat_id@,
                seen == all.take(i as int).filter(mine).len(),
                seen <= i,
                message_views(out@) == all.take(i as int).filter(mine).skip(
                    if seen < skip {
                        seen as int
                    } else {
                        skip as int
                    },
                ),
            decreases self.messages.len() - i,
        {
            proof {
                all.lemma_take_succ_push(i as int);
                all.take(i as int).lemma_filter_push(all[i as int], mine);
            }
            if self.messages[i].chat_id == key {
                if seen >= skip {
                    let ghost before = out@;
                    out.push(self.messages[i].clone());
                    assert(message_views(out@) =~= message_views(before).push(all[i as int]));
                    assert(message_views(out@) =~= all.take(i + 1).filter(mine).skip(skip as int));
                } else {
                    assert(message_views(out@) =~= all.take(i + 1).filter(mine).skip(seen + 1));
                }
                seen = seen + 1;
            }
            i = i + 1;
        }
        assert(all.take(i as int) =~= all);
        assert(message_views(out@) =~= newest(self@.thread(chat_id@), limit as nat));
        out
    }

    /// Enforces the history limit on one chat: where it holds more than
    /// `cap` messages, deletes each of its messages up to the newest surplus
    /// one, whose id is returned. The chat then holds its `cap` newest
    /// messages in their order; other chats are untouched.
    pub fn enforce_cap(&mut self, chat_id: &str, cap: usize) -> (r: Option<u64>)
        ensures
            final(self)@ == old(self)@.capped(chat_id@, cap as nat),
            final(self)@.thread(chat_id@) == newest(old(self)@.thread(chat_id@), cap as nat),
            final(self)@.thread(chat_id@).len() <= cap,
            forall|c: Seq<char>|
                c != chat_id@ ==> #[trigger] final(self)@.thread(c) == old(self)@.thread(c),
            r == old(self)@.cutoff(chat_id@, cap as nat),
    {
        proof {
            use_type_invariant(&*self);
            lemma_capped_keeps_newest(old(self)@, chat_id@, cap as nat);
        }
        let total = self.count_messages(chat_id);
        if total <= cap {
            return None;
        }
        let key = chat_id.to_owned();
        let cutoff = self.nth_id(&key, total - cap - 1);
        let Store { chats, messages, next_id, settings } = self.take();
        let messages = drop_upto(messages, &key, cutoff);
        *self = Store { chats, messages, next_id, settings };
        assert(self@ =~= old(self)@.capped(chat_id@, cap as nat));
        Some(cutoff)
    }

    /// Enforces the history limit on every chat, and returns what was
    /// deleted: for each chat that held more than `cap` messages, in the
    /// order of the chats, the id up to which its messages are gone. Every
    /// chat then holds its `cap` newest messages in their order.
    pub fn enforce_cap_all(&mut self, cap: usize) -> (r: Vec<Trimmed>)
        ensures
            final(self)@ == old(self)@.capped_all(cap as nat),
            final(self)@.within(cap as nat),
            forall|chat: Seq<char>| #[trigger]
                final(self)@.thread(chat) == newest(old(self)@.thread(chat), cap as nat),
            trimmed_views(r@) == old(self)@.surplus(cap as nat),
    {
        proof {
            use_type_invariant(&*self);
            lemma_capped_all(old(self)@, cap as nat);
        }
        let chats = self.list_chats();
        let ghost start = self@;
        let ghost pick = start.surplus_of(cap as nat);
        let mut out: Vec<Trimmed> = Vec::new();
        let mut i: usize = 0;
        assert(trimmed_views(out@) =~= start.chats.take(0).filter_map(pick));
        while i < chats.len()
            invariant
                i <= chats.len(),
                start.valid(),
                start.chats == chat_views(chats@),
                pick == start.surplus_of(cap as nat),
                self@ == start.capped_upto(i as nat, cap as nat),
                trimmed_views(out@) == start.chats.take(i as int).filter_map(pick),
            decreases chats.len() - i,
        {
            proof {
                lemma_capped_upto(start, i as nat, cap as nat);
                start.chats.lemma_filter_map_take_succ(pick, i as int);
                let id = start.chats[i as int].id;
                if lists_chat(start.chats.take(i as int), id) {
                    let k = choose|k: int|
                        0 <= k < start.chats.take(i as int).len() && (#[trigger] start.chats.take(
                            i as int,
                        )[k]).id == id;
                    assert(start.chats[k].id != start.chats[i as int].id);
                }
                assert(self@.thread(id) == start.thread(id));
            }
            match self.enforce_cap(chats[i].id.as_str(), cap) {
                Some(deleted_upto) => {
                    let ghost before = out@;
                    out.push(Trimmed { chat_id: chats[i].id.clone(), deleted_upto });
                    assert(trimmed_views(out@) =~= trimmed_views(before).push(
                        (start.chats[i as int].id, deleted_upto),
                    ));
                },
                None => {},
            }
            i = i + 1;
        }
        assert(start.chats.take(i as int) =~= start.chats);
        out
    }

    /// Tells whether every chat holds at most `cap` messages.
    pub fn is_within(&self, cap: usize) -> (r: bool)
        ensures
            r == self@.within(cap as nat),
    {
        proof {
            use_type_invariant(self);
        }
        let mut i: usize = 0;
        while i < self.chats.len()
            invariant
                i <= self.chats.len(),
                forall|k: int|
                    0 <= k < i ==> self@.thread((#[trigger] self@.chats[k]).id).len() <= cap,
            decreases self.chats.len() - i,
        {
            if self.count_messages(self.chats[i].id.as_str()) > cap {
                assert(self@.thread(self@.chats[i as int].id).len() > cap);
                return false;
            }
            i = i + 1;
        }
        proof {
            assert forall|chat: Seq<char>| (#[trigger] self@.thread(chat)).len() <= cap by {
                if self@.has_chat(chat) {
                    let k = choose|k: int|
                        0 <= k < self@.chats.len() && (#[trigger] self@.chats[k]).id == chat;
                } else {
                    lemma_thread_ascending(self@, chat);
                }
            }
        }
        true
    }

    /// Appends a message to a chat and enforces the history limit on it.
    /// What was written is returned: the message as it is stored, and the
    /// id up to which messages of the chat were deleted, if any were. Where
    /// no chat has this id, or no message id is left, nothing changes and
    /// the error says which.
    pub fn record(
        &mut self,
        chat_id: &str,
        role: Role,
        content: &str,
        timestamp: u64,
        cap: usize,
    ) -> (r: Result<Written, StoreError>)
        ensures
            !old(self)@.has_chat(chat_id@) ==> r matches Err(StoreError::UnknownChat),
            old(self)@.has_chat(chat_id@) && old(self)@.next_id == u64::MAX ==> r matches Err(
                StoreError::IdsExhausted,
            ),
            r is Err ==> final(self)@ == old(self)@,
            old(self)@.has_chat(chat_id@) && old(self)@.next_id < u64::MAX ==> {
                &&& r matches Ok(written)
                &&& written.message@ == old(self)@.next_message(chat_id@, role, content@, timestamp)
                &&& written.deleted_upto == old(self)@.with_message(
                    chat_id@,
                    role,
                    content@,
                    timestamp,
                ).cutoff(chat_id@, cap as nat)
                &&& final(self)@ == old(self)@.recorded(
                    chat_id@,
                    role,
                    content@,
                    timestamp,
                    cap as nat,
                )
            },
    {
        match self.append_message(chat_id, role, content, timestamp) {
            Err(e) => Err(e),
            Ok(_) => {
                assert(self.messages.len() > 0 && message_views(self.messages@).last()
                    == old(self)@.next_message(chat_id@, role, content@, timestamp));
                let message = self.messages[self.messages.len() - 1].clone();
                let deleted_upto = self.enforce_cap(chat_id, cap);
                Ok(Written { message, deleted_upto })
            },
        }
    }

    /// The id of the message at place `n` of a chat's thread.
    fn nth_id(&self, chat: &String, n: usize) -> (r: u64)
        requires
            n < self@.thread(chat@).len(),
        ensures
            r == self@.thread(chat@)[n as int].id,
    {
        let ghost all = message_views(self.messages@);
        let ghost mine = of_chat(chat@);
        let mut seen: usize = 0;
        let mut i: usize = 0;
        assert(all.take(0).filter(mine).len() == 0) by {
            reveal(Seq::filter);
        }
        while i < self.messages.len()
            invariant
                i <= self.messages.len(),
                all == message_views(self.messages@),
                mine == of_chat(chat@),
                seen == all.take(i as int).filter(mine).len(),
                seen <= n,
                seen <= i,
                n < all.filter(mine).len(),
            decreases self.messages.len() - i,
        {
            proof {
                all.lemma_take_succ_push(i as int);
                all.take(i as int).lemma_filter_push(all[i as int], mine);
            }
            if self.messages[i].chat_id == *chat {
                if seen == n {
                    proof {
                        let at = lemma_filter_source(all, mine, n as int);
                        if at < i {
                            assert(all.take(i as int).take(at + 1) == all.take(at + 1));
                            all.lemma_take_succ_push(at);
                            all.take(at).lemma_filter_push(all[at], mine);
                            all.take(i as int).lemma_filter_take_len(mine, at + 1);
                        } else if at > i {
                            assert(all.take(at).take(i + 1) == all.take(i + 1));
                            all.take(at).lemma_filter_take_len(mine, i + 1);
                        }
                    }
                    return self.messages[i].id;
                }
                seen = seen + 1;
            }
            i = i + 1;
        }
        proof {
            assert(all.take(i as int) =~= all);
        }
        0
    }

    /// Deletes every chat and every message. The settings stay, and message
    /// ids are not given out again.
    pub fn delete_all(&mut self)
        ensures
            final(self)@ == old(self)@.wiped(),
    {
        proof {
            use_type_invariant(&*self);
            lemma_wiped(old(self)@);
        }
        let Store { chats: _, messages: _, next_id, settings } = self.take();
        *self = Store { chats: Vec::new(), messages: Vec::new(), next_id, settings };
        assert(self@ =~= old(self)@.wiped());
    }
}

/// The chats other than `id`, in their order.
fn other_chats(chats: Vec<Chat>, id: &String) -> (r: Vec<Chat>)
    ensures
        chat_views(r@) == chat_views(chats@).filter(other_than(id@)),
{
    broadcast use vstd::std_specs::vec::axiom_spec_into_iter;

    let ghost all = chat_views(chats@);
    let ghost keep = other_than(id@);
    let mut kept: Vec<Chat> = Vec::new();
    assert(all.take(0).filter(keep) =~= Seq::<ChatView>::empty()) by {
        reveal(Seq::filter);
    }
    for c in it: chats
        invariant
            chat_views(it.seq()) == all,
            keep == other_than(id@),
            chat_views(kept@) == all.take(it.index()).filter(keep),
    {
        proof {
            all.lemma_take_succ_push(it.index());
            all.take(it.index()).lemma_filter_push(c@, keep);
        }
        if !(c.id == *id) {
            let ghost before = kept@;
            kept.push(c);
            assert(chat_views(kept@) =~= chat_views(before).push(c@));
        }
    }
    assert(all.take(all.len() as int) =~= all);
    kept
}

/// The messages but those of `chat` with an id of `cutoff` or less, in
/// their order.
fn drop_upto(messages: Vec<Message>, chat: &String, cutoff: u64) -> (r: Vec<Message>)
    ensures
        message_views(r@) == message_views(messages@).filter(outlives(chat@, cutoff)),
{
    broadcast use vstd::std_specs::vec::axiom_spec_into_iter;

    let ghost all = message_views(messages@);
    let ghost keep = outlives(chat@, cutoff);
    let mut kept: Vec<Message> = Vec::new();
    assert(all.take(0).filter(keep) =~= Seq::<MessageView>::empty()) by {
        reveal(Seq::filter);
    }
    for m in it: messages
        invariant
            message_views(it.seq()) == all,
            keep == outlives(chat@, cutoff),
            message_views(kept@) == all.take(it.index()).filter(keep),
    {
        proof {
            all.lemma_take_succ_push(it.index());
            all.take(it.index()).lemma_filter_push(m@, keep);
        }
        if !(m.chat_id == *chat) || m.id > cutoff {
            let ghost before = kept@;
            kept.push(m);
            assert(message_views(kept@) =~= message_views(before).push(m@));
        }
    }
    assert(all.take(all.len() as int) =~= all);
    kept
}

} // verus!
