//! The mathematical model of the conversation store: chats, messages in
//! the order of their ids, the stored settings record, and what each store
//! operation makes of them. The laws of bounded history are proved here.

use crate::settings::StoredSettingsView;
use crate::text::prefix;
use vstd::prelude::*;

verus! {

/// Most characters that a chat title keeps.
pub const MAX_TITLE_CHARS: usize = 255;

/// Most characters that a message keeps.
pub const MAX_MESSAGE_CHARS: usize = 1_000_000;

/// Most messages that a chat keeps, unless another limit is chosen.
pub const MAX_HISTORY_MESSAGES: usize = 10_000;

/// Who wrote a message.
#[derive(Clone, Copy, Debug, PartialEq, Eq, Structural)]
pub enum Role {
    System,
    User,
    Assistant,
}

impl Role {
    /// The word by which the role goes in storage and in requests.
    pub open spec fn name(self) -> Seq<char> {
        match self {
            Role::System => "system"@,
            Role::User => "user"@,
            Role::Assistant => "assistant"@,
        }
    }

    /// The role that goes by this word, if it is the word of one.
    pub open spec fn named(word: Seq<char>) -> Option<Role> {
        if word == "system"@ {
            Some(Role::System)
        } else if word == "user"@ {
            Some(Role::User)
        } else if word == "assistant"@ {
            Some(Role::Assistant)
        } else {
            None
        }
    }

    /// The word by which the role goes.
    pub fn as_str(&self) -> (r: &'static str)
        ensures
            r@ == self.name(),
    {
        match self {
            Role::System => "system",
            Role::User => "user",
            Role::Assistant => "assistant",
        }
    }

    /// The role that goes by this word.
    pub fn parse(word: &str) -> (r: Option<Role>)
        ensures
            r == Role::named(word@),
    {
        let given = word.to_owned();
        if given == "system".to_owned() {
            Some(Role::System)
        } else if given == "user".to_owned() {
            Some(Role::User)
        } else if given == "assistant".to_owned() {
            Some(Role::Assistant)
        } else {
            None
        }
    }

    /// Every role is found again by its word.
    pub proof fn lemma_named_by_name(self)
        ensures
            Role::named(self.name()) == Some(self),
    {
        reveal_strlit("system");
        reveal_strlit("user");
        reveal_strlit("assistant");
        assert("system"@.len() == 6 && "user"@.len() == 4 && "assistant"@.len() == 9);
    }
}

/// Mathematical value of a chat.
pub struct ChatView {
    pub id: Seq<char>,
    pub title: Seq<char>,
}

/// Mathematical value of a message.
pub struct MessageView {
    pub id: u64,
    pub chat_id: Seq<char>,
    pub role: Role,
    pub content: Seq<char>,
    pub timestamp: u64,
}

/// Mathematical value of the store.
#[verifier::ext_equal]
pub struct StoreView {
    /// The chats, in the order in which they were created.
    pub chats: Seq<ChatView>,
    /// The messages of all chats, in the order of their ids.
    pub messages: Seq<MessageView>,
    /// The id that the next message gets.
    pub next_id: u64,
    /// The one settings record.
    pub settings: StoredSettingsView,
}

/// Selects the messages of one chat.
pub open spec fn of_chat(chat: Seq<char>) -> spec_fn(MessageView) -> bool {
    |m: MessageView| m.chat_id == chat
}

/// Selects the messages of all chats but one.
pub open spec fn not_of_chat(chat: Seq<char>) -> spec_fn(MessageView) -> bool {
    |m: MessageView| m.chat_id != chat
}

/// Selects every message but those of `chat` whose id is `cutoff` or less.
pub open spec fn outlives(chat: Seq<char>, cutoff: u64) -> spec_fn(MessageView) -> bool {
    |m: MessageView| m.chat_id != chat || m.id > cutoff
}

/// Selects the chats other than `id`.
pub open spec fn other_than(id: Seq<char>) -> spec_fn(ChatView) -> bool {
    |c: ChatView| c.id != id
}

/// Gives the chat `id` the title `title` and leaves other chats as they are.
pub open spec fn retitle(id: Seq<char>, title: Seq<char>) -> spec_fn(ChatView) -> ChatView {
    |c: ChatView|
        if c.id == id {
            ChatView { id: c.id, title: title }
        } else {
            c
        }
}

/// The last `n` items of `s` in their order, or all of `s` when it has no
/// more than `n`.
pub open spec fn newest<A>(s: Seq<A>, n: nat) -> Seq<A> {
    if s.len() <= n {
        s
    } else {
        s.subrange(s.len() - n, s.len() as int)
    }
}

/// Whether ids strictly increase along `s`.
pub open spec fn ascending(s: Seq<MessageView>) -> bool {
    forall|i: int, j: int| 0 <= i < j < s.len() ==> s[i].id < s[j].id
}

/// Whether some chat of `chats` has the id `id`.
pub open spec fn lists_chat(chats: Seq<ChatView>, id: Seq<char>) -> bool {
    exists|i: int| 0 <= i < chats.len() && (#[trigger] chats[i]).id == id
}

impl StoreView {
    /// Whether a chat with this id exists.
    pub open spec fn has_chat(self, id: Seq<char>) -> bool {
        lists_chat(self.chats, id)
    }

    /// The messages of one chat, oldest first.
    pub open spec fn thread(self, chat: Seq<char>) -> Seq<MessageView> {
        self.messages.filter(of_chat(chat))
    }

    /// What always holds of a store: chat ids are unique and titles within
    /// their limit; message ids strictly increase and lie below the next id;
    /// every message belongs to a chat that exists and is within the length
    /// limit.
    pub open spec fn valid(self) -> bool {
        &&& forall|i: int, j: int|
            0 <= i < j < self.chats.len() ==> self.chats[i].id != self.chats[j].id
        &&& forall|i: int|
            0 <= i < self.chats.len() ==> (#[trigger] self.chats[i]).title.len() <= MAX_TITLE_CHARS
        &&& ascending(self.messages)
        &&& forall|i: int|
            0 <= i < self.messages.len() ==> (#[trigger] self.messages[i]).id < self.next_id
        &&& forall|i: int|
            0 <= i < self.messages.len() ==> self.has_chat((#[trigger] self.messages[i]).chat_id)
        &&& forall|i: int|
            0 <= i < self.messages.len() ==> (#[trigger] self.messages[i]).content.len()
                <= MAX_MESSAGE_CHARS
    }

    /// A store without chats and messages that holds `settings`.
    pub open spec fn fresh(settings: StoredSettingsView) -> StoreView {
        StoreView { chats: Seq::empty(), messages: Seq::empty(), next_id: 1, settings }
    }

    /// The store after a chat was created: it comes last, its title cut to
    /// the limit. The id must be new.
    pub open spec fn with_chat(self, id: Seq<char>, title: Seq<char>) -> StoreView {
        StoreView {
            chats: self.chats.push(
                ChatView { id, title: prefix(title, MAX_TITLE_CHARS as nat) },
            ),
            ..self
        }
    }

    /// The store after a chat was renamed: the title cut to the limit. A
    /// store without that chat stays as it is.
    pub open spec fn renamed(self, id: Seq<char>, title: Seq<char>) -> StoreView {
        StoreView {
            chats: self.chats.map_values(retitle(id, prefix(title, MAX_TITLE_CHARS as nat))),
            ..self
        }
    }

    /// The store after a chat was deleted, with all its messages.
    pub open spec fn without_chat(self, id: Seq<char>) -> StoreView {
        StoreView {
            chats: self.chats.filter(other_than(id)),
            messages: self.messages.filter(not_of_chat(id)),
            ..self
        }
    }

    /// The message that is appended next for these values.
    pub open spec fn next_message(
        self,
        chat: Seq<char>,
        role: Role,
        content: Seq<char>,
        timestamp: u64,
    ) -> MessageView {
        MessageView {
            id: self.next_id,
            chat_id: chat,
            role,
            content: prefix(content, MAX_MESSAGE_CHARS as nat),
            timestamp,
        }
    }

    /// The store after a message was appended: it takes the next id and
    /// comes last, its content cut to the limit.
    pub open spec fn with_message(
        self,
        chat: Seq<char>,
        role: Role,
        content: Seq<char>,
        timestamp: u64,
    ) -> StoreView {
        StoreView {
            messages: self.messages.push(self.next_message(chat, role, content, timestamp)),
            next_id: (self.next_id + 1) as u64,
            ..self
        }
    }

    /// The id of the newest surplus message of a chat: the one that has
    /// exactly `cap` messages of the chat after it. None where the chat
    /// holds no more than `cap` messages.
    pub open spec fn cutoff(self, chat: Seq<char>, cap: nat) -> Option<u64> {
        let thread = self.thread(chat);
        if thread.len() <= cap {
            None
        } else {
            Some(thread[thread.len() - cap - 1].id)
        }
    }

    /// The store after the history limit was enforced on one chat: where the
    /// chat holds more than `cap` messages, every one of its messages up to
    /// the newest surplus one is gone.
    pub open spec fn capped(self, chat: Seq<char>, cap: nat) -> StoreView {
        match self.cutoff(chat, cap) {
            None => self,
            Some(cutoff) => StoreView {
                messages: self.messages.filter(outlives(chat, cutoff)),
                ..self
            },
        }
    }

    /// Whether every chat holds at most `cap` messages.
    pub open spec fn within(self, cap: nat) -> bool {
        forall|chat: Seq<char>| (#[trigger] self.thread(chat)).len() <= cap
    }

    /// The store after the history limit was enforced on the first `n` of
    /// its chats.
    pub open spec fn capped_upto(self, n: nat, cap: nat) -> StoreView
        decreases n,
    {
        if n == 0 {
            self
        } else {
            self.capped_upto((n - 1) as nat, cap).capped(self.chats[n - 1].id, cap)
        }
    }

    /// The store after the history limit was enforced on every chat.
    pub open spec fn capped_all(self, cap: nat) -> StoreView {
        self.capped_upto(self.chats.len(), cap)
    }

    /// What enforcing the history limit on every chat deletes: for each
    /// chat that holds more than `cap` messages, in the order of the chats,
    /// the chat and the id up to which its messages go.
    pub open spec fn surplus(self, cap: nat) -> Seq<(Seq<char>, u64)> {
        self.chats.filter_map(self.surplus_of(cap))
    }

    /// What enforcing the history limit deletes of one chat.
    pub open spec fn surplus_of(self, cap: nat) -> spec_fn(ChatView) -> Option<(Seq<char>, u64)> {
        |c: ChatView|
            match self.cutoff(c.id, cap) {
                Some(cutoff) => Some((c.id, cutoff)),
                None => None,
            }
    }

    /// The store after a message was appended and the history limit
    /// enforced on its chat.
    pub open spec fn recorded(
        self,
        chat: Seq<char>,
        role: Role,
        content: Seq<char>,
        timestamp: u64,
        cap: nat,
    ) -> StoreView {
        self.with_message(chat, role, content, timestamp).capped(chat, cap)
    }

    /// The store after all history was deleted. Ids are not given out again.
    pub open spec fn wiped(self) -> StoreView {
        StoreView { chats: Seq::empty(), messages: Seq::empty(), ..self }
    }

    /// The store with another settings record.
    pub open spec fn with_settings(self, settings: StoredSettingsView) -> StoreView {
        StoreView { settings, ..self }
    }
}

/// Filtering by a condition that agrees with another on every item of the
/// sequence selects the same items.
pub proof fn lemma_filter_agree<A>(s: Seq<A>, p: spec_fn(A) -> bool, q: spec_fn(A) -> bool)
    requires
        forall|i: int| 0 <= i < s.len() ==> p(#[trigger] s[i]) == q(s[i]),
    ensures
        s.filter(p) == s.filter(q),
    decreases s.len(),
{
    reveal(Seq::filter);
    if s.len() > 0 {
        lemma_filter_agree(s.drop_last(), p, q);
    }
}

/// Filtering twice selects the items that meet both conditions.
pub proof fn lemma_filter_twice<A>(s: Seq<A>, p: spec_fn(A) -> bool, q: spec_fn(A) -> bool)
    ensures
        s.filter(p).filter(q) == s.filter(|x: A| p(x) && q(x)),
    decreases s.len(),
{
    reveal(Seq::filter);
    let both = |x: A| p(x) && q(x);
    if s.len() > 0 {
        lemma_filter_twice(s.drop_last(), p, q);
        if p(s.last()) {
            s.drop_last().filter(p).lemma_filter_push(s.last(), q);
        }
    }
}

/// Where a condition fails on the first `k` items and holds on the rest,
/// filtering by it leaves the rest.
pub proof fn lemma_filter_tail<A>(s: Seq<A>, p: spec_fn(A) -> bool, k: int)
    requires
        0 <= k <= s.len(),
        forall|i: int| 0 <= i < k ==> !p(#[trigger] s[i]),
        forall|i: int| k <= i < s.len() ==> p(#[trigger] s[i]),
    ensures
        s.filter(p) == s.subrange(k, s.len() as int),
    decreases s.len(),
{
    reveal(Seq::filter);
    if s.len() > 0 {
        let front = s.drop_last();
        if k == s.len() {
            lemma_filter_tail(front, p, k - 1);
        } else {
            lemma_filter_tail(front, p, k);
            assert(front.subrange(k, front.len() as int).push(s.last()) == s.subrange(
                k,
                s.len() as int,
            ));
        }
    }
}

/// Every item that a filter selects is an item of the sequence, at a
/// position that grows with the position in the selection.
pub proof fn lemma_filter_source<A>(s: Seq<A>, p: spec_fn(A) -> bool, i: int) -> (at: int)
    requires
        0 <= i < s.filter(p).len(),
    ensures
        0 <= at < s.len(),
        i <= at,
        s[at] == s.filter(p)[i],
        p(s[at]),
        s.take(at).filter(p).len() == i,
    decreases s.len(),
{
    reveal(Seq::filter);
    let front = s.drop_last();
    if p(s.last()) && i == front.filter(p).len() {
        assert(s.take(s.len() - 1) == front);
        s.len() - 1
    } else {
        let at = lemma_filter_source(front, p, i);
        assert(s.take(at) == front.take(at));
        at
    }
}

/// A selection of messages in ascending order is in ascending order.
pub proof fn lemma_filter_ascending(s: Seq<MessageView>, p: spec_fn(MessageView) -> bool)
    requires
        ascending(s),
    ensures
        ascending(s.filter(p)),
{
    let f = s.filter(p);
    assert forall|i: int, j: int| 0 <= i < j < f.len() implies f[i].id < f[j].id by {
        let a = lemma_filter_source(s, p, i);
        let b = lemma_filter_source(s, p, j);
        if a >= b {
            // the selection before `b` is part of the selection before `a`
            assert(s.take(a).take(b) == s.take(b));
            s.take(a).lemma_filter_take_len(p, b);
        }
    }
}

/// Within a chat ids strictly increase: the order of a thread is the order
/// in which its messages were written.
pub proof fn lemma_thread_ascending(s: StoreView, chat: Seq<char>)
    requires
        s.valid(),
    ensures
        ascending(s.thread(chat)),
        forall|i: int|
            0 <= i < s.thread(chat).len() ==> (#[trigger] s.thread(chat)[i]).chat_id == chat,
        !s.has_chat(chat) ==> s.thread(chat).len() == 0,
{
    let thread = s.thread(chat);
    lemma_filter_ascending(s.messages, of_chat(chat));
    assert forall|i: int| 0 <= i < thread.len() implies (#[trigger] thread[i]).chat_id == chat by {
        let at = lemma_filter_source(s.messages, of_chat(chat), i);
    }
    if !s.has_chat(chat) && s.thread(chat).len() > 0 {
        let at = lemma_filter_source(s.messages, of_chat(chat), 0);
        assert(s.has_chat(s.messages[at].chat_id));
    }
}

/// A store stays valid when some of its messages are taken out.
pub proof fn lemma_fewer_messages_valid(s: StoreView, p: spec_fn(MessageView) -> bool)
    requires
        s.valid(),
    ensures
        (StoreView { messages: s.messages.filter(p), ..s }).valid(),
{
    let kept = s.messages.filter(p);
    lemma_filter_ascending(s.messages, p);
    assert forall|i: int| 0 <= i < kept.len() implies {
        &&& (#[trigger] kept[i]).id < s.next_id
        &&& lists_chat(s.chats, kept[i].chat_id)
        &&& kept[i].content.len() <= MAX_MESSAGE_CHARS
    } by {
        let at = lemma_filter_source(s.messages, p, i);
        assert(s.has_chat(s.messages[at].chat_id));
    }
}

/// Creating a chat under a new id keeps the store valid.
pub proof fn lemma_with_chat_valid(s: StoreView, id: Seq<char>, title: Seq<char>)
    requires
        s.valid(),
        !s.has_chat(id),
    ensures
        s.with_chat(id, title).valid(),
        s.with_chat(id, title).has_chat(id),
{
    let after = s.with_chat(id, title);
    assert(after.chats[s.chats.len() as int].id == id);
    assert forall|i: int| 0 <= i < after.messages.len() implies after.has_chat(
        (#[trigger] after.messages[i]).chat_id,
    ) by {
        assert(s.has_chat(s.messages[i].chat_id));
        let wanted = s.messages[i].chat_id;
        let k = choose|k: int| 0 <= k < s.chats.len() && (#[trigger] s.chats[k]).id == wanted;
        assert(after.chats[k].id == wanted);
    }
}

/// Renaming keeps the store valid, keeps every chat's id and place, and
/// changes no title but that of the chat named.
pub proof fn lemma_renamed_valid(s: StoreView, id: Seq<char>, title: Seq<char>)
    requires
        s.valid(),
    ensures
        s.renamed(id, title).valid(),
        s.renamed(id, title).chats.len() == s.chats.len(),
        forall|c: Seq<char>| s.renamed(id, title).has_chat(c) == s.has_chat(c),
        !s.has_chat(id) ==> s.renamed(id, title) == s,
{
    let after = s.renamed(id, title);
    assert forall|c: Seq<char>| after.has_chat(c) == s.has_chat(c) by {
        if s.has_chat(c) {
            let k = choose|k: int| 0 <= k < s.chats.len() && (#[trigger] s.chats[k]).id == c;
            assert(after.chats[k].id == c);
        }
        if after.has_chat(c) {
            let k = choose|k: int|
                0 <= k < after.chats.len() && (#[trigger] after.chats[k]).id == c;
            assert(s.chats[k].id == c);
        }
    }
    assert forall|i: int| 0 <= i < after.messages.len() implies after.has_chat(
        (#[trigger] after.messages[i]).chat_id,
    ) by {
        assert(s.has_chat(s.messages[i].chat_id));
    }
    if !s.has_chat(id) {
        assert forall|i: int| 0 <= i < s.chats.len() implies after.chats[i] == s.chats[i] by {
            assert(s.chats[i].id != id);
        }
        assert(after.chats =~= s.chats);
    }
}

/// Deleting a chat keeps the store valid; the chat and its messages are
/// gone, every other chat and its messages stay.
pub proof fn lemma_without_chat_valid(s: StoreView, id: Seq<char>)
    requires
        s.valid(),
    ensures
        s.without_chat(id).valid(),
        !s.without_chat(id).has_chat(id),
        s.without_chat(id).thread(id).len() == 0,
        forall|c: Seq<char>| c != id ==> s.without_chat(id).has_chat(c) == s.has_chat(c),
        forall|c: Seq<char>| c != id ==> #[trigger] s.without_chat(id).thread(c) == s.thread(c),
{
    let after = s.without_chat(id);
    let kept = s.chats.filter(other_than(id));
    lemma_fewer_messages_valid(s, not_of_chat(id));
    assert forall|i: int, j: int| 0 <= i < j < kept.len() implies kept[i].id != kept[j].id by {
        let a = lemma_filter_source(s.chats, other_than(id), i);
        let b = lemma_filter_source(s.chats, other_than(id), j);
        if a >= b {
            assert(s.chats.take(a).take(b) == s.chats.take(b));
            s.chats.take(a).lemma_filter_take_len(other_than(id), b);
        }
    }
    assert forall|i: int| 0 <= i < kept.len() implies {
        &&& (#[trigger] kept[i]).title.len() <= MAX_TITLE_CHARS
        &&& kept[i].id != id
    } by {
        let a = lemma_filter_source(s.chats, other_than(id), i);
    }
    assert forall|c: Seq<char>| c != id implies after.has_chat(c) == s.has_chat(c) by {
        if s.has_chat(c) {
            let k = choose|k: int| 0 <= k < s.chats.len() && (#[trigger] s.chats[k]).id == c;
            s.chats.lemma_filter_contains(other_than(id), k);
            let at = kept.lemma_contains_to_index(s.chats[k]);
            assert(kept[at].id == c);
        }
        if after.has_chat(c) {
            let k = choose|k: int| 0 <= k < kept.len() && (#[trigger] kept[k]).id == c;
            let a = lemma_filter_source(s.chats, other_than(id), k);
            assert(s.chats[a].id == c);
        }
    }
    assert forall|i: int| 0 <= i < after.messages.len() implies after.has_chat(
        (#[trigger] after.messages[i]).chat_id,
    ) by {
        let a = lemma_filter_source(s.messages, not_of_chat(id), i);
        assert(s.has_chat(s.messages[a].chat_id));
    }
    if after.has_chat(id) {
        let k = choose|k: int| 0 <= k < kept.len() && (#[trigger] kept[k]).id == id;
        assert(false);
    }
    lemma_filter_twice(s.messages, not_of_chat(id), of_chat(id));
    let never = |m: MessageView| not_of_chat(id)(m) && of_chat(id)(m);
    lemma_filter_tail(s.messages, never, s.messages.len() as int);
    assert forall|c: Seq<char>| c != id implies #[trigger] after.thread(c) == s.thread(c) by {
        lemma_filter_twice(s.messages, not_of_chat(id), of_chat(c));
        lemma_filter_agree(
            s.messages,
            |m: MessageView| not_of_chat(id)(m) && of_chat(c)(m),
            of_chat(c),
        );
    }
}

/// Appending to an existing chat, while ids are left, keeps the store valid
/// and puts the message at the end of its chat's thread; other threads stay.
pub proof fn lemma_with_message_valid(
    s: StoreView,
    chat: Seq<char>,
    role: Role,
    content: Seq<char>,
    timestamp: u64,
)
    requires
        s.valid(),
        s.has_chat(chat),
        s.next_id < u64::MAX,
    ensures
        s.with_message(chat, role, content, timestamp).valid(),
        s.with_message(chat, role, content, timestamp).thread(chat) == s.thread(chat).push(
            s.next_message(chat, role, content, timestamp),
        ),
        forall|c: Seq<char>|
            c != chat ==> #[trigger] s.with_message(chat, role, content, timestamp).thread(c)
                == s.thread(c),
{
    let m = s.next_message(chat, role, content, timestamp);
    let after = s.with_message(chat, role, content, timestamp);
    s.messages.lemma_filter_push(m, of_chat(chat));
    assert forall|c: Seq<char>| c != chat implies #[trigger] after.thread(c) == s.thread(c) by {
        s.messages.lemma_filter_push(m, of_chat(c));
    }
    assert forall|i: int| 0 <= i < after.messages.len() implies after.has_chat(
        (#[trigger] after.messages[i]).chat_id,
    ) by {
        if i < s.messages.len() {
            assert(s.has_chat(s.messages[i].chat_id));
        }
    }
}

/// Bounded history: after the limit is enforced on a chat, the chat holds
/// at most `cap` messages, and they are its `cap` newest by id in the
/// order they had; the threads of other chats are untouched, and the store
/// is valid.
pub proof fn lemma_capped_keeps_newest(s: StoreView, chat: Seq<char>, cap: nat)
    requires
        s.valid(),
    ensures
        s.capped(chat, cap).valid(),
        s.capped(chat, cap).thread(chat) == newest(s.thread(chat), cap),
        s.capped(chat, cap).thread(chat).len() <= cap,
        s.capped(chat, cap).chats == s.chats,
        forall|c: Seq<char>| c != chat ==> #[trigger] s.capped(chat, cap).thread(c) == s.thread(c),
{
    let thread = s.thread(chat);
    if thread.len() > cap {
        let surplus = thread.len() - cap;
        let cutoff = thread[surplus - 1].id;
        let keep = outlives(chat, cutoff);
        let after = s.capped(chat, cap);
        lemma_fewer_messages_valid(s, keep);
        // the chat's own thread: what is newer than the cutoff
        let newer = |m: MessageView| m.id > cutoff;
        lemma_filter_twice(s.messages, keep, of_chat(chat));
        lemma_filter_twice(s.messages, of_chat(chat), newer);
        lemma_filter_agree(
            s.messages,
            |m: MessageView| keep(m) && of_chat(chat)(m),
            |m: MessageView| of_chat(chat)(m) && newer(m),
        );
        lemma_filter_ascending(s.messages, of_chat(chat));
        lemma_filter_tail(thread, newer, surplus);
        // the other threads
        assert forall|c: Seq<char>| c != chat implies #[trigger] after.thread(c) == s.thread(c) by {
            lemma_filter_twice(s.messages, keep, of_chat(c));
            lemma_filter_agree(s.messages, |m: MessageView| keep(m) && of_chat(c)(m), of_chat(c));
        }
    }
}

/// Enforcing the history limit on the first `n` chats leaves each of them
/// with its newest messages up to the limit, and all else as it was.
pub proof fn lemma_capped_upto(s: StoreView, n: nat, cap: nat)
    requires
        s.valid(),
        n <= s.chats.len(),
    ensures
        s.capped_upto(n, cap).valid(),
        s.capped_upto(n, cap).chats == s.chats,
        s.capped_upto(n, cap).next_id == s.next_id,
        s.capped_upto(n, cap).settings == s.settings,
        forall|i: int|
            0 <= i < n ==> #[trigger] s.capped_upto(n, cap).thread(s.chats[i].id) == newest(
                s.thread(s.chats[i].id),
                cap,
            ),
        forall|chat: Seq<char>|
            !lists_chat(s.chats.take(n as int), chat) ==> #[trigger] s.capped_upto(n, cap).thread(
                chat,
            ) == s.thread(chat),
    decreases n,
{
    if n > 0 {
        let m = (n - 1) as nat;
        let before = s.capped_upto(m, cap);
        let id = s.chats[n - 1].id;
        let after = s.capped_upto(n, cap);
        lemma_capped_upto(s, m, cap);
        lemma_capped_keeps_newest(before, id, cap);
        // the chat was not reached before
        assert(!lists_chat(s.chats.take(m as int), id)) by {
            if lists_chat(s.chats.take(m as int), id) {
                let k = choose|k: int|
                    0 <= k < s.chats.take(m as int).len() && (#[trigger] s.chats.take(
                        m as int,
                    )[k]).id == id;
                assert(s.chats[k].id != s.chats[n - 1].id);
            }
        }
        assert forall|i: int| 0 <= i < n implies #[trigger] after.thread(s.chats[i].id) == newest(
            s.thread(s.chats[i].id),
            cap,
        ) by {
            if i < m {
                assert(s.chats[i].id != id);
                assert(after.thread(s.chats[i].id) == before.thread(s.chats[i].id));
            }
        }
        assert forall|chat: Seq<char>|
            !lists_chat(s.chats.take(n as int), chat) implies #[trigger] after.thread(chat)
            == s.thread(chat) by {
            assert(s.chats.take(n as int)[n - 1].id == id);
            if lists_chat(s.chats.take(m as int), chat) {
                let k = choose|k: int|
                    0 <= k < s.chats.take(m as int).len() && (#[trigger] s.chats.take(
                        m as int,
                    )[k]).id == chat;
                assert(s.chats.take(n as int)[k].id == chat);
            }
            assert(after.thread(chat) == before.thread(chat));
        }
    }
}

/// Enforcing the history limit on every chat leaves every chat within it,
/// holding its newest messages up to the limit in their order.
pub proof fn lemma_capped_all(s: StoreView, cap: nat)
    requires
        s.valid(),
    ensures
        s.capped_all(cap).valid(),
        s.capped_all(cap).within(cap),
        s.capped_all(cap).chats == s.chats,
        forall|chat: Seq<char>| #[trigger]
            s.capped_all(cap).thread(chat) == newest(s.thread(chat), cap),
        s.within(cap) ==> s.capped_all(cap) == s,
{
    let n = s.chats.len();
    let after = s.capped_all(cap);
    lemma_capped_upto(s, n, cap);
    assert(s.chats.take(n as int) == s.chats);
    assert forall|chat: Seq<char>| #[trigger] after.thread(chat) == newest(s.thread(chat), cap) by {
        if s.has_chat(chat) {
            let k = choose|k: int| 0 <= k < s.chats.len() && (#[trigger] s.chats[k]).id == chat;
            assert(after.thread(s.chats[k].id) == newest(s.thread(s.chats[k].id), cap));
        } else {
            lemma_thread_ascending(s, chat);
        }
    }
    assert forall|chat: Seq<char>| (#[trigger] after.thread(chat)).len() <= cap by {
        assert(after.thread(chat) == newest(s.thread(chat), cap));
    }
    if s.within(cap) {
        lemma_within_unchanged(s, n, cap);
    }
}

/// Where every chat is within the history limit, enforcing it changes
/// nothing.
proof fn lemma_within_unchanged(s: StoreView, n: nat, cap: nat)
    requires
        s.within(cap),
        n <= s.chats.len(),
    ensures
        s.capped_upto(n, cap) == s,
    decreases n,
{
    if n > 0 {
        lemma_within_unchanged(s, (n - 1) as nat, cap);
        assert(s.thread(s.chats[n - 1].id).len() <= cap);
    }
}

/// Deleting all history leaves no chat and no message, and the settings as
/// they were.
pub proof fn lemma_wiped(s: StoreView)
    requires
        s.valid(),
    ensures
        s.wiped().valid(),
        s.wiped().chats.len() == 0,
        s.wiped().settings == s.settings,
        forall|c: Seq<char>| !s.wiped().has_chat(c) && (#[trigger] s.wiped().thread(c)).len() == 0,
{
    reveal(Seq::filter);
}

} // verus!
