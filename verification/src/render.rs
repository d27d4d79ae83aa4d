//! What is shown of a chat, as far as it is computed: the parts of a
//! message that carries a block of reasoning, the heading of the chat
//! window, and the label of the model.

use crate::history::{ChatView, StoreView};
use crate::store::Store;
use crate::text::{blank, chars_of, is_blank, trim, trimmed};
use vstd::prelude::*;

verus! {

/// The mark that opens a block of reasoning.
pub open spec fn open_mark() -> Seq<char> {
    "<think>"@
}

/// The mark that closes a block of reasoning.
pub open spec fn close_mark() -> Seq<char> {
    "</think>"@
}

/// Whether `mark` stands in `s` at the place `at`.
pub open spec fn stands_at(s: Seq<char>, mark: Seq<char>, at: int) -> bool {
    0 <= at && at + mark.len() <= s.len() && s.subrange(at, at + mark.len()) == mark
}

/// Whether `at` is the first place of `s` at which `mark` stands.
pub open spec fn first_at(s: Seq<char>, mark: Seq<char>, at: int) -> bool {
    stands_at(s, mark, at) && forall|k: int| 0 <= k < at ==> !stands_at(s, mark, k)
}

/// Whether `mark` stands nowhere in `s`.
pub open spec fn absent(s: Seq<char>, mark: Seq<char>) -> bool {
    forall|k: int| !stands_at(s, mark, k)
}

/// The parts in which a message is shown.
#[derive(Debug, PartialEq, Eq)]
pub enum Layout {
    /// The message as it is.
    Plain { text: String },
    /// A message with a block of reasoning: what stands before the block,
    /// the reasoning without the whitespace around it, and what stands
    /// after the block.
    Reasoned { before: String, thinking: String, after: String },
}

/// Mathematical value of a [`Layout`].
pub enum LayoutView {
    Plain { text: Seq<char> },
    Reasoned { before: Seq<char>, thinking: Seq<char>, after: Seq<char> },
}

impl View for Layout {
    type V = LayoutView;

    open spec fn view(&self) -> LayoutView {
        match self {
            Layout::Plain { text } => LayoutView::Plain { text: text@ },
            Layout::Reasoned { before, thinking, after } => LayoutView::Reasoned {
                before: before@,
                thinking: thinking@,
                after: after@,
            },
        }
    }
}

/// Whether `layout` is how `content` is shown. A message has a block of
/// reasoning where both marks stand in it and the first closing mark
/// begins at or after the end of the first opening mark; the block lies
/// between these two. Every other message is shown as it is.
pub open spec fn lays_out(content: Seq<char>, layout: LayoutView) -> bool {
    match layout {
        LayoutView::Reasoned { .. } => exists|from: int, to: int|
            #[trigger] block_at(content, from, to) && layout == cut_at(content, from, to),
        LayoutView::Plain { text } => {
            &&& text == content
            &&& forall|from: int, to: int| !#[trigger] block_at(content, from, to)
        },
    }
}

/// Whether the block of reasoning of `content` lies between the marks at
/// `from` and `to`: these are the first opening and the first closing
/// mark, and the closing one begins at or after the end of the opening one.
pub open spec fn block_at(content: Seq<char>, from: int, to: int) -> bool {
    &&& first_at(content, open_mark(), from)
    &&& first_at(content, close_mark(), to)
    &&& from + open_mark().len() <= to
}

/// The parts of a message whose block of reasoning lies between the marks
/// at `from` and `to`.
pub open spec fn cut_at(content: Seq<char>, from: int, to: int) -> LayoutView {
    LayoutView::Reasoned {
        before: content.subrange(0, from),
        thinking: trimmed(content.subrange(from + open_mark().len(), to)),
        after: content.subrange(to + close_mark().len(), content.len() as int),
    }
}

/// A mark stands first at one place at most.
pub proof fn lemma_first_at_once(s: Seq<char>, mark: Seq<char>, a: int, b: int)
    requires
        first_at(s, mark, a),
        first_at(s, mark, b),
    ensures
        a == b,
{
}

/// A message is shown in one way only.
pub proof fn lemma_one_layout(content: Seq<char>, a: LayoutView, b: LayoutView)
    requires
        lays_out(content, a),
        lays_out(content, b),
    ensures
        a == b,
{
    if a is Reasoned {
        let (from, to) = lemma_block_of(content, a);
        if b is Reasoned {
            let (from2, to2) = lemma_block_of(content, b);
            lemma_first_at_once(content, open_mark(), from, from2);
            lemma_first_at_once(content, close_mark(), to, to2);
        }
    } else if b is Reasoned {
        let (from, to) = lemma_block_of(content, b);
    }
}

/// Where the block of a message lies that is shown with one.
proof fn lemma_block_of(content: Seq<char>, layout: LayoutView) -> (bounds: (int, int))
    requires
        lays_out(content, layout),
        layout is Reasoned,
    ensures
        block_at(content, bounds.0, bounds.1),
        layout == cut_at(content, bounds.0, bounds.1),
{
    choose|from: int, to: int|
        #[trigger] block_at(content, from, to) && layout == cut_at(content, from, to)
}

/// Tells whether `mark` stands in `s` at the place `at`.
fn mark_at(s: &Vec<char>, mark: &Vec<char>, at: usize) -> (r: bool)
    requires
        at + mark.len() <= s.len(),
    ensures
        r == stands_at(s@, mark@, at as int),
{
    let mut k: usize = 0;
    while k < mark.len()
        invariant
            k <= mark.len(),
            at + mark.len() <= s.len(),
            forall|j: int| 0 <= j < k ==> s@[at + j] == mark@[j],
        decreases mark.len() - k,
    {
        if s[at + k] != mark[k] {
            assert(s@.subrange(at as int, at + mark.len())[k as int] != mark@[k as int]);
            return false;
        }
        k = k + 1;
    }
    assert(s@.subrange(at as int, at + mark.len()) =~= mark@);
    true
}

/// The first place of `s` at which `mark` stands, if it stands in it.
fn find_mark(s: &Vec<char>, mark: &Vec<char>) -> (r: Option<usize>)
    requires
        mark.len() > 0,
    ensures
        match r {
            Some(at) => first_at(s@, mark@, at as int),
            None => absent(s@, mark@),
        },
{
    if mark.len() > s.len() {
        return None;
    }
    let last = s.len() - mark.len();
    let mut at: usize = 0;
    while at <= last
        invariant
            mark.len() > 0,
            last == s.len() - mark.len(),
            at <= last + 1,
            forall|k: int| 0 <= k < at ==> !stands_at(s@, mark@, k),
        decreases last + 1 - at,
    {
        if mark_at(s, mark, at) {
            return Some(at);
        }
        at = at + 1;
    }
    None
}

/// Lays a message out for showing.
pub fn lay_out(content: &str) -> (r: Layout)
    ensures
        lays_out(content@, r@),
{
    let chars = chars_of(content);
    let open = chars_of("<think>");
    let close = chars_of("</think>");
    proof {
        reveal_strlit("<think>");
        reveal_strlit("</think>");
    }
    let opened = find_mark(&chars, &open);
    let closed = find_mark(&chars, &close);
    match (opened, closed) {
        (Some(from), Some(to)) => {
            assert(from + 7 <= chars.len() && to + 8 <= chars.len());
            if from + 7 <= to {
                let before = content.substring_char(0, from).to_owned();
                let thinking = trim(content.substring_char(from + 7, to));
                let after = content.substring_char(to + 8, chars.len()).to_owned();
                let r = Layout::Reasoned { before, thinking, after };
                assert(block_at(content@, from as int, to as int));
                assert(r@ == cut_at(content@, from as int, to as int));
                r
            } else {
                assert forall|f: int, t: int| !#[trigger] block_at(content@, f, t) by {
                    if block_at(content@, f, t) {
                        lemma_first_at_once(content@, open_mark(), f, from as int);
                        lemma_first_at_once(content@, close_mark(), t, to as int);
                    }
                }
                Layout::Plain { text: content.to_owned() }
            }
        },
        _ => {
            assert forall|f: int, t: int| !#[trigger] block_at(content@, f, t) by {
                if block_at(content@, f, t) {
                    assert(stands_at(content@, open_mark(), f));
                    assert(stands_at(content@, close_mark(), t));
                }
            }
            Layout::Plain { text: content.to_owned() }
        },
    }
}

/// The title of the chat `id` among `chats`, if it is there.
pub open spec fn title_in(chats: Seq<ChatView>, id: Seq<char>) -> Option<Seq<char>>
    decreases chats.len(),
{
    if chats.len() == 0 {
        None
    } else if chats.first().id == id {
        Some(chats.first().title)
    } else {
        title_in(chats.drop_first(), id)
    }
}

/// The heading of the chat window: the title of the chat that is open, its
/// id where no chat has it, and a notice where none is open.
pub open spec fn heading(store: StoreView, open_chat: Option<Seq<char>>) -> Seq<char> {
    match open_chat {
        Some(id) => match title_in(store.chats, id) {
            Some(title) => title,
            None => id,
        },
        None => "No Chat Selected"@,
    }
}

/// The label of the model: its name, or a notice where none is selected.
pub open spec fn model_label_text(model: Seq<char>) -> Seq<char> {
    if blank(model) {
        "No model selected"@
    } else {
        model
    }
}

/// The heading of the chat window.
pub fn header_title(store: &Store, open_chat: Option<&str>) -> (r: String)
    ensures
        r@ == heading(
            store@,
            match open_chat {
                Some(id) => Some(id@),
                None => None,
            },
        ),
{
    match open_chat {
        None => "No Chat Selected".to_owned(),
        Some(id) => {
            let key = id.to_owned();
            let chats = store.list_chats();
            let ghost all = store@.chats;
            let mut i: usize = 0;
            assert(all.skip(0) == all);
            while i < chats.len()
                invariant
                    i <= chats.len(),
                    key@ == id@,
                    open_chat == Some(id),
                    all == store@.chats,
                    all == crate::store::chat_views(chats@),
                    title_in(all, id@) == title_in(all.skip(i as int), id@),
                decreases chats.len() - i,
            {
                proof {
                    assert(all.skip(i as int).drop_first() == all.skip(i + 1));
                    assert(all.skip(i as int).first() == chats@[i as int]@);
                }
                if chats[i].id == key {
                    proof {
                        let rest = all.skip(i as int);
                        assert(rest.len() > 0 && rest.first().id == id@);
                        assert(title_in(rest, id@) == Some(rest.first().title));
                    }
                    return chats[i].title.clone();
                }
                i = i + 1;
            }
            key
        },
    }
}

/// The label of the model.
pub fn model_label(model: &str) -> (r: String)
    ensures
        r@ == model_label_text(model@),
{
    if is_blank(model) {
        "No model selected".to_owned()
    } else {
        model.to_owned()
    }
}

} // verus!
