//! Text helpers shared by the other modules: length limits counted in
//! characters, whitespace, and trimming.

use vstd::prelude::*;

verus! {

/// The first `max` characters of `s`, or all of `s` when it has no more.
pub open spec fn prefix(s: Seq<char>, max: nat) -> Seq<char> {
    if s.len() <= max {
        s
    } else {
        s.subrange(0, max as int)
    }
}

/// Whether `c` has the Unicode property White_Space.
pub open spec fn white_space(c: char) -> bool {
    let u = c as u32;
    ||| 0x09 <= u <= 0x0D
    ||| u == 0x20
    ||| u == 0x85
    ||| u == 0xA0
    ||| u == 0x1680
    ||| 0x2000 <= u <= 0x200A
    ||| u == 0x2028
    ||| u == 0x2029
    ||| u == 0x202F
    ||| u == 0x205F
    ||| u == 0x3000
}

/// Whether every character of `s` is whitespace; true of the empty text.
pub open spec fn blank(s: Seq<char>) -> bool {
    forall|i: int| 0 <= i < s.len() ==> white_space(#[trigger] s[i])
}

/// `s` without its leading whitespace.
pub open spec fn trimmed_start(s: Seq<char>) -> Seq<char>
    decreases s.len(),
{
    if s.len() > 0 && white_space(s.first()) {
        trimmed_start(s.drop_first())
    } else {
        s
    }
}

/// `s` without its trailing whitespace.
pub open spec fn trimmed_end(s: Seq<char>) -> Seq<char>
    decreases s.len(),
{
    if s.len() > 0 && white_space(s.last()) {
        trimmed_end(s.drop_last())
    } else {
        s
    }
}

/// `s` without its leading and trailing whitespace.
pub open spec fn trimmed(s: Seq<char>) -> Seq<char> {
    trimmed_end(trimmed_start(s))
}

/// Trimming cuts a stretch out of the text: whitespace before it, whitespace
/// after it, and no whitespace at either end of what is left.
pub proof fn lemma_trimmed_is_stretch(s: Seq<char>) -> (bounds: (int, int))
    ensures
        0 <= bounds.0 <= bounds.1 <= s.len(),
        trimmed(s) == s.subrange(bounds.0, bounds.1),
        blank(s.subrange(0, bounds.0)),
        blank(s.subrange(bounds.1, s.len() as int)),
        bounds.0 < bounds.1 ==> !white_space(s[bounds.0]) && !white_space(s[bounds.1 - 1]),
        bounds.0 == bounds.1 ==> blank(s),
{
    assert(s.subrange(0, s.len() as int) == s);
    let start = lemma_trimmed_start_from(s, 0);
    let tail = s.subrange(start, s.len() as int);
    assert(tail.subrange(0, tail.len() as int) == tail);
    let end = lemma_trimmed_end_upto(tail, tail.len() as int);
    assert(tail.subrange(0, end) == s.subrange(start, start + end));
    assert forall|i: int| 0 <= i < s.len() - (start + end) implies white_space(
        #[trigger] s.subrange(start + end, s.len() as int)[i],
    ) by {
        assert(tail.subrange(end, tail.len() as int)[i] == s[start + end + i]);
    }
    if end == 0 {
        assert forall|i: int| 0 <= i < s.len() implies white_space(#[trigger] s[i]) by {
            if i < start {
                assert(s.subrange(0, start)[i] == s[i]);
            } else {
                assert(tail.subrange(0, tail.len() as int)[i - start] == s[i]);
            }
        }
    } else {
        assert(tail[0] == s[start]);
        assert(tail[end - 1] == s[start + end - 1]);
    }
    (start, start + end)
}

/// Trimming a trimmed text changes nothing.
pub proof fn lemma_trimmed_twice(s: Seq<char>)
    ensures
        trimmed(trimmed(s)) == trimmed(s),
{
    let (a, b) = lemma_trimmed_is_stretch(s);
    let t = trimmed(s);
    if a < b {
        assert(t.first() == s[a]);
        assert(t.last() == s[b - 1]);
    }
}

/// Leading whitespace of `s` from position `from` on: where it ends.
proof fn lemma_trimmed_start_from(s: Seq<char>, from: int) -> (start: int)
    requires
        0 <= from <= s.len(),
    ensures
        from <= start <= s.len(),
        trimmed_start(s.subrange(from, s.len() as int)) == s.subrange(start, s.len() as int),
        forall|i: int| from <= i < start ==> white_space(#[trigger] s[i]),
        start < s.len() ==> !white_space(s[start]),
    decreases s.len() - from,
{
    let rest = s.subrange(from, s.len() as int);
    if rest.len() > 0 && white_space(rest.first()) {
        assert(rest.drop_first() == s.subrange(from + 1, s.len() as int));
        lemma_trimmed_start_from(s, from + 1)
    } else {
        from
    }
}

/// Trailing whitespace of `s` before position `upto`: where it begins.
proof fn lemma_trimmed_end_upto(s: Seq<char>, upto: int) -> (end: int)
    requires
        0 <= upto <= s.len(),
    ensures
        0 <= end <= upto,
        trimmed_end(s.subrange(0, upto)) == s.subrange(0, end),
        forall|i: int| end <= i < upto ==> white_space(#[trigger] s[i]),
        end > 0 ==> !white_space(s[end - 1]),
    decreases upto,
{
    let head = s.subrange(0, upto);
    if head.len() > 0 && white_space(head.last()) {
        assert(head.drop_last() == s.subrange(0, upto - 1));
        lemma_trimmed_end_upto(s, upto - 1)
    } else {
        upto
    }
}

/// Copies `s`, cut after `max` characters when it is longer.
pub fn truncate_chars(s: &str, max: usize) -> (r: String)
    ensures
        r@ == prefix(s@, max as nat),
{
    let n = s.unicode_len();
    if n <= max {
        s.to_owned()
    } else {
        s.substring_char(0, max).to_owned()
    }
}

/// The characters of `s`, in order.
pub fn chars_of(s: &str) -> (v: Vec<char>)
    ensures
        v@ == s@,
{
    broadcast use vstd::string::axiom_spec_iter;

    let mut v: Vec<char> = Vec::new();
    for c in it: s.chars()
        invariant
            it.seq() == s@,
            v@ == s@.take(it.index()),
    {
        v.push(c);
    }
    assert(s@.take(s@.len() as int) == s@);
    v
}

/// Tells whether `c` is whitespace.
pub fn is_whitespace(c: char) -> (r: bool)
    ensures
        r == white_space(c),
{
    let u: u32 = c as u32;
    (0x09 <= u && u <= 0x0D) || u == 0x20 || u == 0x85 || u == 0xA0 || u == 0x1680 || (0x2000 <= u
        && u <= 0x200A) || u == 0x2028 || u == 0x2029 || u == 0x202F || u == 0x205F || u == 0x3000
}

/// Tells whether `s` holds nothing but whitespace.
pub fn is_blank(s: &str) -> (r: bool)
    ensures
        r == blank(s@),
{
    let chars = chars_of(s);
    let mut i: usize = 0;
    while i < chars.len()
        invariant
            i <= chars.len(),
            chars@ == s@,
            forall|k: int| 0 <= k < i ==> white_space(#[trigger] chars@[k]),
        decreases chars.len() - i,
    {
        if !is_whitespace(chars[i]) {
            return false;
        }
        i = i + 1;
    }
    true
}

/// Copies `s` without its leading and trailing whitespace.
pub fn trim(s: &str) -> (r: String)
    ensures
        r@ == trimmed(s@),
{
    let chars = chars_of(s);
    let n = chars.len();
    let mut start: usize = 0;
    assert(chars@.subrange(0, n as int) == chars@);
    while start < n && is_whitespace(chars[start])
        invariant
            n == chars.len(),
            start <= n,
            trimmed_start(chars@) == trimmed_start(chars@.subrange(start as int, n as int)),
        decreases n - start,
    {
        proof {
            let rest = chars@.subrange(start as int, n as int);
            assert(rest.drop_first() == chars@.subrange(start + 1, n as int));
        }
        start = start + 1;
    }
    let ghost tail = chars@.subrange(start as int, n as int);
    assert(trimmed_start(chars@) == tail);
    let mut end: usize = n;
    while end > start && is_whitespace(chars[end - 1])
        invariant
            n == chars.len(),
            start <= end <= n,
            tail == chars@.subrange(start as int, n as int),
            trimmed_end(tail) == trimmed_end(chars@.subrange(start as int, end as int)),
        decreases end,
    {
        proof {
            let head = chars@.subrange(start as int, end as int);
            assert(head.drop_last() == chars@.subrange(start as int, end - 1));
        }
        end = end - 1;
    }
    assert(trimmed_end(tail) == chars@.subrange(start as int, end as int));
    s.substring_char(start, end).to_owned()
}

} // verus!
