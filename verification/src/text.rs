//! Text as sequences of characters: white space, trimming and lines.

use vstd::prelude::*;

verus! {

/// The line feed that ends a line.
pub const LINE_FEED: char = '\n';

/// Whether `c` has the Unicode property `White_Space`.
pub open spec fn is_whitespace(c: char) -> bool {
    let n = c as u32;
    ||| 0x09 <= n <= 0x0D
    ||| n == 0x20
    ||| n == 0x85
    ||| n == 0xA0
    ||| n == 0x1680
    ||| 0x2000 <= n <= 0x200A
    ||| n == 0x2028
    ||| n == 0x2029
    ||| n == 0x202F
    ||| n == 0x205F
    ||| n == 0x3000
}

/// `s` without its leading white space.
pub open spec fn trim_start(s: Seq<char>) -> Seq<char>
    decreases s.len(),
{
    if s.len() > 0 && is_whitespace(s[0]) {
        trim_start(s.skip(1))
    } else {
        s
    }
}

/// `s` without its trailing white space.
pub open spec fn trim_end(s: Seq<char>) -> Seq<char>
    decreases s.len(),
{
    if s.len() > 0 && is_whitespace(s.last()) {
        trim_end(s.drop_last())
    } else {
        s
    }
}

/// `s` without the white space around it.
pub open spec fn trim(s: Seq<char>) -> Seq<char> {
    trim_end(trim_start(s))
}

/// Whether `s` has no white space at either end.
pub open spec fn is_trimmed(s: Seq<char>) -> bool {
    s.len() > 0 ==> !is_whitespace(s[0]) && !is_whitespace(s.last())
}

/// Whether `s` holds no line feed.
pub open spec fn is_single_line(s: Seq<char>) -> bool {
    forall|i: int| 0 <= i < s.len() ==> s[i] != LINE_FEED
}

/// The number of characters before the first line feed of `text`, or the
/// length of `text` where it holds none.
pub open spec fn line_len(text: Seq<char>) -> nat
    decreases text.len(),
{
    if text.len() == 0 || text[0] == LINE_FEED {
        0
    } else {
        1 + line_len(text.skip(1))
    }
}

/// The pieces of `text` between its line feeds. A text of `n` line feeds has
/// `n + 1` pieces; the last is what follows the last line feed.
pub open spec fn split_lines(text: Seq<char>) -> Seq<Seq<char>>
    decreases text.len(),
{
    let n = line_len(text) as int;
    if n >= text.len() {
        seq![text]
    } else {
        seq![text.take(n)] + split_lines(text.skip(n + 1))
    }
}

/// The lines of `text`, each ended by a line feed or by the end of the text:
/// what follows the last line feed is a line only if it is not empty.
pub open spec fn text_lines(text: Seq<char>) -> Seq<Seq<char>> {
    let pieces = split_lines(text);
    if pieces.last().len() == 0 {
        pieces.drop_last()
    } else {
        pieces
    }
}

/// `lines` with a line feed between each two.
pub open spec fn join_lines(lines: Seq<Seq<char>>) -> Seq<char>
    decreases lines.len(),
{
    if lines.len() == 0 {
        Seq::empty()
    } else if lines.len() == 1 {
        lines[0]
    } else {
        join_lines(lines.drop_last()) + seq![LINE_FEED] + lines.last()
    }
}

/// Counting up to the first line feed gives `line_len`.
pub proof fn lemma_line_len_is(text: Seq<char>, k: int)
    requires
        0 <= k <= text.len(),
        forall|i: int| 0 <= i < k ==> text[i] != LINE_FEED,
        k < text.len() ==> text[k] == LINE_FEED,
    ensures
        line_len(text) == k,
    decreases k,
{
    if k > 0 {
        lemma_line_len_is(text.skip(1), k - 1);
    }
}

/// `line_len` stays inside the text and stops at the first line feed.
pub proof fn lemma_line_len_bounds(text: Seq<char>)
    ensures
        line_len(text) <= text.len(),
        forall|i: int| 0 <= i < line_len(text) ==> text[i] != LINE_FEED,
        line_len(text) < text.len() ==> text[line_len(text) as int] == LINE_FEED,
    decreases text.len(),
{
    if !(text.len() == 0 || text[0] == LINE_FEED) {
        let rest = text.skip(1);
        lemma_line_len_bounds(rest);
        assert forall|i: int| 0 <= i < line_len(text) implies text[i] != LINE_FEED by {
            if i > 0 {
                assert(text[i] == rest[i - 1]);
            }
        }
        if line_len(text) < text.len() {
            assert(text[line_len(text) as int] == rest[line_len(rest) as int]);
        }
    }
}

/// Skipping `k` leading white space characters up to the first other one
/// gives `trim_start`.
pub proof fn lemma_trim_start_is(s: Seq<char>, k: int)
    requires
        0 <= k <= s.len(),
        forall|i: int| 0 <= i < k ==> is_whitespace(s[i]),
        k < s.len() ==> !is_whitespace(s[k]),
    ensures
        trim_start(s) == s.skip(k),
    decreases k,
{
    if k > 0 {
        lemma_trim_start_is(s.skip(1), k - 1);
        assert(s.skip(1).skip(k - 1) == s.skip(k));
    } else {
        assert(s.skip(0) == s);
    }
}

/// Dropping the trailing white space characters from position `k` on gives
/// `trim_end`.
pub proof fn lemma_trim_end_is(s: Seq<char>, k: int)
    requires
        0 <= k <= s.len(),
        forall|i: int| k <= i < s.len() ==> is_whitespace(s[i]),
        k > 0 ==> !is_whitespace(s[k - 1]),
    ensures
        trim_end(s) == s.take(k),
    decreases s.len() - k,
{
    if k < s.len() {
        lemma_trim_end_is(s.drop_last(), k);
        assert(s.drop_last().take(k) == s.take(k));
    } else {
        assert(s.take(k) == s);
    }
}

/// A text that is trimmed already is its own trimmed form.
pub proof fn lemma_trim_of_trimmed(s: Seq<char>)
    requires
        is_trimmed(s),
    ensures
        trim(s) == s,
{
    lemma_trim_start_is(s, 0);
    assert(s.skip(0) == s);
    lemma_trim_end_is(s, s.len() as int);
    assert(s.take(s.len() as int) == s);
}

/// What is left of a single line after trimming is a single line that is
/// trimmed.
pub proof fn lemma_trim_keeps_line(s: Seq<char>)
    requires
        is_single_line(s),
    ensures
        is_single_line(trim(s)),
        is_trimmed(trim(s)),
{
    lemma_trim_start_bounds(s);
    let t = trim_start(s);
    lemma_trim_end_bounds(t);
}

/// `trim_start` is the text from its first character that is no white space.
pub proof fn lemma_trim_start_bounds(s: Seq<char>)
    ensures
        exists|k: int| 0 <= k <= s.len() && #[trigger] s.skip(k) == trim_start(s),
        trim_start(s).len() > 0 ==> !is_whitespace(trim_start(s)[0]),
    decreases s.len(),
{
    if s.len() > 0 && is_whitespace(s[0]) {
        let rest = s.skip(1);
        lemma_trim_start_bounds(rest);
        let k = choose|k: int| 0 <= k <= rest.len() && #[trigger] rest.skip(k) == trim_start(rest);
        assert(s.skip(k + 1) == rest.skip(k));
    } else {
        assert(s.skip(0) == s);
    }
}

/// `trim_end` is the text up to its last character that is no white space.
pub proof fn lemma_trim_end_bounds(s: Seq<char>)
    ensures
        exists|k: int| 0 <= k <= s.len() && #[trigger] s.take(k) == trim_end(s),
        trim_end(s).len() > 0 ==> !is_whitespace(trim_end(s).last()) && trim_end(s)[0] == s[0],
    decreases s.len(),
{
    if s.len() > 0 && is_whitespace(s.last()) {
        let init = s.drop_last();
        lemma_trim_end_bounds(init);
        let k = choose|k: int| 0 <= k <= init.len() && #[trigger] init.take(k) == trim_end(init);
        assert(s.take(k) == init.take(k));
    } else {
        assert(s.take(s.len() as int) == s);
    }
}

/// The characters of `s`, in order.
pub fn chars_of(s: &str) -> (chars: Vec<char>)
    ensures
        chars@ == s@,
{
    let mut chars: Vec<char> = Vec::new();
    for c in it: s.chars()
        invariant
            chars@ == s@.take(it.index() as int),
            it.seq() == s@,
    {
        chars.push(c);
    }
    chars
}

/// Whether `c` is white space.
pub fn whitespace(c: char) -> (b: bool)
    ensures
        b == is_whitespace(c),
{
    let n: u32 = c as u32;
    (0x09 <= n && n <= 0x0D) || n == 0x20 || n == 0x85 || n == 0xA0 || n == 0x1680 || (0x2000 <= n
        && n <= 0x200A) || n == 0x2028 || n == 0x2029 || n == 0x202F || n == 0x205F || n == 0x3000
}

/// The position at which the line that starts at `start` ends: that of the
/// next line feed, or the length of `chars`.
pub fn line_end(chars: &Vec<char>, start: usize) -> (end: usize)
    requires
        start <= chars.len(),
    ensures
        start <= end <= chars.len(),
        end - start == line_len(chars@.skip(start as int)),
{
    let mut end: usize = start;
    while end < chars.len() && chars[end] != LINE_FEED
        invariant
            start <= end <= chars.len(),
            forall|i: int| start <= i < end ==> chars@[i] != LINE_FEED,
        decreases chars.len() - end,
    {
        end += 1;
    }
    proof {
        lemma_line_len_is(chars@.skip(start as int), end - start);
    }
    end
}

/// The bounds of what is left of `chars[start..end]` once the white space
/// around it is taken off.
pub fn trim_bounds(chars: &Vec<char>, start: usize, end: usize) -> (bounds: (usize, usize))
    requires
        start <= end <= chars.len(),
    ensures
        start <= bounds.0 <= bounds.1 <= end,
        chars@.subrange(bounds.0 as int, bounds.1 as int) == trim(
            chars@.subrange(start as int, end as int),
        ),
{
    let ghost piece = chars@.subrange(start as int, end as int);
    let mut from: usize = start;
    while from < end && whitespace(chars[from])
        invariant
            start <= from <= end <= chars.len(),
            forall|i: int| start <= i < from ==> is_whitespace(chars@[i]),
        decreases end - from,
    {
        from += 1;
    }
    let mut to: usize = end;
    while from < to && whitespace(chars[to - 1])
        invariant
            from <= to <= end <= chars.len(),
            forall|i: int| to <= i < end ==> is_whitespace(chars@[i]),
        decreases to - from,
    {
        to -= 1;
    }
    proof {
        lemma_trim_start_is(piece, from - start);
        let tail = piece.skip(from - start);
        assert(tail == chars@.subrange(from as int, end as int));
        lemma_trim_end_is(tail, to - from);
        assert(tail.take(to - from) == chars@.subrange(from as int, to as int));
    }
    (from, to)
}

/// Whether `chars[start..end]` begins with `prefix`.
pub fn has_prefix(chars: &Vec<char>, start: usize, end: usize, prefix: &Vec<char>) -> (b: bool)
    requires
        start <= end <= chars.len(),
    ensures
        b == prefix@.is_prefix_of(chars@.subrange(start as int, end as int)),
{
    let ghost piece = chars@.subrange(start as int, end as int);
    if prefix.len() > end - start {
        return false;
    }
    let mut i: usize = 0;
    while i < prefix.len()
        invariant
            i <= prefix.len() <= end - start,
            start <= end <= chars.len(),
            piece == chars@.subrange(start as int, end as int),
            forall|j: int| 0 <= j < i ==> prefix@[j] == piece[j],
        decreases prefix.len() - i,
    {
        if chars[start + i] != prefix[i] {
            assert(piece[i as int] != prefix@[i as int]);
            assert(piece.subrange(0, prefix@.len() as int)[i as int] != prefix@[i as int]);
            return false;
        }
        i += 1;
    }
    assert(piece.subrange(0, prefix@.len() as int) == prefix@);
    true
}

} // verus!
