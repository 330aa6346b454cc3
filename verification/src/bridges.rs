//! The bridge list: which lines of a Tor bridge list are bridge lines, and
//! the single text under which a list of them is stored.

use crate::text::{
    chars_of, has_prefix, is_single_line, is_trimmed, join_lines, lemma_line_len_bounds,
    lemma_line_len_is, lemma_trim_keeps_line, lemma_trim_of_trimmed, line_end, line_len,
    split_lines, text_lines, trim, trim_bounds, LINE_FEED,
};
use vstd::prelude::*;

verus! {

/// What every bridge line begins with.
pub const TOR_BRIDGE_PREFIX: &'static str = "Bridge ";

/// What a comment line begins with.
pub const COMMENT_MARK: char = '#';

/// The characters of [`TOR_BRIDGE_PREFIX`].
pub open spec fn bridge_prefix() -> Seq<char> {
    seq!['B', 'r', 'i', 'd', 'g', 'e', ' ']
}

/// Whether a trimmed line is kept: it is not empty, is no comment and begins
/// with the bridge prefix.
pub open spec fn is_bridge_entry(line: Seq<char>) -> bool {
    &&& line.len() > 0
    &&& line[0] != COMMENT_MARK
    &&& bridge_prefix().is_prefix_of(line)
}

/// A well-formed bridge line: one line, trimmed, that is a bridge entry.
pub open spec fn is_bridge_line(line: Seq<char>) -> bool {
    &&& is_single_line(line)
    &&& is_trimmed(line)
    &&& is_bridge_entry(line)
}

/// Each piece without the white space around it.
pub open spec fn trimmed(pieces: Seq<Seq<char>>) -> Seq<Seq<char>> {
    pieces.map_values(|piece: Seq<char>| trim(piece))
}

/// The bridge entries among `lines`, in their order, duplicates kept.
pub open spec fn entries(lines: Seq<Seq<char>>) -> Seq<Seq<char>> {
    lines.filter(|line: Seq<char>| is_bridge_entry(line))
}

/// The bridge lines of a bridge list: its lines, trimmed, of which the
/// bridge entries are kept in their order.
pub open spec fn bridge_lines(text: Seq<char>) -> Seq<Seq<char>> {
    entries(trimmed(split_lines(text)))
}

/// The text under which `lines` are stored: the lines with a line feed
/// between each two and one more after the last.
pub open spec fn bridges_value(lines: Seq<Seq<char>>) -> Seq<char> {
    join_lines(lines) + seq![LINE_FEED]
}

/// What one trimmed line adds to the bridge lines.
pub open spec fn entry_of(line: Seq<char>) -> Seq<Seq<char>> {
    if is_bridge_entry(line) {
        seq![line]
    } else {
        Seq::empty()
    }
}

/// The prefix constant holds the characters of `bridge_prefix`.
pub proof fn lemma_bridge_prefix()
    ensures
        TOR_BRIDGE_PREFIX@ == bridge_prefix(),
{
    reveal_strlit("Bridge ");
    assert(TOR_BRIDGE_PREFIX@ =~= bridge_prefix());
}

/// The bridge entries of one line.
pub proof fn lemma_entries_one(line: Seq<char>)
    ensures
        entries(seq![line]) == entry_of(line),
{
    let pred = |line: Seq<char>| is_bridge_entry(line);
    assert(seq![line] == Seq::<Seq<char>>::empty().push(line));
    Seq::<Seq<char>>::empty().lemma_filter_push(line, pred);
    reveal(Seq::filter);
    assert(Seq::<Seq<char>>::empty().filter(pred) == Seq::<Seq<char>>::empty());
}

/// The bridge entries of two lists, one after the other.
pub proof fn lemma_entries_add(a: Seq<Seq<char>>, b: Seq<Seq<char>>)
    ensures
        entries(a + b) == entries(a) + entries(b),
{
    Seq::filter_distributes_over_add(a, b, |line: Seq<char>| is_bridge_entry(line));
}

/// The bridge lines of a text are those of its first line, then those of
/// what follows its first line feed.
pub proof fn lemma_bridge_lines_unfold(text: Seq<char>)
    ensures
        bridge_lines(text) == if line_len(text) >= text.len() {
            entry_of(trim(text))
        } else {
            entry_of(trim(text.take(line_len(text) as int))) + bridge_lines(
                text.skip(line_len(text) as int + 1),
            )
        },
{
    let n = line_len(text) as int;
    if n >= text.len() {
        assert(trimmed(seq![text]) == seq![trim(text)]);
        lemma_entries_one(trim(text));
    } else {
        let first = text.take(n);
        let rest = split_lines(text.skip(n + 1));
        assert(trimmed(seq![first] + rest) == seq![trim(first)] + trimmed(rest));
        lemma_entries_add(seq![trim(first)], trimmed(rest));
        lemma_entries_one(trim(first));
    }
}

/// The pieces of two texts joined by a line feed are the pieces of the
/// first, then those of the second.
pub proof fn lemma_split_lines_add(a: Seq<char>, b: Seq<char>)
    ensures
        split_lines(a + seq![LINE_FEED] + b) == split_lines(a) + split_lines(b),
    decreases a.len(),
{
    let whole = a + seq![LINE_FEED] + b;
    let n = line_len(a) as int;
    lemma_line_len_bounds(a);
    lemma_line_len_is(whole, n);
    if n >= a.len() {
        assert(whole.take(n) == a);
        assert(whole.skip(n + 1) == b);
    } else {
        assert(whole.take(n) == a.take(n));
        assert(whole.skip(n + 1) == a.skip(n + 1) + seq![LINE_FEED] + b);
        lemma_split_lines_add(a.skip(n + 1), b);
    }
}

/// A text without a line feed is one piece.
pub proof fn lemma_split_single_line(line: Seq<char>)
    requires
        is_single_line(line),
    ensures
        split_lines(line) == seq![line],
{
    lemma_line_len_is(line, line.len() as int);
}

/// Joining lines and splitting the text again gives the lines back.
pub proof fn lemma_split_joined(lines: Seq<Seq<char>>)
    requires
        lines.len() > 0,
        forall|i: int| 0 <= i < lines.len() ==> is_single_line(#[trigger] lines[i]),
    ensures
        split_lines(join_lines(lines)) == lines,
    decreases lines.len(),
{
    if lines.len() == 1 {
        lemma_split_single_line(lines[0]);
    } else {
        let init = lines.drop_last();
        lemma_split_joined(init);
        lemma_split_lines_add(join_lines(init), lines.last());
        lemma_split_single_line(lines.last());
        assert(init + seq![lines.last()] == lines);
    }
}

/// Storing bridge lines and splitting the stored text at its line feeds
/// gives exactly the lines, in their order: the stored text of a list that
/// is not empty, of lines that hold no line feed, has these lines and no
/// others.
pub proof fn lemma_stored_lines_round_trip(lines: Seq<Seq<char>>)
    requires
        lines.len() > 0,
        forall|i: int| 0 <= i < lines.len() ==> is_single_line(#[trigger] lines[i]),
    ensures
        split_lines(bridges_value(lines)) == lines.push(Seq::empty()),
        text_lines(bridges_value(lines)) == lines,
{
    let none = Seq::<char>::empty();
    lemma_split_joined(lines);
    lemma_split_lines_add(join_lines(lines), none);
    lemma_split_single_line(none);
    assert(join_lines(lines) + seq![LINE_FEED] + none == bridges_value(lines));
    assert(lines + seq![none] == lines.push(none));
    assert(lines.push(none).drop_last() == lines);
}

/// Where every line is a bridge entry that is trimmed already, trimming
/// and selecting changes nothing.
pub proof fn lemma_entries_of_bridge_lines(lines: Seq<Seq<char>>)
    requires
        forall|i: int| 0 <= i < lines.len() ==> is_bridge_line(#[trigger] lines[i]),
    ensures
        entries(trimmed(lines)) == lines,
    decreases lines.len(),
{
    if lines.len() == 0 {
        reveal(Seq::filter);
        assert(trimmed(lines) == Seq::<Seq<char>>::empty());
    } else {
        let init = lines.drop_last();
        let last = lines.last();
        lemma_entries_of_bridge_lines(init);
        lemma_trim_of_trimmed(last);
        assert(trimmed(lines) == trimmed(init) + seq![last]);
        lemma_entries_add(trimmed(init), seq![last]);
        lemma_entries_one(last);
        assert(init + seq![last] == lines);
    }
}

/// Reading stored bridge lines back gives exactly what was stored: the
/// bridge lines of the stored text of well-formed bridge lines are these
/// lines, in their order.
pub proof fn lemma_stored_bridges_round_trip(lines: Seq<Seq<char>>)
    requires
        forall|i: int| 0 <= i < lines.len() ==> is_bridge_line(#[trigger] lines[i]),
    ensures
        bridge_lines(bridges_value(lines)) == lines,
{
    let none = Seq::<char>::empty();
    lemma_entries_of_bridge_lines(lines);
    lemma_trim_of_trimmed(none);
    lemma_entries_one(none);
    if lines.len() == 0 {
        assert(bridges_value(lines) == none + seq![LINE_FEED] + none);
        lemma_split_lines_add(none, none);
        lemma_split_single_line(none);
        assert(trimmed(seq![none] + seq![none]) == seq![none] + seq![none]);
        lemma_entries_add(seq![none], seq![none]);
    } else {
        lemma_stored_lines_round_trip(lines);
        assert(trimmed(lines.push(none)) == trimmed(lines) + seq![none]);
        lemma_entries_add(trimmed(lines), seq![none]);
    }
}

/// What the reader returns are well-formed bridge lines.
pub proof fn lemma_bridge_lines_well_formed(text: Seq<char>)
    ensures
        forall|i: int|
            0 <= i < bridge_lines(text).len() ==> is_bridge_line(#[trigger] bridge_lines(text)[i]),
    decreases text.len(),
{
    let n = line_len(text) as int;
    lemma_bridge_lines_unfold(text);
    lemma_line_len_bounds(text);
    let first = if n >= text.len() {
        text
    } else {
        text.take(n)
    };
    lemma_trim_keeps_line(first);
    if n < text.len() {
        lemma_bridge_lines_well_formed(text.skip(n + 1));
    }
}

/// The bridge lines of the text of a bridge list file: each line of
/// `contents` is trimmed, and those that are bridge entries are returned in
/// the order of the file, duplicates included.
pub fn get_bridges_from_file(contents: &str) -> (bridges: Vec<String>)
    ensures
        bridges.deep_view() == bridge_lines(contents@),
{
    let chars = chars_of(contents);
    let prefix = chars_of(TOR_BRIDGE_PREFIX);
    proof {
        lemma_bridge_prefix();
    }
    let mut bridges: Vec<String> = Vec::new();
    let mut start: usize = 0;
    assert(contents@.skip(0) == contents@);
    loop
        invariant_except_break
            start <= chars.len(),
            bridge_lines(contents@) == bridges.deep_view() + bridge_lines(
                contents@.skip(start as int),
            ),
        invariant
            chars@ == contents@,
            prefix@ == bridge_prefix(),
        ensures
            bridges.deep_view() == bridge_lines(contents@),
        decreases chars.len() - start,
    {
        let ghost rest = contents@.skip(start as int);
        let ghost before = bridges.deep_view();
        let end = line_end(&chars, start);
        let (from, to) = trim_bounds(&chars, start, end);
        let ghost line = chars@.subrange(from as int, to as int);
        proof {
            lemma_bridge_lines_unfold(rest);
            assert(rest.take(end - start) == chars@.subrange(start as int, end as int));
        }
        if from < to && chars[from] != COMMENT_MARK && has_prefix(&chars, from, to, &prefix) {
            let kept = contents.substring_char(from, to).to_owned();
            bridges.push(kept);
            assert(bridges.deep_view() == before + seq![line]);
        }
        assert(bridges.deep_view() == before + entry_of(line));
        if end == chars.len() {
            break ;
        }
        assert(rest.skip(end - start + 1) == contents@.skip(end + 1));
        start = end + 1;
    }
    bridges
}

/// The text under which `lines` are stored in the `bridges.bridges` field.
pub fn bridges_text(lines: &Vec<String>) -> (value: String)
    ensures
        value@ == bridges_value(lines.deep_view()),
{
    let ghost all = lines.deep_view();
    let mut value = String::new();
    let mut i: usize = 0;
    proof {
        reveal_strlit("\n");
        assert("\n"@ == seq![LINE_FEED]);
        assert(all.take(0) == Seq::<Seq<char>>::empty());
    }
    while i < lines.len()
        invariant
            i <= lines.len(),
            all == lines.deep_view(),
            "\n"@ == seq![LINE_FEED],
            value@ == join_lines(all.take(i as int)),
        decreases lines.len() - i,
    {
        if i > 0 {
            value.append("\n");
        }
        value.append(lines[i].as_str());
        proof {
            let upto = all.take(i + 1);
            assert(upto.drop_last() == all.take(i as int));
            assert(upto.last() == lines[i as int]@);
            if i == 0 {
                assert(value@ == upto[0]);
            }
        }
        i += 1;
    }
    assert(all.take(i as int) == all);
    value.append("\n");
    value
}

} // verus!
