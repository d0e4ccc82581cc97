//! The text of a request: one candidate per line.

use vstd::prelude::*;
use vstd::std_specs::iter::IteratorSpec;

verus! {

/// `String::push` appends one character to the end of the string.
pub assume_specification[ String::push ](text: &mut String, ch: char)
    ensures
        final(text)@ == old(text)@.push(ch),
;

/// How many characters stand before the first line feed of `text`; its whole
/// length where it has none.
pub open spec fn line_end(text: Seq<char>) -> int
    decreases text.len(),
{
    if text.len() == 0 || text[0] == '\n' {
        0
    } else {
        1 + line_end(text.drop_first())
    }
}

/// A line without the carriage return that stood before its line feed.
pub open spec fn without_carriage_return(line: Seq<char>) -> Seq<char> {
    if line.len() > 0 && line.last() == '\r' {
        line.drop_last()
    } else {
        line
    }
}

/// The lines of `text`. A line ends at a line feed, or at a carriage return
/// directly followed by one; neither belongs to the line. Text after the last
/// line feed is a line of its own, so the last line needs no line feed.
pub open spec fn split_lines(text: Seq<char>) -> Seq<Seq<char>>
    decreases text.len(),
{
    let end = line_end(text);
    if text.len() == 0 {
        Seq::empty()
    } else if end == text.len() {
        seq![text]
    } else {
        proof {
            lemma_line_end(text);
        }
        seq![without_carriage_return(text.take(end))] + split_lines(text.skip(end + 1))
    }
}

/// `line_end` is the place of the first line feed.
pub proof fn lemma_line_end(text: Seq<char>)
    ensures
        0 <= line_end(text) <= text.len(),
        forall|i: int| 0 <= i < line_end(text) ==> text[i] != '\n',
        line_end(text) < text.len() ==> text[line_end(text)] == '\n',
    decreases text.len(),
{
    if text.len() > 0 && text[0] != '\n' {
        let rest = text.drop_first();
        lemma_line_end(rest);
        assert forall|i: int| 0 <= i < line_end(text) implies text[i] != '\n' by {
            if i > 0 {
                assert(text[i] == rest[i - 1]);
            }
        }
    }
}

/// A line feed with none before it is where the first line ends.
pub proof fn lemma_line_ends_at(text: Seq<char>, end: int)
    requires
        0 <= end <= text.len(),
        forall|i: int| 0 <= i < end ==> text[i] != '\n',
        end < text.len() ==> text[end] == '\n',
    ensures
        line_end(text) == end,
{
    lemma_line_end(text);
    let found = line_end(text);
    assert(found >= end) by {
        if found < end {
            assert(text[found] == '\n');
        }
    }
}

/// No line of a text holds a line feed.
pub proof fn lemma_lines_hold_no_line_feed(text: Seq<char>)
    ensures
        forall|k: int, i: int|
            0 <= k < split_lines(text).len() && 0 <= i < split_lines(text)[k].len()
                ==> #[trigger] split_lines(text)[k][i] != '\n',
    decreases text.len(),
{
    lemma_line_end(text);
    let end = line_end(text);
    if 0 < text.len() && end < text.len() {
        let rest = text.skip(end + 1);
        lemma_lines_hold_no_line_feed(rest);
        let first = without_carriage_return(text.take(end));
        let lines = split_lines(text);
        assert forall|k: int, i: int| 0 <= k < lines.len() && 0 <= i < lines[k].len() implies
            #[trigger] lines[k][i] != '\n' by {
            if k > 0 {
                assert(lines[k] == split_lines(rest)[k - 1]);
            }
        }
    }
}

/// The text that lists `lines` one per line, each followed by a line feed.
pub open spec fn join_lines(lines: Seq<Seq<char>>) -> Seq<char>
    decreases lines.len(),
{
    if lines.len() == 0 {
        Seq::empty()
    } else {
        lines[0] + seq!['\n'] + join_lines(lines.drop_first())
    }
}

/// A line that comes back from a text as it went in: it holds no line feed and
/// does not end in a carriage return.
pub open spec fn is_plain_line(line: Seq<char>) -> bool {
    &&& forall|i: int| 0 <= i < line.len() ==> line[i] != '\n'
    &&& line.len() > 0 ==> line.last() != '\r'
}

/// Plain lines written one per line are read back unchanged, in the same order.
pub proof fn lemma_split_joined(lines: Seq<Seq<char>>)
    requires
        forall|i: int| 0 <= i < lines.len() ==> is_plain_line(#[trigger] lines[i]),
    ensures
        split_lines(join_lines(lines)) == lines,
    decreases lines.len(),
{
    if lines.len() > 0 {
        let first = lines[0];
        let rest = lines.drop_first();
        let text = join_lines(lines);
        let end = first.len() as int;
        assert forall|i: int| 0 <= i < rest.len() implies is_plain_line(#[trigger] rest[i]) by {
            assert(rest[i] == lines[i + 1]);
        }
        lemma_split_joined(rest);
        lemma_line_ends_at(text, end);
        assert(text.take(end) =~= first);
        assert(text.skip(end + 1) =~= join_lines(rest));
    }
}

/// The line feed after the last line is optional: a list of plain lines whose
/// last line is not empty is read back the same without it.
pub proof fn lemma_last_line_feed_optional(lines: Seq<Seq<char>>)
    requires
        forall|i: int| 0 <= i < lines.len() ==> is_plain_line(#[trigger] lines[i]),
        lines.len() > 0,
        lines.last().len() > 0,
    ensures
        join_lines(lines).len() > 0,
        join_lines(lines).last() == '\n',
        split_lines(join_lines(lines).drop_last()) == lines,
    decreases lines.len(),
{
    let first = lines[0];
    let rest = lines.drop_first();
    let text = join_lines(lines);
    let open = text.drop_last();
    if lines.len() == 1 {
        assert(open =~= first);
        lemma_line_ends_at(open, open.len() as int);
    } else {
        assert forall|i: int| 0 <= i < rest.len() implies is_plain_line(#[trigger] rest[i]) by {
            assert(rest[i] == lines[i + 1]);
        }
        lemma_last_line_feed_optional(rest);
        let end = first.len() as int;
        lemma_line_ends_at(open, end);
        assert(open.take(end) =~= first);
        assert(open.skip(end + 1) =~= join_lines(rest).drop_last());
    }
}

/// What a list of strings holds: the characters of each, in the order of the
/// list.
pub open spec fn texts(lines: Seq<String>) -> Seq<Seq<char>> {
    Seq::new(lines.len(), |i: int| lines[i]@)
}

/// The first line of a text that holds a line feed, and the lines after it.
proof fn lemma_split_at_line_feed(text: Seq<char>, end: int)
    requires
        0 <= end < text.len(),
        forall|i: int| 0 <= i < end ==> text[i] != '\n',
        text[end] == '\n',
    ensures
        split_lines(text) == seq![without_carriage_return(text.take(end))] + split_lines(
            text.skip(end + 1),
        ),
{
    lemma_line_ends_at(text, end);
}

/// A text without a line feed is one line, or none where it is empty.
proof fn lemma_split_last_line(text: Seq<char>)
    requires
        forall|i: int| 0 <= i < text.len() ==> text[i] != '\n',
    ensures
        split_lines(text) == if text.len() == 0 {
            Seq::<Seq<char>>::empty()
        } else {
            seq![text]
        },
{
    lemma_line_ends_at(text, text.len() as int);
}

/// Splits a text into its lines.
pub fn parse_lines(text: &str) -> (lines: Vec<String>)
    ensures
        texts(lines@) == split_lines(text@),
{
    let mut lines: Vec<String> = Vec::new();
    let mut line = String::new();
    let mut held_back = false;
    let mut chars = text.chars();
    let ghost mut start: int = 0;
    let ghost mut at: int = 0;
    proof {
        broadcast use vstd::string::group_string_axioms;

        assert(text@.skip(0) =~= text@);
    }
    loop
        invariant
            chars.obeys_prophetic_iter_laws(),
            0 <= start <= at <= text@.len(),
            chars.remaining() == text@.skip(at),
            split_lines(text@) == texts(lines@) + split_lines(text@.skip(start)),
            forall|i: int| start <= i < at ==> text@[i] != '\n',
            text@.subrange(start, at) == if held_back {
                line@.push('\r')
            } else {
                line@
            },
            !held_back && line@.len() > 0 ==> line@.last() != '\r',
        ensures
            at == text@.len(),
        decreases text@.len() - at,
    {
        let next = chars.next();
        proof {
            broadcast use vstd::string::group_string_axioms;

        }
        match next {
            None => {
                break ;
            },
            Some(ch) => {
                if ch == '\n' {
                    proof {
                        // The text from `start` on begins with the line just
                        // read, and `line` holds it without its carriage return.
                        let rest = text@.skip(start);
                        let end = at - start;
                        lemma_split_at_line_feed(rest, end);
                        assert(rest.take(end) == text@.subrange(start, at));
                        assert(rest.skip(end + 1) == text@.skip(at + 1));
                        assert(without_carriage_return(rest.take(end)) == line@);
                    }
                    lines.push(line);
                    line = String::new();
                    held_back = false;
                    proof {
                        start = at + 1;
                    }
                } else {
                    if held_back {
                        line.push('\r');
                    }
                    if ch == '\r' {
                        held_back = true;
                    } else {
                        line.push(ch);
                        held_back = false;
                    }
                }
                proof {
                    at = at + 1;
                }
            },
        }
    }
    proof {
        // What is left from `start` on holds no line feed: it is the last line,
        // or nothing.
        lemma_split_last_line(text@.skip(start));
    }
    if held_back {
        line.push('\r');
    }
    if !line.as_str().is_empty() {
        lines.push(line);
    }
    lines
}

} // verus!
