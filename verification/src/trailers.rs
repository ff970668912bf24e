//! Commit trailers: the `Key: value` lines at the end of a commit message that record which
//! commit of the other repository a commit stands for.
//!
//! The trailers of a message are its last paragraph, when every line of that paragraph has the
//! shape of a trailer and it is not the only paragraph (a subject such as `fix: it` is none).

use vstd::prelude::*;
use vstd::string::*;
use crate::text::{chars_of, lemma_lines_concat, lemma_one_line, lines_of, split_lines, Text};

verus! {

/// On a standalone commit: the monorepo commit it exports.
pub const SOURCE_TRAILER: &'static str = "Monosplice-Source";

/// On a monorepo commit: the standalone commit it imports.
pub const ORIGIN_TRAILER: &'static str = "Monosplice-Origin";

/// May `c` stand in a trailer's key?
pub open spec fn is_key_char(c: char) -> bool {
    ||| 'a' <= c <= 'z'
    ||| 'A' <= c <= 'Z'
    ||| '0' <= c <= '9'
    ||| c == '-'
}

/// Is `line` a key of `n` characters, a colon and a space, and then anything?
pub open spec fn is_trailer_with_key(line: Text, n: int) -> bool {
    &&& 0 < n < line.len() - 1
    &&& line[n] == ':'
    &&& line[n + 1] == ' '
    &&& forall|j: int| 0 <= j < n ==> is_key_char(#[trigger] line[j])
}

/// Does `line` have the shape of a trailer?
pub open spec fn is_trailer_line(line: Text) -> bool {
    exists|n: int| #[trigger] is_trailer_with_key(line, n)
}

/// `t` without the newlines at its end.
pub open spec fn strip_newlines(t: Text) -> Text
    decreases t.len(),
{
    if t.len() > 0 && t.last() == '\n' {
        strip_newlines(t.drop_last())
    } else {
        t
    }
}

/// How many lines stand before the trailer-shaped lines at the end.
pub open spec fn block_start(lines: Seq<Text>) -> int
    decreases lines.len(),
{
    if lines.len() > 0 && is_trailer_line(lines.last()) {
        block_start(lines.drop_last())
    } else {
        lines.len() as int
    }
}

/// Do the lines end in a paragraph of trailers that is not the only paragraph?
pub open spec fn has_block(lines: Seq<Text>) -> bool {
    let start = block_start(lines);
    0 < start < lines.len() && lines[start - 1].len() == 0
}

/// What stands in front of a trailer's value.
pub open spec fn key_prefix(key: Text) -> Text {
    key + ": "@
}

/// The value of the last line at or after `from` that carries `key`.
pub open spec fn last_value(lines: Seq<Text>, from: int, key: Text) -> Option<Text>
    decreases lines.len(),
{
    if lines.len() <= from || lines.len() == 0 {
        None
    } else if key_prefix(key).is_prefix_of(lines.last()) {
        Some(lines.last().skip(key_prefix(key).len() as int))
    } else {
        last_value(lines.drop_last(), from, key)
    }
}

/// The value of `key` among the trailers of `message`; the last one where it occurs twice.
pub open spec fn trailer_text(message: Text, key: Text) -> Option<Text> {
    let lines = lines_of(strip_newlines(message));
    if has_block(lines) {
        last_value(lines, block_start(lines), key)
    } else {
        None
    }
}

/// `message` with one more trailer, in the paragraph of trailers it already has or in a new one.
pub open spec fn with_trailer(message: Text, key: Text, value: Text) -> Text {
    let body = strip_newlines(message);
    let gap = if has_block(lines_of(body)) {
        "\n"@
    } else {
        "\n\n"@
    };
    body + gap + key_prefix(key) + value + "\n"@
}

/// Is `key` a key that a trailer can have?
pub open spec fn is_key(key: Text) -> bool {
    key.len() > 0 && forall|j: int| 0 <= j < key.len() ==> is_key_char(#[trigger] key[j])
}

fn key_char(c: char) -> (out: bool)
    ensures
        out == is_key_char(c),
{
    ('a' <= c && c <= 'z') || ('A' <= c && c <= 'Z') || ('0' <= c && c <= '9') || c == '-'
}

fn trailer_line(line: &String) -> (out: bool)
    ensures
        out == is_trailer_line(line@),
{
    let cs = chars_of(line.as_str());
    let mut n: usize = 0;
    while n < cs.len() && key_char(cs[n])
        invariant
            cs@ == line@,
            n <= cs.len(),
            forall|j: int| 0 <= j < n ==> is_key_char(#[trigger] line@[j]),
        decreases cs.len() - n,
    {
        n = n + 1;
    }
    let found = 0 < n && n < cs.len() && n + 1 < cs.len() && cs[n] == ':' && cs[n + 1] == ' ';
    proof {
        if found {
            assert(is_trailer_with_key(line@, n as int));
        } else if is_trailer_line(line@) {
            let m = choose|m: int| #[trigger] is_trailer_with_key(line@, m);
            if m < n {
                assert(is_key_char(line@[m]));
            } else if n < m {
                assert(is_key_char(line@[n as int]));
            }
        }
    }
    found
}

fn start_of_block(lines: &Vec<String>) -> (out: usize)
    ensures
        out == block_start(lines.deep_view()),
        out <= lines.len(),
{
    let ghost all = lines.deep_view();
    let mut at: usize = lines.len();
    assert(all.take(at as int) =~= all);
    while at > 0 && trailer_line(&lines[at - 1])
        invariant
            all == lines.deep_view(),
            at <= lines.len(),
            block_start(all) == block_start(all.take(at as int)),
        decreases at,
    {
        assert(all.take(at as int).last() == all[at - 1]);
        assert(all.take(at as int).drop_last() =~= all.take(at - 1));
        at = at - 1;
    }
    proof {
        if at > 0 {
            assert(all.take(at as int).last() == all[at - 1]);
        }
    }
    at
}

fn block_of(lines: &Vec<String>) -> (out: Option<usize>)
    ensures
        match out {
            Some(start) => has_block(lines.deep_view()) && start == block_start(lines.deep_view())
                && start <= lines.len(),
            None => !has_block(lines.deep_view()),
        },
{
    let start = start_of_block(lines);
    if 0 < start && start < lines.len() && lines[start - 1].as_str().is_empty() {
        assert(lines.deep_view()[start - 1].len() == 0);
        Some(start)
    } else {
        assert(0 < start < lines.len() ==> lines.deep_view()[start - 1] == lines[start - 1]@);
        None
    }
}

fn body_of<'a>(message: &'a str) -> (out: &'a str)
    ensures
        out@ == strip_newlines(message@),
{
    let cs = chars_of(message);
    let mut end: usize = cs.len();
    assert(message@.take(end as int) =~= message@);
    while end > 0 && cs[end - 1] == '\n'
        invariant
            cs@ == message@,
            end <= cs.len(),
            strip_newlines(message@) == strip_newlines(message@.take(end as int)),
        decreases end,
    {
        assert(message@.take(end as int).drop_last() =~= message@.take(end - 1));
        end = end - 1;
    }
    assert(message@.take(end as int) =~= message@.subrange(0, end as int));
    message.substring_char(0, end)
}

/// What follows `prefix` in `s`, when `s` starts with it.
fn after_prefix(s: &String, prefix: &String) -> (out: Option<String>)
    ensures
        match out {
            Some(rest) => prefix@.is_prefix_of(s@) && rest@ == s@.skip(prefix@.len() as int),
            None => !prefix@.is_prefix_of(s@),
        },
{
    let cs = chars_of(s.as_str());
    let ps = chars_of(prefix.as_str());
    if ps.len() > cs.len() {
        return None;
    }
    let mut i: usize = 0;
    while i < ps.len()
        invariant
            cs@ == s@,
            ps@ == prefix@,
            i <= ps.len() <= cs.len(),
            forall|j: int| 0 <= j < i ==> cs@[j] == #[trigger] ps@[j],
        decreases ps.len() - i,
    {
        if cs[i] != ps[i] {
            assert(prefix@.is_prefix_of(s@) ==> prefix@[i as int] == s@.subrange(
                0,
                prefix@.len() as int,
            )[i as int]);
            return None;
        }
        i = i + 1;
    }
    assert(prefix@ =~= s@.subrange(0, prefix@.len() as int));
    let rest = s.as_str().substring_char(ps.len(), cs.len());
    assert(rest@ =~= s@.skip(prefix@.len() as int));
    Some(rest.to_string())
}

/// The value of `key` among the trailers of `message`.
pub fn get_trailer(message: &str, key: &str) -> (out: Option<String>)
    ensures
        out.deep_view() == trailer_text(message@, key@),
{
    let lines = split_lines(body_of(message));
    let start = match block_of(&lines) {
        Some(start) => start,
        None => return None,
    };
    let prefix = key.to_string().concat(": ");
    let ghost all = lines.deep_view();
    let mut at: usize = lines.len();
    assert(all.take(at as int) =~= all);
    while at > start
        invariant
            all == lines.deep_view(),
            all == lines_of(strip_newlines(message@)),
            has_block(all),
            start == block_start(all),
            start <= at <= lines.len(),
            prefix@ == key_prefix(key@),
            last_value(all, start as int, key@) == last_value(
                all.take(at as int),
                start as int,
                key@,
            ),
        decreases at,
    {
        assert(all.take(at as int).last() == all[at - 1]);
        assert(all.take(at as int).drop_last() =~= all.take(at - 1));
        match after_prefix(&lines[at - 1], &prefix) {
            Some(value) => return Some(value),
            None => {},
        }
        at = at - 1;
    }
    None
}

/// Add the trailer `key: value` at the end of `message`.
pub fn append_trailer(message: &str, key: &str, value: &str) -> (out: String)
    ensures
        out@ == with_trailer(message@, key@, value@),
{
    let body = body_of(message);
    let lines = split_lines(body);
    let gap = match block_of(&lines) {
        Some(_) => "\n",
        None => "\n\n",
    };
    let prefix = key.to_string().concat(": ");
    body.to_string().concat(gap).concat(prefix.as_str()).concat(value).concat("\n")
}

proof fn lemma_strip_append(t: Text)
    requires
        t.len() > 0,
        t.last() != '\n',
    ensures
        strip_newlines(t + "\n"@) == t,
{
    reveal_strlit("\n");
    assert((t + "\n"@).drop_last() =~= t);
    assert((t + "\n"@).last() == '\n');
    assert(strip_newlines(t) == t);
}

proof fn lemma_block_start_bound(lines: Seq<Text>)
    ensures
        0 <= block_start(lines) <= lines.len(),
    decreases lines.len(),
{
    if lines.len() > 0 && is_trailer_line(lines.last()) {
        lemma_block_start_bound(lines.drop_last());
    }
}

/// A trailer that was appended reads back: whatever the message said before, `key` now has
/// `value`, as long as the value fits on one line.
pub proof fn law_appended_trailer_reads_back(message: Text, key: Text, value: Text)
    requires
        is_key(key),
        !value.contains('\n'),
    ensures
        trailer_text(with_trailer(message, key, value), key) == Some(value),
{
    reveal_strlit("\n");
    reveal_strlit("\n\n");
    reveal_strlit(": ");
    let body = strip_newlines(message);
    let line = key_prefix(key) + value;
    let before = lines_of(body);
    let gap = if has_block(before) {
        "\n"@
    } else {
        "\n\n"@
    };
    let whole = body + gap + line;
    assert(with_trailer(message, key, value) =~= whole + "\n"@);
    // The last line holds no newline of its own.
    assert forall|j: int| 0 <= j < line.len() implies line[j] != '\n' by {
        if j < key.len() {
            assert(line[j] == key[j]);
            assert(is_key_char(key[j]));
        } else if j >= key.len() + 2 {
            assert(line[j] == value[j - key.len() - 2]);
            assert(value.contains(value[j - key.len() - 2]));
        }
    }
    assert(whole.last() == line.last());
    lemma_strip_append(whole);
    lemma_one_line(line);
    let nl = seq!['\n'];
    if has_block(before) {
        assert(whole =~= body + nl + line);
        lemma_lines_concat(body, line);
    } else {
        assert(whole =~= (body + nl + Seq::<char>::empty()) + nl + line);
        lemma_lines_concat(body, Seq::empty());
        lemma_lines_concat(body + nl + Seq::<char>::empty(), line);
    }
    let lines = lines_of(whole);
    assert(lines.last() == line);
    assert(is_trailer_with_key(line, key.len() as int)) by {
        assert forall|j: int| 0 <= j < key.len() implies is_key_char(#[trigger] line[j]) by {
            assert(line[j] == key[j]);
        }
    }
    assert(is_trailer_line(line));
    assert(block_start(lines) == block_start(lines.drop_last()));
    if has_block(before) {
        assert(lines.drop_last() =~= before);
        lemma_block_start_bound(before);
        assert(lines[block_start(before) - 1] == before[block_start(before) - 1]);
    } else {
        let padded = before.push(Seq::<char>::empty());
        assert(lines_of(body + nl + Seq::<char>::empty()) =~= padded);
        assert(lines.drop_last() =~= padded);
        assert(!is_trailer_line(padded.last())) by {
            if is_trailer_line(padded.last()) {
                let m = choose|m: int| #[trigger] is_trailer_with_key(padded.last(), m);
                assert(padded.last().len() == 0);
            }
        }
        assert(block_start(padded) == padded.len());
        assert(lines[padded.len() - 1] == padded.last());
    }
    assert(has_block(lines));
    assert(key_prefix(key) =~= line.subrange(0, key_prefix(key).len() as int));
    assert(line.skip(key_prefix(key).len() as int) =~= value);
}

} // verus!
