//! What the texts underneath mean: numbers, lines and trailers.

use vstd::prelude::*;
use vstd::string::*;
use crate::exporter::ExportCandidateView;
use crate::git::GitErrorView;
use crate::index::{distinct, keyed, keys_differ, lookup};
use crate::laws::wording::{lemma_mentions, mentions};
use crate::ops::{candidate_shas, indented, resolve_or_abort_text, stderr_text};
use crate::sync_view::values_of;
use crate::text::{
    decimal_text, digit_text, join_text, lemma_lines_concat, lemma_one_line, lines_of, text_le,
    Text,
};
use crate::trailers::{
    block_start, has_block, is_key, is_key_char, is_trailer_line, is_trailer_with_key, key_prefix,
    last_value, strip_newlines, trailer_text, with_trailer,
};

verus! {

/// The number that a text of decimal digits stands for.
pub open spec fn number_of(t: Text) -> int
    decreases t.len(),
{
    if t.len() == 0 {
        0
    } else {
        number_of(t.drop_last()) * 10 + (t.last() as int - '0' as int)
    }
}

proof fn lemma_digit(d: nat)
    requires
        d < 10,
    ensures
        digit_text(d).len() == 1,
        digit_text(d)[0] as int == '0' as int + d,
{
    reveal_strlit("0");
    reveal_strlit("1");
    reveal_strlit("2");
    reveal_strlit("3");
    reveal_strlit("4");
    reveal_strlit("5");
    reveal_strlit("6");
    reveal_strlit("7");
    reveal_strlit("8");
    reveal_strlit("9");
}

/// A number in decimal reads back as that number, is made of digits alone, and has no leading
/// zero unless it is zero.
pub proof fn law_a_number_reads_back(n: nat)
    ensures
        number_of(decimal_text(n)) == n,
        decimal_text(n).len() > 0,
        forall|i: int|
            0 <= i < decimal_text(n).len() ==> '0' <= #[trigger] decimal_text(n)[i] <= '9',
        decimal_text(n)[0] == '0' ==> n == 0,
    decreases n,
{
    lemma_digit(n % 10);
    if n < 10 {
        let t = digit_text(n);
        assert(t.drop_last() =~= Seq::empty());
        assert(number_of(t.drop_last()) == 0);
        assert(t.last() == t[0]);
    } else {
        law_a_number_reads_back(n / 10);
        let t = decimal_text(n);
        assert(t.drop_last() =~= decimal_text(n / 10));
        assert(t.last() == digit_text(n % 10)[0]);
        assert forall|i: int| 0 <= i < t.len() implies '0' <= #[trigger] t[i] <= '9' by {
            if i < t.len() - 1 {
                assert(t[i] == decimal_text(n / 10)[i]);
            } else {
                assert(t[i] == digit_text(n % 10)[0]);
            }
        }
        assert(t[0] == decimal_text(n / 10)[0]);
    }
}

/// Joined lines split into the lines that they were.
pub proof fn law_joined_lines_split_again(lines: Seq<Text>)
    requires
        lines.len() > 0,
        forall|i: int| 0 <= i < lines.len() ==> !(#[trigger] lines[i]).contains('\n'),
    ensures
        lines_of(join_text(lines, "\n"@)) == lines,
    decreases lines.len(),
{
    reveal_strlit("\n");
    lemma_one_line(lines[lines.len() - 1]);
    if lines.len() == 1 {
        assert(lines =~= seq![lines[0]]);
    } else {
        let before = lines.drop_last();
        assert forall|i: int| 0 <= i < before.len() implies !(#[trigger] before[i]).contains(
            '\n',
        ) by {
            assert(before[i] == lines[i]);
        }
        law_joined_lines_split_again(before);
        lemma_lines_concat(join_text(before, "\n"@), lines.last());
        assert("\n"@ =~= seq!['\n']);
        assert(before + seq![lines.last()] =~= lines);
    }
}

/// In a list of pairs the first one with a key decides; a key that no pair has stands for nothing.
pub proof fn law_the_first_pair_decides<V>(pairs: Seq<(Text, V)>, key: Text)
    ensures
        match lookup(pairs, key) {
            Some(value) => exists|i: int|
                0 <= i < pairs.len() && (#[trigger] pairs[i]).0 == key && pairs[i].1 == value
                    && forall|j: int| 0 <= j < i ==> (#[trigger] pairs[j]).0 != key,
            None => forall|i: int| 0 <= i < pairs.len() ==> (#[trigger] pairs[i]).0 != key,
        },
    decreases pairs.len(),
{
    if pairs.len() > 0 && pairs[0].0 != key {
        let rest = pairs.drop_first();
        law_the_first_pair_decides(rest, key);
        match lookup(rest, key) {
            Some(value) => {
                let i = choose|i: int|
                    0 <= i < rest.len() && (#[trigger] rest[i]).0 == key && rest[i].1 == value
                        && forall|j: int| 0 <= j < i ==> (#[trigger] rest[j]).0 != key;
                assert(pairs[i + 1] == rest[i]);
                assert forall|j: int| 0 <= j < i + 1 implies (#[trigger] pairs[j]).0 != key by {
                    if j > 0 {
                        assert(rest[j - 1] == pairs[j]);
                    }
                }
            },
            None => {
                assert forall|i: int| 0 <= i < pairs.len() implies (#[trigger] pairs[i]).0
                    != key by {
                    if i > 0 {
                        assert(rest[i - 1] == pairs[i]);
                    }
                }
            },
        }
    }
}

// --- trailers ---

/// A text without its last newlines is that text, as far as it goes; only newlines are gone, and
/// all of them at the end are.
pub proof fn law_only_newlines_are_stripped(t: Text)
    ensures
        strip_newlines(t).len() <= t.len(),
        strip_newlines(t) == t.take(strip_newlines(t).len() as int),
        forall|i: int| strip_newlines(t).len() <= i < t.len() ==> #[trigger] t[i] == '\n',
        strip_newlines(t).len() > 0 ==> strip_newlines(t).last() != '\n',
    decreases t.len(),
{
    if t.len() > 0 && t.last() == '\n' {
        let rest = t.drop_last();
        law_only_newlines_are_stripped(rest);
        let n = strip_newlines(t).len() as int;
        assert(t.take(n) =~= rest.take(n));
        assert forall|i: int| n <= i < t.len() implies #[trigger] t[i] == '\n' by {
            if i < rest.len() {
                assert(rest[i] == t[i]);
            }
        }
    } else {
        assert(t.take(t.len() as int) =~= t);
    }
}

/// Do the lines from `start` on make up a last paragraph of trailers, with a blank line above it?
pub open spec fn is_trailer_block(lines: Seq<Text>, start: int) -> bool {
    &&& 0 < start < lines.len()
    &&& lines[start - 1].len() == 0
    &&& forall|j: int| start <= j < lines.len() ==> is_trailer_line(#[trigger] lines[j])
}

proof fn lemma_block_start(lines: Seq<Text>)
    ensures
        0 <= block_start(lines) <= lines.len(),
        forall|j: int|
            block_start(lines) <= j < lines.len() ==> is_trailer_line(#[trigger] lines[j]),
        block_start(lines) > 0 ==> !is_trailer_line(lines[block_start(lines) - 1]),
    decreases lines.len(),
{
    if lines.len() > 0 && is_trailer_line(lines.last()) {
        let before = lines.drop_last();
        lemma_block_start(before);
        assert forall|j: int| block_start(lines) <= j < lines.len() implies is_trailer_line(
            #[trigger] lines[j],
        ) by {
            if j < before.len() {
                assert(before[j] == lines[j]);
            }
        }
        if block_start(lines) > 0 {
            assert(before[block_start(lines) - 1] == lines[block_start(lines) - 1]);
        }
    }
}

proof fn lemma_last_value(lines: Seq<Text>, from: int, key: Text)
    requires
        0 <= from,
    ensures
        match last_value(lines, from, key) {
            Some(value) => exists|i: int|
                from <= i < lines.len() && #[trigger] lines[i] == key + ": "@ + value && forall|
                    j: int,
                |
                    i < j < lines.len() ==> !(key + ": "@).is_prefix_of(#[trigger] lines[j]),
            None => forall|j: int|
                from <= j < lines.len() ==> !(key + ": "@).is_prefix_of(#[trigger] lines[j]),
        },
    decreases lines.len(),
{
    if lines.len() > from {
        let n = lines.len() - 1;
        let prefix = key_prefix(key);
        if prefix.is_prefix_of(lines.last()) {
            let value = lines.last().skip(prefix.len() as int);
            assert(lines.last() =~= prefix + value) by {
                assert(prefix =~= lines.last().subrange(0, prefix.len() as int));
            }
            assert(lines[n] == key + ": "@ + value);
        } else {
            let before = lines.drop_last();
            lemma_last_value(before, from, key);
            match last_value(before, from, key) {
                Some(value) => {
                    let i = choose|i: int|
                        from <= i < before.len() && #[trigger] before[i] == key + ": "@ + value
                            && forall|j: int|
                            i < j < before.len() ==> !(key + ": "@).is_prefix_of(
                                #[trigger] before[j],
                            );
                    assert(lines[i] == key + ": "@ + value);
                    assert forall|j: int| i < j < lines.len() implies !(key
                        + ": "@).is_prefix_of(#[trigger] lines[j]) by {
                        if j < before.len() {
                            assert(before[j] == lines[j]);
                        }
                    }
                },
                None => {
                    assert forall|j: int| from <= j < lines.len() implies !(key
                        + ": "@).is_prefix_of(#[trigger] lines[j]) by {
                        if j < before.len() {
                            assert(before[j] == lines[j]);
                        }
                    }
                },
            }
        }
    }
}

/// A trailer stands in the last paragraph, where that is made of trailers and is not the only
/// paragraph; of two with one key the last one counts. Elsewhere there is none.
pub proof fn law_a_trailer_stands_in_the_last_paragraph(message: Text, key: Text, start: int)
    ensures
        ({
            let lines = lines_of(strip_newlines(message));
            &&& trailer_text(message, key) matches Some(value) ==> exists|s: int, i: int|
                #[trigger] is_trailer_block(lines, s) && s <= i < lines.len() && #[trigger] lines[i]
                    == key + ": "@ + value && forall|j: int|
                    i < j < lines.len() ==> !(key + ": "@).is_prefix_of(#[trigger] lines[j])
            &&& is_trailer_block(lines, start) && trailer_text(message, key) is None ==> forall|
                j: int,
            |
                start <= j < lines.len() ==> !(key + ": "@).is_prefix_of(#[trigger] lines[j])
        }),
{
    let lines = lines_of(strip_newlines(message));
    let from = block_start(lines);
    lemma_block_start(lines);
    if has_block(lines) {
        lemma_last_value(lines, from, key);
        assert(is_trailer_block(lines, from));
    }
    if is_trailer_block(lines, start) {
        assert(!is_trailer_line(lines[start - 1]));
        if from < start - 1 || from == start - 1 {
            assert(is_trailer_line(lines[start - 1]));
        }
        if from > start {
            assert(is_trailer_line(lines[from - 1]));
        }
        assert(from == start);
    }
}

/// A trailer joins the last paragraph where that is made of trailers already, and starts one of its
/// own where it is not; whatever stood there before stays.
pub proof fn law_a_trailer_joins_the_trailers(message: Text, key: Text, value: Text, start: int)
    ensures
        ({
            let body = strip_newlines(message);
            let line = key + ": "@ + value + "\n"@;
            &&& is_trailer_block(lines_of(body), start) ==> with_trailer(message, key, value)
                == body + "\n"@ + line
            &&& (forall|s: int| !#[trigger] is_trailer_block(lines_of(body), s)) ==> with_trailer(
                message,
                key,
                value,
            ) == body + "\n\n"@ + line
        }),
{
    let body = strip_newlines(message);
    let lines = lines_of(body);
    let line = key + ": "@ + value + "\n"@;
    lemma_block_start(lines);
    assert(body + "\n"@ + line =~= body + "\n"@ + key_prefix(key) + value + "\n"@);
    assert(body + "\n\n"@ + line =~= body + "\n\n"@ + key_prefix(key) + value + "\n"@);
    let from = block_start(lines);
    if has_block(lines) {
        assert(is_trailer_block(lines, from));
    }
    if is_trailer_block(lines, start) {
        if from < start {
            assert(is_trailer_line(lines[start - 1]));
        }
        if from > start {
            assert(is_trailer_line(lines[from - 1]));
        }
        assert(from == start);
    }
}

/// A key, a colon, a space and a value make a trailer line; and every trailer line is made so.
pub proof fn law_a_trailer_line_has_a_key(line: Text, key: Text, value: Text)
    ensures
        is_key(key) ==> is_trailer_line(key + ": "@ + value),
        is_trailer_line(line) ==> exists|n: int|
            0 < n < line.len() - 1 && is_key(#[trigger] line.take(n)) && line[n] == ':' && line[n
                + 1] == ' ',
        forall|i: int| 0 <= i < key.len() && is_key(key) ==> {
            let c = #[trigger] key[i];
            'a' <= c <= 'z' || 'A' <= c <= 'Z' || '0' <= c <= '9' || c == '-'
        },
{
    reveal_strlit(": ");
    if is_key(key) {
        let made = key + ": "@ + value;
        let n = key.len() as int;
        assert(made[n] == ':');
        assert(made[n + 1] == ' ');
        assert forall|j: int| 0 <= j < n implies is_key_char(#[trigger] made[j]) by {
            assert(made[j] == key[j]);
        }
        assert(is_trailer_with_key(made, n));
        assert forall|i: int| 0 <= i < key.len() implies {
            let c = #[trigger] key[i];
            'a' <= c <= 'z' || 'A' <= c <= 'Z' || '0' <= c <= '9' || c == '-'
        } by {
            assert(is_key_char(key[i]));
        }
    }
    if is_trailer_line(line) {
        let n = choose|n: int| #[trigger] is_trailer_with_key(line, n);
        let head = line.take(n);
        assert forall|j: int| 0 <= j < head.len() implies is_key_char(#[trigger] head[j]) by {
            assert(head[j] == line[j]);
        }
        assert(is_key(line.take(n)));
    }
}

// --- lists ---

/// What a commit's trailers name is what its first pair says, in that order; nothing without one.
pub proof fn law_the_values_are_those_of_the_first_pair(
    pairs: Seq<(Text, Seq<Text>)>,
    sha: Text,
    i: int,
)
    ensures
        0 <= i < pairs.len() && pairs[i].0 == sha && (forall|j: int|
            0 <= j < i ==> (#[trigger] pairs[j]).0 != sha) ==> values_of(pairs, sha) == pairs[i].1,
        (forall|j: int| 0 <= j < pairs.len() ==> (#[trigger] pairs[j]).0 != sha) ==> values_of(
            pairs,
            sha,
        ).len() == 0,
{
    law_the_first_pair_decides(pairs, sha);
    if let Some(value) = lookup(pairs, sha) {
        let k = choose|k: int|
            0 <= k < pairs.len() && (#[trigger] pairs[k]).0 == sha && pairs[k].1 == value && forall|
                j: int,
            |
                0 <= j < k ==> (#[trigger] pairs[j]).0 != sha;
        if 0 <= i < pairs.len() && pairs[i].0 == sha && (forall|j: int|
            0 <= j < i ==> (#[trigger] pairs[j]).0 != sha) {
            if k < i {
                assert(pairs[k].0 != sha);
            }
            if i < k {
                assert(pairs[i].0 != sha);
            }
        }
    }
}

/// A list without duplicates stays as it is when they are taken out.
pub proof fn law_distinct_items_stay(items: Seq<Text>)
    requires
        items.no_duplicates(),
    ensures
        distinct(items) == items,
    decreases items.len(),
{
    if items.len() > 0 {
        let before = items.drop_last();
        assert forall|i: int, j: int|
            0 <= i < before.len() && 0 <= j < before.len() && i != j implies before[i]
            != before[j] by {
            assert(items[i] != items[j]);
        }
        law_distinct_items_stay(before);
        assert(!before.contains(items.last())) by {
            if before.contains(items.last()) {
                let i = choose|i: int| 0 <= i < before.len() && before[i] == items.last();
                assert(items[i] == items[items.len() - 1]);
            }
        }
        assert(before.push(items.last()) =~= items);
    } else {
        assert(distinct(items) =~= items);
    }
}

/// A list in which no key occurs twice stays as it is when it is keyed.
pub proof fn law_differing_keys_stay<V>(pairs: Seq<(Text, V)>)
    requires
        keys_differ(pairs),
    ensures
        keyed(pairs) == pairs,
    decreases pairs.len(),
{
    if pairs.len() > 0 {
        let before = pairs.drop_last();
        let last = pairs.last();
        assert forall|i: int, j: int| 0 <= i < j < before.len() implies (#[trigger] before[i]).0
            != (#[trigger] before[j]).0 by {
            assert(pairs[i].0 != pairs[j].0);
        }
        law_differing_keys_stay(before);
        law_the_first_pair_decides(before, last.0);
        if lookup(before, last.0) is Some {
            let i = choose|i: int| 0 <= i < before.len() && (#[trigger] before[i]).0 == last.0;
            assert(pairs[i].0 == pairs[pairs.len() - 1].0);
        }
        assert(before.push(last) =~= pairs);
    } else {
        assert(keyed(pairs) =~= pairs);
    }
}

/// The commits of candidates are theirs, one for each, in their order.
pub proof fn law_candidates_are_commits(candidates: Seq<ExportCandidateView>, i: int)
    ensures
        candidate_shas(candidates).len() == candidates.len(),
        0 <= i < candidates.len() ==> candidate_shas(candidates)[i] == candidates[i].mono_sha,
{
}

/// Of two texts, the one with the smaller character at the first difference comes first, and a
/// beginning comes before what it begins.
pub proof fn law_the_first_difference_decides(
    start: Text,
    c: char,
    d: char,
    one: Text,
    two: Text,
)
    requires
        c != d,
    ensures
        text_le(start + seq![c] + one, start + seq![d] + two) <==> (c as int) < (d as int),
        text_le(start, start + one),
        one.len() > 0 ==> !text_le(start + one, start),
    decreases start.len(),
{
    let a = start + seq![c] + one;
    let b = start + seq![d] + two;
    if start.len() == 0 {
        assert(a[0] == c);
        assert(b[0] == d);
        assert(start + one =~= one);
    } else {
        let rest = start.drop_first();
        law_the_first_difference_decides(rest, c, d, one, two);
        assert(a.drop_first() =~= rest + seq![c] + one);
        assert(b.drop_first() =~= rest + seq![d] + two);
        assert((start + one).drop_first() =~= rest + one);
        assert(a[0] == b[0]);
        assert((start + one)[0] == start[0]);
    }
}

// --- what git says ---

/// What git said is shown without the newline at its end, and without the carriage return before
/// that.
pub proof fn law_the_last_line_end_goes(err: GitErrorView, said: Text)
    requires
        said.len() > 0 ==> said.last() != '\n' && said.last() != '\r',
    ensures
        stderr_text(GitErrorView { stderr: said, ..err }) == said,
        stderr_text(GitErrorView { stderr: said + seq!['\n'], ..err }) == said,
        stderr_text(GitErrorView { stderr: said + seq!['\r', '\n'], ..err }) == said,
{
    assert((said + seq!['\n']).drop_last() =~= said);
    assert((said + seq!['\r', '\n']).drop_last() =~= said + seq!['\r']);
    assert((said + seq!['\r']).drop_last() =~= said);
}

/// An exit code is shown as the number that it is.
pub proof fn law_an_exit_code_is_a_number(err: GitErrorView)
    ensures
        match err.exit_code {
            None => err.code_text() == "undefined"@,
            Some(code) => if code >= 0 {
                number_of(err.code_text()) == code
            } else {
                err.code_text().len() > 1 && err.code_text()[0] == '-' && number_of(
                    err.code_text().skip(1),
                ) == -code
            },
        },
{
    reveal_strlit("-");
    if let Some(code) = err.exit_code {
        if code >= 0 {
            law_a_number_reads_back(code as nat);
        } else {
            law_a_number_reads_back((-code) as nat);
            assert(err.code_text().skip(1) =~= decimal_text((-code) as nat));
        }
    }
}

/// The way out of a conflict is the command that it was given, or the one of a pull.
pub proof fn law_the_way_on_is_shown(command: Text, lines: Seq<Text>, i: int)
    ensures
        mentions(resolve_or_abort_text(Some(command)), "  "@ + command),
        resolve_or_abort_text(None) == resolve_or_abort_text(Some("monosplice pull --continue"@)),
        indented(lines).len() == lines.len(),
        0 <= i < lines.len() ==> indented(lines)[i] == "  "@ + lines[i],
{
    lemma_mentions(
        resolve_or_abort_text(Some(command)),
        Seq::empty(),
        "  "@ + command,
        "\nTo abandon the import instead, restoring the monorepo to its pre-pull state:\n  monosplice pull --abort"@,
    );
}

} // verus!
