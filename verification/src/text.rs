//! Text as the messages need it: decimal numbers, joined and split lines, trimming and the
//! order in which a report lists shas.

use vstd::prelude::*;
use vstd::string::*;

verus! {

/// The mathematical value of a string: its characters.
pub type Text = Seq<char>;

/// The value of an optional text.
pub open spec fn opt_text(text: Option<&str>) -> Option<Text> {
    match text {
        Some(text) => Some(text@),
        None => None,
    }
}

/// One decimal digit.
pub open spec fn digit_text(d: nat) -> Text {
    if d == 0 {
        "0"@
    } else if d == 1 {
        "1"@
    } else if d == 2 {
        "2"@
    } else if d == 3 {
        "3"@
    } else if d == 4 {
        "4"@
    } else if d == 5 {
        "5"@
    } else if d == 6 {
        "6"@
    } else if d == 7 {
        "7"@
    } else if d == 8 {
        "8"@
    } else {
        "9"@
    }
}

/// A natural number in decimal, without leading zeros.
pub open spec fn decimal_text(n: nat) -> Text
    decreases n,
{
    if n < 10 {
        digit_text(n)
    } else {
        decimal_text(n / 10) + digit_text(n % 10)
    }
}

/// An integer in decimal, with a minus sign in front of a negative one.
pub open spec fn signed_text(n: int) -> Text {
    if n < 0 {
        "-"@ + decimal_text((-n) as nat)
    } else {
        decimal_text(n as nat)
    }
}

fn digit(d: u64) -> (out: String)
    requires
        d < 10,
    ensures
        out@ == digit_text(d as nat),
{
    if d == 0 {
        "0".to_string()
    } else if d == 1 {
        "1".to_string()
    } else if d == 2 {
        "2".to_string()
    } else if d == 3 {
        "3".to_string()
    } else if d == 4 {
        "4".to_string()
    } else if d == 5 {
        "5".to_string()
    } else if d == 6 {
        "6".to_string()
    } else if d == 7 {
        "7".to_string()
    } else if d == 8 {
        "8".to_string()
    } else {
        "9".to_string()
    }
}

/// `n` in decimal.
pub fn decimal(n: u64) -> (out: String)
    ensures
        out@ == decimal_text(n as nat),
    decreases n,
{
    if n < 10 {
        digit(n)
    } else {
        let head = decimal(n / 10);
        let last = digit(n % 10);
        head.concat(last.as_str())
    }
}

/// `n` in decimal, signed.
pub fn signed_decimal(n: i32) -> (out: String)
    ensures
        out@ == signed_text(n as int),
{
    let wide: i64 = n as i64;
    if wide < 0 {
        let digits = decimal((-wide) as u64);
        "-".to_string().concat(digits.as_str())
    } else {
        decimal(wide as u64)
    }
}

/// The parts, one after the other, with `sep` between neighbours.
pub open spec fn join_text(parts: Seq<Text>, sep: Text) -> Text
    decreases parts.len(),
{
    if parts.len() == 0 {
        Seq::empty()
    } else if parts.len() == 1 {
        parts[0]
    } else {
        join_text(parts.drop_last(), sep) + sep + parts.last()
    }
}

/// Join `parts` with `sep`.
pub fn join(parts: &Vec<String>, sep: &str) -> (out: String)
    ensures
        out@ == join_text(parts.deep_view(), sep@),
{
    let ghost all = parts.deep_view();
    let mut out = String::new();
    let mut i: usize = 0;
    assert(all.take(0) =~= Seq::<Text>::empty());
    while i < parts.len()
        invariant
            i <= parts.len(),
            all == parts.deep_view(),
            out@ == join_text(all.take(i as int), sep@),
        decreases parts.len() - i,
    {
        proof {
            assert(all.take(i + 1).drop_last() =~= all.take(i as int));
        }
        if i > 0 {
            out.append(sep);
            out.append(parts[i].as_str());
        } else {
            assert(all.take(1)[0] == all[0]);
            out = parts[i].clone();
        }
        i = i + 1;
    }
    assert(all.take(i as int) =~= all);
    out
}

/// The pieces of `t` between newlines. There is one more piece than there are newlines.
pub open spec fn lines_of(t: Text) -> Seq<Text>
    decreases t.len(),
{
    if t.len() == 0 {
        seq![Seq::empty()]
    } else {
        let before = lines_of(t.drop_last());
        if t.last() == '\n' {
            before.push(Seq::empty())
        } else {
            before.drop_last().push(before.last().push(t.last()))
        }
    }
}

/// Every text has at least one line.
pub proof fn lemma_lines_nonempty(t: Text)
    ensures
        lines_of(t).len() > 0,
    decreases t.len(),
{
    if t.len() > 0 {
        lemma_lines_nonempty(t.drop_last());
    }
}

/// A text without a newline is its own only line.
pub proof fn lemma_one_line(t: Text)
    requires
        !t.contains('\n'),
    ensures
        lines_of(t) == seq![t],
    decreases t.len(),
{
    if t.len() > 0 {
        assert forall|i: int| 0 <= i < t.drop_last().len() implies t.drop_last()[i] != '\n' by {
            assert(t[i] == t.drop_last()[i]);
        }
        lemma_one_line(t.drop_last());
        assert(t.last() == t[t.len() - 1]);
        assert(t.drop_last().push(t.last()) =~= t);
        assert(lines_of(t) =~= seq![t]);
    } else {
        assert(t =~= Seq::empty());
    }
}

/// Splitting a text at one of its newlines splits its lines there.
pub proof fn lemma_lines_concat(a: Text, b: Text)
    ensures
        lines_of(a + seq!['\n'] + b) == lines_of(a) + lines_of(b),
    decreases b.len(),
{
    let whole = a + seq!['\n'] + b;
    if b.len() == 0 {
        assert(whole.drop_last() =~= a);
        assert(whole.last() == '\n');
        assert(b =~= Seq::empty());
        assert(lines_of(whole) =~= lines_of(a) + lines_of(b));
    } else {
        lemma_lines_concat(a, b.drop_last());
        lemma_lines_nonempty(b.drop_last());
        assert(whole.drop_last() =~= a + seq!['\n'] + b.drop_last());
        assert(whole.last() == b.last());
        let la = lines_of(a);
        let lb = lines_of(b.drop_last());
        assert((la + lb).last() == lb.last());
        assert((la + lb).drop_last() =~= la + lb.drop_last());
        assert(lines_of(whole) =~= la + lines_of(b));
    }
}

/// The characters of `s`.
pub fn chars_of(s: &str) -> (out: Vec<char>)
    ensures
        out@ == s@,
{
    let mut out: Vec<char> = Vec::new();
    for c in it: s.chars()
        invariant
            it.seq() == s@,
            out@ == s@.take(it.index() as int),
    {
        out.push(c);
        assert(s@.take(it.index() as int + 1) =~= s@.take(it.index() as int).push(c));
    }
    assert(s@.take(s@.len() as int) =~= s@);
    out
}

/// Split `s` at its newlines.
pub fn split_lines(s: &str) -> (out: Vec<String>)
    ensures
        out.deep_view() == lines_of(s@),
{
    let cs = chars_of(s);
    let mut out: Vec<String> = Vec::new();
    let mut start: usize = 0;
    let mut i: usize = 0;
    proof {
        let none: Text = Seq::empty();
        assert(s@.take(0) =~= none);
        assert(s@.subrange(0, 0) =~= none);
        assert(out.deep_view().push(s@.subrange(0, 0)) =~= lines_of(s@.take(0)));
    }
    while i < cs.len()
        invariant
            cs@ == s@,
            start <= i <= cs.len(),
            lines_of(s@.take(i as int)) == out.deep_view().push(s@.subrange(start as int, i as int)),
        decreases cs.len() - i,
    {
        proof {
            assert(s@.take(i + 1).drop_last() =~= s@.take(i as int));
        }
        let ghost done = out.deep_view();
        if cs[i] == '\n' {
            let piece = s.substring_char(start, i).to_string();
            out.push(piece);
            assert(out.deep_view() =~= done.push(s@.subrange(start as int, i as int)));
            start = i + 1;
            proof {
                assert(s@.subrange(start as int, i + 1) =~= Seq::empty());
            }
        } else {
            proof {
                let cur = s@.subrange(start as int, i as int);
                assert(done.push(cur).drop_last() =~= done);
                assert(cur.push(s@[i as int]) =~= s@.subrange(start as int, i + 1));
            }
        }
        i = i + 1;
    }
    assert(s@.take(i as int) =~= s@);
    let ghost done = out.deep_view();
    out.push(s.substring_char(start, i).to_string());
    assert(out.deep_view() =~= done.push(s@.subrange(start as int, i as int)));
    out
}

/// Unicode's `White_Space` property.
pub open spec fn is_white(c: char) -> bool {
    let u = c as u32;
    ||| 0x9 <= u <= 0xd
    ||| u == 0x20
    ||| u == 0x85
    ||| u == 0xa0
    ||| u == 0x1680
    ||| 0x2000 <= u <= 0x200a
    ||| u == 0x2028
    ||| u == 0x2029
    ||| u == 0x202f
    ||| u == 0x205f
    ||| u == 0x3000
}

fn white(c: char) -> (out: bool)
    ensures
        out == is_white(c),
{
    let u: u32 = c as u32;
    (u >= 0x9 && u <= 0xd) || u == 0x20 || u == 0x85 || u == 0xa0 || u == 0x1680 || (u >= 0x2000
        && u <= 0x200a) || u == 0x2028 || u == 0x2029 || u == 0x202f || u == 0x205f || u == 0x3000
}

/// `t` without the whitespace at its end.
pub open spec fn trim_end_text(t: Text) -> Text
    decreases t.len(),
{
    if t.len() > 0 && is_white(t.last()) {
        trim_end_text(t.drop_last())
    } else {
        t
    }
}

/// `t` without the whitespace at its start.
pub open spec fn trim_start_text(t: Text) -> Text
    decreases t.len(),
{
    if t.len() > 0 && is_white(t[0]) {
        trim_start_text(t.drop_first())
    } else {
        t
    }
}

/// Drop the whitespace at the end of `s`.
pub fn trim_end<'a>(s: &'a str) -> (out: &'a str)
    ensures
        out@ == trim_end_text(s@),
{
    let cs = chars_of(s);
    let mut end: usize = cs.len();
    assert(s@.take(end as int) =~= s@);
    while end > 0 && white(cs[end - 1])
        invariant
            cs@ == s@,
            end <= cs.len(),
            trim_end_text(s@) == trim_end_text(s@.take(end as int)),
        decreases end,
    {
        assert(s@.take(end as int).drop_last() =~= s@.take(end - 1));
        end = end - 1;
    }
    assert(s@.take(end as int) =~= s@.subrange(0, end as int));
    s.substring_char(0, end)
}

/// Drop the whitespace at both ends of `s`.
pub fn trim<'a>(s: &'a str) -> (out: &'a str)
    ensures
        out@ == trim_start_text(trim_end_text(s@)),
{
    let kept = trim_end(s);
    let cs = chars_of(kept);
    let mut start: usize = 0;
    assert(kept@.skip(0) =~= kept@);
    while start < cs.len() && white(cs[start])
        invariant
            cs@ == kept@,
            start <= cs.len(),
            trim_start_text(kept@) == trim_start_text(kept@.skip(start as int)),
        decreases cs.len() - start,
    {
        assert(kept@.skip(start as int).drop_first() =~= kept@.skip(start + 1));
        start = start + 1;
    }
    assert(kept@.skip(start as int) =~= kept@.subrange(start as int, kept@.len() as int));
    kept.substring_char(start, cs.len())
}

/// Lexicographic order by code point.
pub open spec fn text_le(a: Text, b: Text) -> bool
    decreases a.len(),
{
    ||| a.len() == 0
    ||| b.len() > 0 && (a[0] as int) < (b[0] as int)
    ||| b.len() > 0 && a[0] == b[0] && text_le(a.drop_first(), b.drop_first())
}

/// Any two texts can be ordered.
pub proof fn lemma_text_le_total(a: Text, b: Text)
    ensures
        text_le(a, b) || text_le(b, a),
    decreases a.len(),
{
    if a.len() > 0 && b.len() > 0 && a[0] == b[0] {
        lemma_text_le_total(a.drop_first(), b.drop_first());
    }
}

/// The order is transitive.
pub proof fn lemma_text_le_trans(a: Text, b: Text, c: Text)
    requires
        text_le(a, b),
        text_le(b, c),
    ensures
        text_le(a, c),
    decreases a.len(),
{
    if a.len() > 0 && b.len() > 0 && c.len() > 0 && a[0] == b[0] && b[0] == c[0] {
        lemma_text_le_trans(a.drop_first(), b.drop_first(), c.drop_first());
    }
}

/// Texts that are in order both ways are the same.
pub proof fn lemma_text_le_antisymmetric(a: Text, b: Text)
    requires
        text_le(a, b),
        text_le(b, a),
    ensures
        a == b,
    decreases a.len(),
{
    if a.len() > 0 && b.len() > 0 {
        lemma_text_le_antisymmetric(a.drop_first(), b.drop_first());
        assert(a =~= seq![a[0]] + a.drop_first());
        assert(b =~= seq![b[0]] + b.drop_first());
    } else {
        assert(a =~= b);
    }
}

fn le(a: &String, b: &String) -> (out: bool)
    ensures
        out == text_le(a@, b@),
{
    let x = chars_of(a.as_str());
    let y = chars_of(b.as_str());
    let mut i: usize = 0;
    assert(a@.skip(0) =~= a@);
    assert(b@.skip(0) =~= b@);
    while i < x.len()
        invariant
            x@ == a@,
            y@ == b@,
            i <= x.len(),
            i <= y.len(),
            text_le(a@, b@) == text_le(a@.skip(i as int), b@.skip(i as int)),
        decreases x.len() - i,
    {
        if i >= y.len() {
            return false;
        }
        if x[i] < y[i] {
            return true;
        }
        if y[i] < x[i] {
            return false;
        }
        assert(a@.skip(i as int).drop_first() =~= a@.skip(i + 1));
        assert(b@.skip(i as int).drop_first() =~= b@.skip(i + 1));
        i = i + 1;
    }
    true
}

/// Is every text at most the ones after it?
pub open spec fn sorted_texts(s: Seq<Text>) -> bool {
    forall|i: int, j: int| 0 <= i <= j < s.len() ==> text_le(#[trigger] s[i], #[trigger] s[j])
}

/// Texts put in order.
pub open spec fn in_order(s: Seq<Text>) -> Seq<Text> {
    s.sort_by(|a: Text, b: Text| text_le(a, b))
}

/// Texts put in order are in order, and the same texts; and there is only one such list.
pub proof fn lemma_in_order(s: Seq<Text>, sorted: Seq<Text>)
    ensures
        sorted_texts(in_order(s)),
        in_order(s).to_multiset() == s.to_multiset(),
        sorted_texts(sorted) && sorted.to_multiset() == s.to_multiset() ==> sorted == in_order(s),
{
    let leq = |a: Text, b: Text| text_le(a, b);
    assert forall|a: Text, b: Text| text_le(a, b) || text_le(b, a) by {
        lemma_text_le_total(a, b);
    }
    assert forall|a: Text, b: Text, c: Text| text_le(a, b) && text_le(b, c) implies text_le(
        a,
        c,
    ) by {
        lemma_text_le_trans(a, b, c);
    }
    assert forall|a: Text, b: Text| text_le(a, b) && text_le(b, a) implies a == b by {
        lemma_text_le_antisymmetric(a, b);
    }
    assert(vstd::relations::total_ordering(leq));
    s.lemma_sort_by_ensures(leq);
    let out = in_order(s);
    assert forall|i: int, j: int| 0 <= i <= j < out.len() implies text_le(
        #[trigger] out[i],
        #[trigger] out[j],
    ) by {
        if i < j {
            assert(leq(out[i], out[j]));
        } else {
            lemma_text_le_total(out[i], out[j]);
        }
    }
    if sorted_texts(sorted) && sorted.to_multiset() == s.to_multiset() {
        assert(vstd::relations::sorted_by(sorted, leq));
        vstd::seq_lib::lemma_sorted_unique(sorted, out, leq);
    }
}

fn insert_sorted(sorted: &mut Vec<String>, item: String)
    requires
        sorted_texts(old(sorted).deep_view()),
    ensures
        sorted_texts(final(sorted).deep_view()),
        final(sorted).deep_view().to_multiset() == old(sorted).deep_view().to_multiset().insert(
            item@,
        ),
{
    let ghost before = sorted.deep_view();
    let ghost x = item@;
    let mut at: usize = sorted.len();
    while at > 0 && !le(&sorted[at - 1], &item)
        invariant
            at <= sorted.len(),
            sorted.deep_view() == before,
            x == item@,
            sorted_texts(before),
            forall|k: int| at <= k < before.len() ==> !text_le(#[trigger] before[k], x),
        decreases at,
    {
        at = at - 1;
    }
    sorted.insert(at, item);
    proof {
        let after = sorted.deep_view();
        assert(after =~= before.insert(at as int, x));
        before.insert_ensures(at as int, x);
        vstd::seq_lib::to_multiset_insert(before, at as int, x);
        assert forall|i: int, j: int| 0 <= i <= j < after.len() implies text_le(
            #[trigger] after[i],
            #[trigger] after[j],
        ) by {
            lemma_text_le_total(after[i], after[j]);
            if i < at && j == at {
                lemma_text_le_trans(before[i], before[at - 1], x);
            } else if i == at && j > at {
                lemma_text_le_total(before[j - 1], x);
            } else if i < at && j < at {
                assert(text_le(before[i], before[j]));
            } else if i < at && j > at {
                assert(text_le(before[i], before[j - 1]));
            } else if i > at {
                assert(text_le(before[i - 1], before[j - 1]));
            }
        }
    }
}

/// The same texts in order.
pub fn sort_texts(items: Vec<String>) -> (out: Vec<String>)
    ensures
        out.deep_view() == in_order(items.deep_view()),
{
    let ghost all = items.deep_view();
    let mut out: Vec<String> = Vec::new();
    let mut i: usize = 0;
    assert(out.deep_view() =~= all.take(0));
    while i < items.len()
        invariant
            i <= items.len(),
            all == items.deep_view(),
            sorted_texts(out.deep_view()),
            out.deep_view().to_multiset() == all.take(i as int).to_multiset(),
        decreases items.len() - i,
    {
        proof {
            assert(all.take(i + 1) =~= all.take(i as int).push(all[i as int]));
            vstd::seq_lib::to_multiset_build(all.take(i as int), all[i as int]);
        }
        insert_sorted(&mut out, items[i].clone());
        i = i + 1;
    }
    proof {
        assert(all.take(i as int) =~= all);
        lemma_in_order(all, out.deep_view());
    }
    out
}

/// `t` without its last character, if that is `c`.
pub open spec fn strip_last_text(t: Text, c: char) -> Text {
    if t.len() > 0 && t.last() == c {
        t.drop_last()
    } else {
        t
    }
}

/// `s` without its last character, if that is `c`.
pub fn strip_last<'a>(s: &'a str, c: char) -> (out: &'a str)
    ensures
        out@ == strip_last_text(s@, c),
{
    let cs = chars_of(s);
    if cs.len() > 0 && cs[cs.len() - 1] == c {
        s.substring_char(0, cs.len() - 1)
    } else {
        s
    }
}

} // verus!
