//! The lines of a text.
use crate::text::chars_of;
use vstd::prelude::*;

verus! {

/// How often `c` occurs in `s`.
pub open spec fn count_char(s: Seq<char>, c: char) -> nat
    decreases s.len(),
{
    if s.len() == 0 {
        0
    } else {
        count_char(s.drop_last(), c) + if s.last() == c {
            1nat
        } else {
            0nat
        }
    }
}

/// The number of lines of `s`: one for each line feed, and one more for a
/// last line that no line feed closes.
pub open spec fn line_count(s: Seq<char>) -> nat {
    count_char(s, '\n') + if s.len() > 0 && s.last() != '\n' {
        1nat
    } else {
        0nat
    }
}

/// The index of the first line feed of `s` from `i` on, or the length of
/// `s` where there is none.
pub open spec fn line_end(s: Seq<char>, i: int) -> int
    decreases s.len() - i,
{
    if 0 <= i < s.len() && s[i] != '\n' {
        line_end(s, i + 1)
    } else {
        i
    }
}

/// A line as it is read: without the carriage return that stands right
/// before its line feed.
pub open spec fn without_return(line: Seq<char>) -> Seq<char> {
    if line.len() > 0 && line.last() == '\r' {
        line.drop_last()
    } else {
        line
    }
}

/// The lines of `s` from offset `i` on. A line ends at a line feed, or at a
/// carriage return and a line feed; the last line need not end at all.
pub open spec fn lines_from(s: Seq<char>, i: int) -> Seq<Seq<char>>
    decreases s.len() - i,
{
    if i < 0 || i >= s.len() {
        Seq::empty()
    } else {
        let e = line_end(s, i);
        proof {
            lemma_line_end(s, i);
        }
        if e < s.len() {
            seq![without_return(s.subrange(i, e))] + lines_from(s, e + 1)
        } else {
            seq![s.subrange(i, e)]
        }
    }
}

/// The lines of `s`.
pub open spec fn lines(s: Seq<char>) -> Seq<Seq<char>> {
    lines_from(s, 0)
}

/// The number of lines of `s`.
pub fn count_lines(s: &str) -> (r: usize)
    ensures
        r == line_count(s@),
{
    let v = chars_of(s);
    let n = v.len();
    let mut count: usize = 0;
    let mut i: usize = 0;
    while i < n
        invariant
            n == v.len(),
            v@ == s@,
            i <= n,
            count == count_char(s@.take(i as int), '\n'),
            count <= i,
            i > 0 && s@[i - 1] != '\n' ==> count < i,
        decreases n - i,
    {
        proof {
            assert(s@.take(i + 1).drop_last() =~= s@.take(i as int));
        }
        if v[i] == '\n' {
            count += 1;
        }
        i += 1;
    }
    assert(s@.take(n as int) =~= s@);
    if n > 0 && v[n - 1] != '\n' {
        count += 1;
    }
    count
}

/// The lines of `s`.
pub fn split_lines(s: &str) -> (r: Vec<String>)
    ensures
        r.deep_view() == lines(s@),
        r.len() == line_count(s@),
{
    proof {
        law_line_count_counts_the_lines(s@);
    }
    let v = chars_of(s);
    let n = v.len();
    let mut out: Vec<String> = Vec::new();
    let mut i: usize = 0;
    assert(out.deep_view() + lines_from(s@, 0) =~= lines(s@));
    while i < n
        invariant
            n == v.len(),
            v@ == s@,
            i <= n,
            lines(s@) == out.deep_view() + lines_from(s@, i as int),
        decreases n - i,
    {
        let start = i;
        while i < n && v[i] != '\n'
            invariant
                n == v.len(),
                v@ == s@,
                start <= i <= n,
                line_end(s@, i as int) == line_end(s@, start as int),
            decreases n - i,
        {
            i += 1;
        }
        assert(line_end(s@, i as int) == i);
        let ghost before = out.deep_view();
        if i < n {
            let stop = if i > start && v[i - 1] == '\r' {
                i - 1
            } else {
                i
            };
            let line = s.substring_char(start, stop).to_owned();
            out.push(line);
            proof {
                let whole = s@.subrange(start as int, i as int);
                if i > start {
                    assert(whole.last() == s@[i - 1]);
                }
                assert(line@ =~= without_return(whole));
                let rest = lines_from(s@, i + 1);
                assert(out.deep_view() =~= before.push(line@));
                assert(before + (seq![line@] + rest) =~= before.push(line@) + rest);
            }
            i += 1;
        } else {
            let line = s.substring_char(start, i).to_owned();
            out.push(line);
            proof {
                assert(out.deep_view() =~= before.push(line@));
                assert(before + seq![line@] =~= before.push(line@) + lines_from(s@, n as int));
            }
        }
    }
    assert(out.deep_view() + lines_from(s@, n as int) =~= out.deep_view());
    out
}

pub proof fn lemma_line_end(s: Seq<char>, i: int)
    requires
        0 <= i <= s.len(),
    ensures
        i <= line_end(s, i) <= s.len(),
        forall|k: int| i <= k < line_end(s, i) ==> #[trigger] s[k] != '\n',
        line_end(s, i) < s.len() ==> s[line_end(s, i)] == '\n',
    decreases s.len() - i,
{
    if i < s.len() && s[i] != '\n' {
        lemma_line_end(s, i + 1);
    }
}

/// A character occurs in a text as often as in its two parts together.
pub proof fn lemma_count_char_add(a: Seq<char>, b: Seq<char>, c: char)
    ensures
        count_char(a + b, c) == count_char(a, c) + count_char(b, c),
    decreases b.len(),
{
    if b.len() == 0 {
        assert(a + b =~= a);
    } else {
        assert((a + b).drop_last() =~= a + b.drop_last());
        assert((a + b).last() == b.last());
        lemma_count_char_add(a, b.drop_last(), c);
    }
}

/// A text without the character `c` holds it no times.
pub proof fn lemma_count_char_none(a: Seq<char>, c: char)
    requires
        forall|k: int| 0 <= k < a.len() ==> #[trigger] a[k] != c,
    ensures
        count_char(a, c) == 0,
    decreases a.len(),
{
    if a.len() > 0 {
        let front = a.drop_last();
        assert forall|k: int| 0 <= k < front.len() implies #[trigger] front[k] != c by {
            assert(front[k] == a[k]);
        }
        lemma_count_char_none(front, c);
        assert(a.last() == a[a.len() - 1]);
    }
}

/// `line_count` is the number of `lines`: counting the lines of a text and
/// splitting it into lines agree.
pub proof fn law_line_count_counts_the_lines(s: Seq<char>)
    ensures
        lines(s).len() == line_count(s),
{
    lemma_lines_from_len(s, 0);
    assert(s.skip(0) =~= s);
}

/// From any offset on, a text has as many lines as `line_count` says of
/// what follows the offset.
pub proof fn lemma_lines_from_len(s: Seq<char>, i: int)
    requires
        0 <= i <= s.len(),
    ensures
        lines_from(s, i).len() == line_count(s.skip(i)),
    decreases s.len() - i,
{
    if i < s.len() {
        let e = line_end(s, i);
        lemma_line_end(s, i);
        let head = s.subrange(i, e);
        assert forall|k: int| 0 <= k < head.len() implies #[trigger] head[k] != '\n' by {
            assert(head[k] == s[i + k]);
        }
        lemma_count_char_none(head, '\n');
        if e < s.len() {
            let feed = seq![s[e]];
            let tail = s.skip(e + 1);
            lemma_lines_from_len(s, e + 1);
            assert(s.skip(i) =~= head + feed + tail);
            lemma_count_char_add(head + feed, tail, '\n');
            lemma_count_char_add(head, feed, '\n');
            assert(count_char(feed, '\n') == 1) by {
                assert(feed.drop_last() =~= Seq::<char>::empty());
                assert(count_char(feed.drop_last(), '\n') == 0);
            }
            if tail.len() > 0 {
                assert(s.skip(i).last() == tail.last());
            } else {
                assert(s.skip(i).last() == s[e]);
            }
        } else {
            assert(s.skip(i) =~= head);
            assert(head.last() == head[head.len() - 1]);
        }
    } else {
        assert(s.skip(i) =~= Seq::<char>::empty());
    }
}

} // verus!
