//! Picking one line of a text at random: the mock GPS sentence generator
//! prints the line whose number is the low byte of a random word.

use vstd::prelude::*;

verus! {

/// Position of the first line feed in `s`, or -1 when there is none.
pub open spec fn newline_pos(s: Seq<u8>) -> int
    decreases s.len(),
{
    if s.len() == 0 {
        -1
    } else if s[0] == 10 {
        0
    } else {
        let p = newline_pos(s.drop_first());
        if p < 0 {
            -1
        } else {
            p + 1
        }
    }
}

/// A found line feed lies inside `s`, and is the first one.
pub proof fn newline_pos_bounds(s: Seq<u8>)
    ensures
        -1 <= newline_pos(s) < s.len(),
        newline_pos(s) >= 0 ==> s[newline_pos(s)] == 10,
        forall|i: int| 0 <= i < s.len() && (newline_pos(s) < 0 || i < newline_pos(s)) ==> s[i] != 10,
    decreases s.len(),
{
    if s.len() > 0 && s[0] != 10 {
        let t = s.drop_first();
        newline_pos_bounds(t);
        assert forall|i: int|
            0 <= i < s.len() && (newline_pos(s) < 0 || i < newline_pos(s)) implies s[i] != 10 by {
            if i > 0 {
                assert(s[i] == t[i - 1]);
            }
        }
    }
}

/// When `s[..k]` holds no line feed and `s[k]` is one, the first line feed
/// of `s` is at `k`.
proof fn newline_pos_at(s: Seq<u8>, k: int)
    requires
        0 <= k < s.len(),
        s[k] == 10,
        forall|i: int| 0 <= i < k ==> s[i] != 10,
    ensures
        newline_pos(s) == k,
    decreases k,
{
    if k > 0 {
        let t = s.drop_first();
        assert forall|i: int| 0 <= i < k - 1 implies t[i] != 10 by {
            assert(t[i] == s[i + 1]);
        }
        newline_pos_at(t, k - 1);
    }
}

/// When `s` holds no line feed, there is none to find.
proof fn newline_pos_none(s: Seq<u8>)
    requires
        forall|i: int| 0 <= i < s.len() ==> s[i] != 10,
    ensures
        newline_pos(s) == -1,
    decreases s.len(),
{
    if s.len() > 0 {
        let t = s.drop_first();
        assert forall|i: int| 0 <= i < t.len() implies t[i] != 10 by {
            assert(t[i] == s[i + 1]);
        }
        newline_pos_none(t);
    }
}

/// A line as it stood before its line feed, without a carriage return that
/// came right before the line feed.
pub open spec fn strip_cr(s: Seq<u8>) -> Seq<u8> {
    if s.len() > 0 && s.last() == 13 {
        s.drop_last()
    } else {
        s
    }
}

/// The lines of a text, as `str::lines` gives them: split after each line
/// feed, with the line feed (and a carriage return just before it) left
/// out; a text that ends with a line feed has no empty last line.
pub open spec fn text_lines(s: Seq<u8>) -> Seq<Seq<u8>>
    decreases s.len(),
{
    if s.len() == 0 {
        seq![]
    } else {
        let p = newline_pos(s);
        proof {
            newline_pos_bounds(s);
        }
        if p < 0 {
            seq![s]
        } else {
            seq![strip_cr(s.take(p))] + text_lines(s.skip(p + 1))
        }
    }
}

/// No line holds a line feed.
pub proof fn lines_hold_no_line_feed(s: Seq<u8>)
    ensures
        forall|m: int, k: int|
            0 <= m < text_lines(s).len() && 0 <= k < text_lines(s)[m].len() ==> #[trigger] text_lines(
                s,
            )[m][k] != 10,
    decreases s.len(),
{
    if s.len() > 0 {
        newline_pos_bounds(s);
        let p = newline_pos(s);
        if p >= 0 {
            lines_hold_no_line_feed(s.skip(p + 1));
            let first = strip_cr(s.take(p));
            assert forall|k: int| 0 <= k < first.len() implies first[k] != 10 by {
                assert(first[k] == s[k]);
            }
            assert forall|m: int, k: int|
                0 <= m < text_lines(s).len() && 0 <= k < text_lines(s)[m].len() implies #[trigger] text_lines(
                s,
            )[m][k] != 10 by {
                if m > 0 {
                    assert(text_lines(s)[m] == text_lines(s.skip(p + 1))[m - 1]);
                }
            }
        }
    }
}

/// Number of line feeds in `s`.
pub open spec fn lf_count(s: Seq<u8>) -> nat
    decreases s.len(),
{
    if s.len() == 0 {
        0
    } else {
        lf_count(s.drop_last()) + if s.last() == 10 {
            1nat
        } else {
            0nat
        }
    }
}

/// Number of lines in a text: one per line feed, and one more for text
/// after the last line feed.
pub open spec fn line_count(s: Seq<u8>) -> nat {
    lf_count(s) + if s.len() > 0 && s.last() != 10 {
        1nat
    } else {
        0nat
    }
}

/// `[a, b)` is line `n` of `text`: it starts at the beginning of the text
/// or right after a line feed, with `n` line feeds before it; it holds no
/// line feed; and it runs up to a line feed (leaving out a carriage return
/// right before it) or to the end of the text.
pub open spec fn is_line_span(text: Seq<u8>, n: int, a: int, b: int) -> bool {
    &&& 0 <= a <= b <= text.len()
    &&& a == 0 || text[a - 1] == 10
    &&& lf_count(text.subrange(0, a)) == n
    &&& forall|k: int| a <= k < b ==> text[k] != 10
    &&& {
        ||| b == text.len() && a < b
        ||| b < text.len() && text[b] == 10 && !(b > a && text[b - 1] == 13)
        ||| b + 1 < text.len() && text[b] == 13 && text[b + 1] == 10
    }
}

/// The byte range `[start, end)` of line `n` of `text`, or `None` when the
/// text has no such line.
pub fn nth_line(text: &[u8], n: usize) -> (r: Option<(usize, usize)>)
    ensures
        match r {
            Some((a, b)) => a <= b <= text@.len() && n < text_lines(text@).len()
                && text@.subrange(a as int, b as int) == text_lines(text@)[n as int],
            None => n >= text_lines(text@).len(),
        },
        r matches Some((a, b)) ==> is_line_span(text@, n as int, a as int, b as int),
        r is None <==> n >= line_count(text@),
{
    let len = text.len();
    let mut start: usize = 0;
    let mut line: usize = 0;
    let mut i: usize = 0;
    assert(text@.skip(0) =~= text@);
    while i < len
        invariant
            len == text@.len(),
            start <= i <= len,
            line <= n,
            forall|k: int| start <= k < i ==> text@[k] != 10,
            line == lf_count(text@.subrange(0, i as int)),
            line == lf_count(text@.subrange(0, start as int)),
            start == 0 || text@[start - 1] == 10,
            text_lines(text@).len() == line + text_lines(text@.skip(start as int)).len(),
            forall|m: int|
                0 <= m < text_lines(text@.skip(start as int)).len() ==> text_lines(text@)[line + m]
                    == #[trigger] text_lines(text@.skip(start as int))[m],
        decreases len - i,
    {
        assert(text@.subrange(0, i + 1).drop_last() =~= text@.subrange(0, i as int));
        if text[i] == 10 {
            let ghost rest = text@.skip(start as int);
            proof {
                assert forall|k: int| 0 <= k < i - start implies rest[k] != 10 by {
                    assert(rest[k] == text@[start + k]);
                }
                newline_pos_at(rest, i - start);
                assert(rest.take(i - start) =~= text@.subrange(start as int, i as int));
                assert(rest.skip(i - start + 1) =~= text@.skip(i + 1));
                assert(text_lines(rest) == seq![strip_cr(rest.take(i - start))] + text_lines(
                    rest.skip(i - start + 1),
                ));
            }
            if line == n {
                let end: usize = if i > start && text[i - 1] == 13 {
                    i - 1
                } else {
                    i
                };
                proof {
                    let piece = text@.subrange(start as int, i as int);
                    assert(text_lines(rest)[0] == strip_cr(piece));
                    if i > start && text@[i - 1] == 13 {
                        assert(piece.drop_last() =~= text@.subrange(start as int, end as int));
                    }
                    assert(text_lines(text@)[line as int] == text_lines(rest)[0]);
                    assert(is_line_span(text@, n as int, start as int, end as int));
                    lines_below_count(text@, n as int, start as int);
                }
                return Some((start, end));
            }
            proof {
                let next = text@.skip(i + 1);
                assert forall|m: int| 0 <= m < text_lines(next).len() implies text_lines(text@)[(line
                    + 1) + m] == #[trigger] text_lines(next)[m] by {
                    assert(text_lines(rest)[m + 1] == text_lines(next)[m]);
                }
            }
            line = line + 1;
            start = i + 1;
        }
        i = i + 1;
    }
    let ghost rest = text@.skip(start as int);
    if start < len {
        proof {
            assert forall|k: int| 0 <= k < rest.len() implies rest[k] != 10 by {
                assert(rest[k] == text@[start + k]);
            }
            newline_pos_none(rest);
            assert(text_lines(rest) == seq![rest]);
        }
        if line == n {
            proof {
                assert(rest =~= text@.subrange(start as int, len as int));
                assert(text_lines(text@)[line as int] == text_lines(rest)[0]);
            }
            proof {
                assert(is_line_span(text@, n as int, start as int, len as int));
                lines_below_count(text@, n as int, start as int);
            }
            return Some((start, len));
        }
        proof {
            assert(text@.subrange(0, len as int) =~= text@);
            assert(text@.last() == text@[len - 1]);
        }
        None
    } else {
        assert(rest.len() == 0);
        assert(text_lines(rest) =~= Seq::<Seq<u8>>::empty());
        proof {
            assert(text@.subrange(0, len as int) =~= text@);
            if len > 0 {
                assert(text@.last() == text@[len - 1]);
            }
        }
        None
    }
}

/// A line that starts `n` line feeds into the text, and has a byte of its
/// own or a line feed after it, is below the number of lines.
proof fn lines_below_count(text: Seq<u8>, n: int, a: int)
    requires
        0 <= a <= text.len(),
        lf_count(text.subrange(0, a)) == n,
        a < text.len(),
    ensures
        n < line_count(text),
    decreases text.len() - a,
{
    lf_count_prefix_grows(text, a, text.len() as int);
    assert(text.subrange(0, text.len() as int) =~= text);
    if lf_count(text) == n {
        // No line feed from a on, so the text ends in a byte of the line.
        lf_count_flat(text, a);
        assert(text.last() == text[text.len() - 1]);
    }
}

/// Counting line feeds over a longer prefix never gives fewer.
proof fn lf_count_prefix_grows(text: Seq<u8>, i: int, j: int)
    requires
        0 <= i <= j <= text.len(),
    ensures
        lf_count(text.subrange(0, i)) <= lf_count(text.subrange(0, j)),
    decreases j - i,
{
    if i < j {
        lf_count_prefix_grows(text, i, j - 1);
        assert(text.subrange(0, j).drop_last() =~= text.subrange(0, j - 1));
    }
}

/// When the count of line feeds does not grow from prefix `a` to the whole
/// text, the last byte is no line feed.
proof fn lf_count_flat(text: Seq<u8>, a: int)
    requires
        0 <= a < text.len(),
        lf_count(text.subrange(0, a)) == lf_count(text),
    ensures
        text[text.len() - 1] != 10,
{
    let l = text.len() as int;
    lf_count_prefix_grows(text, a, l - 1);
    assert(text.subrange(0, l).drop_last() =~= text.subrange(0, l - 1));
    assert(text.subrange(0, l) =~= text);
}

/// Counting line feeds over two pieces adds up.
proof fn lf_count_append(x: Seq<u8>, y: Seq<u8>)
    ensures
        lf_count(x + y) == lf_count(x) + lf_count(y),
    decreases y.len(),
{
    if y.len() == 0 {
        assert(x + y =~= x);
    } else {
        lf_count_append(x, y.drop_last());
        assert((x + y).drop_last() =~= x + y.drop_last());
        assert((x + y).last() == y.last());
    }
}

/// A piece without a line feed counts none.
proof fn lf_count_none(x: Seq<u8>)
    requires
        forall|i: int| 0 <= i < x.len() ==> x[i] != 10,
    ensures
        lf_count(x) == 0,
    decreases x.len(),
{
    if x.len() > 0 {
        lf_count_none(x.drop_last());
    }
}

/// Line `m` of `text` is some byte range `[a, b)` of it that
/// `is_line_span` describes, taken whole.
pub open spec fn line_is_span(text: Seq<u8>, m: int) -> bool {
    exists|a: int, b: int| is_line_span(text, m, a, b) && text.subrange(a, b) == text_lines(text)[m]
}

/// Every line of a text is the whole run of bytes between one line feed
/// (or the start) and the next (or the end), less a carriage return right
/// before that line feed: line `m` is the byte range of `text` that starts
/// after `m` line feeds and runs to the next one. There are as many lines
/// as line feeds, and one more where bytes follow the last line feed.
pub proof fn lines_are_spans(text: Seq<u8>)
    ensures
        text_lines(text).len() == line_count(text),
        forall|m: int| 0 <= m < text_lines(text).len() ==> #[trigger] line_is_span(text, m),
    decreases text.len(),
{
    if text.len() == 0 {
        return;
    }
    newline_pos_bounds(text);
    let p = newline_pos(text);
    let len = text.len() as int;
    if p < 0 {
        lf_count_none(text);
        assert(text.last() == text[len - 1]);
        assert(text.subrange(0, 0) =~= Seq::<u8>::empty());
        assert(text.subrange(0, len) =~= text);
        assert(is_line_span(text, 0, 0, len));
        assert(text_lines(text) == seq![text]);
        assert(text.subrange(0, len) == text_lines(text)[0]);
        assert(line_is_span(text, 0));
        return;
    }
    let t = text.skip(p + 1);
    lines_are_spans(t);
    let head = text.subrange(0, p + 1);
    assert(head + t =~= text);
    lf_count_append(head, t);
    assert(head.drop_last() =~= text.take(p));
    lf_count_none(text.take(p));
    assert(lf_count(head) == 1);
    // The line count of the text is one more than that of the rest.
    if t.len() == 0 {
        assert(text.last() == text[p]);
    } else {
        assert(text.last() == t.last());
    }
    assert(text_lines(text) == seq![strip_cr(text.take(p))] + text_lines(t));
    assert forall|m: int| 0 <= m < text_lines(text).len() implies #[trigger] line_is_span(
        text,
        m,
    ) by {
        if m == 0 {
            let b: int = if p > 0 && text[p - 1] == 13 {
                p - 1
            } else {
                p
            };
            assert(text.subrange(0, 0) =~= Seq::<u8>::empty());
            if p > 0 && text[p - 1] == 13 {
                assert(text.take(p).drop_last() =~= text.subrange(0, b));
            } else {
                assert(text.take(p) =~= text.subrange(0, b));
            }
            assert(is_line_span(text, 0, 0, b));
            assert(text.subrange(0, b) == text_lines(text)[0]);
        } else {
            assert(text_lines(text)[m] == text_lines(t)[m - 1]);
            assert(line_is_span(t, m - 1));
            let (a1, b1) = choose|a1: int, b1: int|
                is_line_span(t, m - 1, a1, b1) && t.subrange(a1, b1) == text_lines(t)[m - 1];
            let a = a1 + p + 1;
            let b = b1 + p + 1;
            assert(t.subrange(a1, b1) =~= text.subrange(a, b));
            assert(head + t.subrange(0, a1) =~= text.subrange(0, a));
            lf_count_append(head, t.subrange(0, a1));
            assert forall|k: int| a <= k < b implies text[k] != 10 by {
                assert(text[k] == t[k - p - 1]);
            }
            if a1 > 0 {
                assert(text[a - 1] == t[a1 - 1]);
            }
            if b1 < t.len() {
                assert(text[b] == t[b1]);
            }
            if b1 > a1 {
                assert(text[b - 1] == t[b1 - 1]);
            }
            if b1 + 1 < t.len() {
                assert(text[b + 1] == t[b1 + 1]);
            }
            assert(is_line_span(text, m, a, b));
            assert(text.subrange(a, b) == text_lines(text)[m]);
        }
    }
}

/// Number of the line picked for a random word: its low byte.
pub fn sentence_number(random: u32) -> (n: usize)
    ensures
        n == random % 256,
{
    (random % 256) as usize
}

/// The byte range of the line picked for a random word, or `None` when the
/// text has fewer lines than the number picked.
pub fn pick_sentence(text: &[u8], random: u32) -> (r: Option<(usize, usize)>)
    ensures
        match r {
            Some((a, b)) => a <= b <= text@.len() && random % 256 < text_lines(text@).len()
                && text@.subrange(a as int, b as int) == text_lines(text@)[(random % 256) as int],
            None => random % 256 >= text_lines(text@).len(),
        },
        r matches Some((a, b)) ==> is_line_span(text@, (random % 256) as int, a as int, b as int),
        r is None <==> random % 256 >= line_count(text@),
{
    nth_line(text, sentence_number(random))
}

} // verus!
