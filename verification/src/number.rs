//! Decimal numbers as command-line options spell them: an optional sign
//! followed by one or more ASCII digits, nothing else.

use vstd::prelude::*;

verus! {

/// The UTF-8 bytes of a text.
pub open spec fn text_bytes(s: &str) -> Seq<u8> {
    vstd::utf8::encode_utf8(s@)
}

/// An ASCII decimal digit.
pub open spec fn is_digit(b: u8) -> bool {
    48 <= b <= 57
}

/// Every byte of `s` is a decimal digit.
pub open spec fn all_digits(s: Seq<u8>) -> bool {
    forall|i: int| 0 <= i < s.len() ==> is_digit(#[trigger] s[i])
}

/// The number that the digits `s` spell, most significant first.
pub open spec fn digits_value(s: Seq<u8>) -> nat
    decreases s.len(),
{
    if s.len() == 0 {
        0
    } else {
        (digits_value(s.drop_last()) * 10 + (s.last() - 48)) as nat
    }
}

/// The value of a decimal text with an optional leading `+`, if the rest is
/// one or more digits.
pub open spec fn unsigned_text_value(s: Seq<u8>) -> Option<int> {
    let body = if s.len() > 0 && s[0] == 43 {
        s.drop_first()
    } else {
        s
    };
    if body.len() > 0 && all_digits(body) {
        Some(digits_value(body) as int)
    } else {
        None
    }
}

/// The value of a decimal text with an optional leading `+` or `-`, if the
/// rest is one or more digits.
pub open spec fn signed_text_value(s: Seq<u8>) -> Option<int> {
    if s.len() > 0 && s[0] == 45 {
        let body = s.drop_first();
        if body.len() > 0 && all_digits(body) {
            Some(-(digits_value(body) as int))
        } else {
            None
        }
    } else {
        unsigned_text_value(s)
    }
}

/// Appending a digit multiplies the value by ten and adds the digit.
proof fn digits_value_push(s: Seq<u8>, d: u8)
    requires
        is_digit(d),
    ensures
        digits_value(s.push(d)) == digits_value(s) * 10 + (d - 48),
{
    assert(s.push(d).drop_last() =~= s);
}

/// Scans the digits of `bytes[start..end]`: `Some(v)` when they are all
/// digits and spell `v` with `v <= limit`, `None` when a byte is no digit or
/// the value exceeds `limit`.
fn scan_digit_range(bytes: &[u8], start: usize, end: usize, limit: u64) -> (r: Option<u64>)
    requires
        start <= end <= bytes@.len(),
        9 <= limit,
    ensures
        ({
            let body = bytes@.subrange(start as int, end as int);
            match r {
                Some(v) => all_digits(body) && v == digits_value(body) && v <= limit,
                None => !all_digits(body) || digits_value(body) > limit,
            }
        }),
{
    let mut value: u64 = 0;
    let mut i: usize = start;
    while i < end
        invariant
            start <= i <= end,
            end <= bytes@.len(),
            all_digits(bytes@.subrange(start as int, i as int)),
            value == digits_value(bytes@.subrange(start as int, i as int)),
            value <= limit,
            9 <= limit,
        decreases end - i,
    {
        let b = bytes[i];
        let ghost prefix = bytes@.subrange(start as int, i as int);
        assert(bytes@.subrange(start as int, i + 1) =~= prefix.push(b));
        if b < 48 || b > 57 {
            assert(!all_digits(bytes@.subrange(start as int, end as int))) by {
                assert(bytes@.subrange(start as int, end as int)[i - start] == b);
            }
            return None;
        }
        proof {
            digits_value_push(prefix, b);
        }
        let d: u64 = (b - 48) as u64;
        if value > (limit - d) / 10 {
            assert(value * 10 + d > limit) by (nonlinear_arith)
                requires
                    value > (limit - d) / 10,
                    d <= limit,
            ;
            proof {
                digits_value_prefix_bound(bytes@.subrange(start as int, end as int), (i + 1 - start) as nat);
                assert(bytes@.subrange(start as int, end as int).subrange(0, i + 1 - start) =~= prefix.push(b));
            }
            return None;
        }
        assert(value * 10 + d <= limit) by (nonlinear_arith)
            requires
                value <= (limit - d) / 10,
                d <= limit,
        ;
        value = value * 10 + d;
        i = i + 1;
    }
    assert(i == end);
    Some(value)
}

/// Scans the digits of `bytes[start..]`: `Some(v)` when they are all digits
/// and spell `v` with `v <= limit`, `None` when a byte is no digit or the
/// value exceeds `limit`.
fn scan_digits(bytes: &[u8], start: usize, limit: u64) -> (r: Option<u64>)
    requires
        start <= bytes@.len(),
        9 <= limit,
    ensures
        ({
            let body = bytes@.skip(start as int);
            match r {
                Some(v) => all_digits(body) && v == digits_value(body) && v <= limit,
                None => !all_digits(body) || digits_value(body) > limit,
            }
        }),
{
    assert(bytes@.subrange(start as int, bytes@.len() as int) =~= bytes@.skip(start as int));
    scan_digit_range(bytes, start, bytes.len(), limit)
}

/// When all of `s` is digits, no prefix spells more than the whole.
proof fn digits_value_prefix_bound(s: Seq<u8>, k: nat)
    requires
        k <= s.len(),
    ensures
        all_digits(s) ==> digits_value(s.subrange(0, k as int)) <= digits_value(s),
    decreases s.len() - k,
{
    if k < s.len() && all_digits(s) {
        digits_value_prefix_bound(s, k + 1);
        let p = s.subrange(0, k as int);
        assert(s.subrange(0, (k + 1) as int) =~= p.push(s[k as int]));
        digits_value_push(p, s[k as int]);
    } else if k == s.len() {
        assert(s.subrange(0, k as int) =~= s);
    }
}

/// Reads an unsigned decimal number (as `u64::from_str` does): an optional
/// `+` and one or more digits, with a value that fits in a `u64`.
pub fn parse_u64(text: &[u8]) -> (r: Option<u64>)
    ensures
        match r {
            Some(v) => unsigned_text_value(text@) == Some(v as int),
            None => !(unsigned_text_value(text@) matches Some(v) && v <= u64::MAX),
        },
{
    let start: usize = if text.len() > 0 && text[0] == 43 {
        1
    } else {
        0
    };
    assert(text@.skip(start as int) =~= (if text@.len() > 0 && text@[0] == 43 {
        text@.drop_first()
    } else {
        text@
    }));
    if start >= text.len() {
        return None;
    }
    scan_digits(text, start, u64::MAX)
}

/// Reads an unsigned decimal number that must fit in a `u32` (as
/// `u32::from_str` does).
pub fn parse_u32(text: &[u8]) -> (r: Option<u32>)
    ensures
        match r {
            Some(v) => unsigned_text_value(text@) == Some(v as int),
            None => !(unsigned_text_value(text@) matches Some(v) && v <= u32::MAX),
        },
{
    let start: usize = if text.len() > 0 && text[0] == 43 {
        1
    } else {
        0
    };
    assert(text@.skip(start as int) =~= (if text@.len() > 0 && text@[0] == 43 {
        text@.drop_first()
    } else {
        text@
    }));
    if start >= text.len() {
        return None;
    }
    match scan_digits(text, start, 0xffff_ffff) {
        Some(v) => Some(v as u32),
        None => None,
    }
}

/// Reads a signed decimal number that must fit in an `i32` (as
/// `i32::from_str` does): an optional `+` or `-` and one or more digits.
pub fn parse_i32(text: &[u8]) -> (r: Option<i32>)
    ensures
        match r {
            Some(v) => signed_text_value(text@) == Some(v as int),
            None => !(signed_text_value(text@) matches Some(v) && i32::MIN <= v <= i32::MAX),
        },
{
    let negative = text.len() > 0 && text[0] == 45;
    let start: usize = if text.len() > 0 && (text[0] == 43 || text[0] == 45) {
        1
    } else {
        0
    };
    assert(text@.skip(start as int) =~= (if text@.len() > 0 && (text@[0] == 43 || text@[0] == 45) {
        text@.drop_first()
    } else {
        text@
    }));
    if start >= text.len() {
        return None;
    }
    if negative {
        match scan_digits(text, start, 0x8000_0000) {
            Some(v) => {
                let m: i64 = v as i64;
                Some((0 - m) as i32)
            },
            None => None,
        }
    } else {
        match scan_digits(text, start, 0x7fff_ffff) {
            Some(v) => Some(v as i32),
            None => None,
        }
    }
}

/// Position of the first decimal point in `s`, or -1 when there is none.
pub open spec fn point_pos(s: Seq<u8>) -> int
    decreases s.len(),
{
    if s.len() == 0 {
        -1
    } else if s[0] == 46 {
        0
    } else {
        let p = point_pos(s.drop_first());
        if p < 0 {
            -1
        } else {
            p + 1
        }
    }
}

/// When `s[..k]` holds no decimal point and `s[k]` is one, the first point
/// is at `k`.
proof fn point_pos_at(s: Seq<u8>, k: int)
    requires
        0 <= k < s.len(),
        s[k] == 46,
        forall|i: int| 0 <= i < k ==> s[i] != 46,
    ensures
        point_pos(s) == k,
    decreases k,
{
    if k > 0 {
        let t = s.drop_first();
        assert forall|i: int| 0 <= i < k - 1 implies t[i] != 46 by {
            assert(t[i] == s[i + 1]);
        }
        point_pos_at(t, k - 1);
    }
}

/// When `s` holds no decimal point, there is none to find.
proof fn point_pos_none(s: Seq<u8>)
    requires
        forall|i: int| 0 <= i < s.len() ==> s[i] != 46,
    ensures
        point_pos(s) == -1,
    decreases s.len(),
{
    if s.len() > 0 {
        let t = s.drop_first();
        assert forall|i: int| 0 <= i < t.len() implies t[i] != 46 by {
            assert(t[i] == s[i + 1]);
        }
        point_pos_none(t);
    }
}

/// The whole milliseconds that the decimals `f` of a number of seconds
/// stand for: the first three decimals, padded with zeros; later decimals
/// are below a millisecond and do not count.
pub open spec fn fraction_millis(f: Seq<u8>) -> int {
    if f.len() >= 3 {
        digits_value(f.take(3)) as int
    } else if f.len() == 2 {
        digits_value(f) * 10int
    } else {
        digits_value(f) * 100int
    }
}

/// A decimal number of seconds, written with an optional leading `+`, one
/// or more digits and optionally a decimal point followed by one or more
/// digits (`2`, `0.5`, `1.25`), as its whole seconds and the whole
/// milliseconds of its decimals.
pub open spec fn seconds_text_value(s: Seq<u8>) -> Option<(int, int)> {
    let body = if s.len() > 0 && s[0] == 43 {
        s.drop_first()
    } else {
        s
    };
    let p = point_pos(body);
    if p < 0 {
        if body.len() > 0 && all_digits(body) {
            Some((digits_value(body) as int, 0int))
        } else {
            None
        }
    } else {
        let whole = body.take(p);
        let frac = body.skip(p + 1);
        if whole.len() > 0 && all_digits(whole) && frac.len() > 0 && all_digits(frac) {
            Some((digits_value(whole) as int, fraction_millis(frac)))
        } else {
            None
        }
    }
}

/// Every byte of `bytes[start..end]` is a digit.
fn digits_only(bytes: &[u8], start: usize, end: usize) -> (r: bool)
    requires
        start <= end <= bytes@.len(),
    ensures
        r == all_digits(bytes@.subrange(start as int, end as int)),
{
    let mut i = start;
    while i < end
        invariant
            start <= i <= end <= bytes@.len(),
            all_digits(bytes@.subrange(start as int, i as int)),
        decreases end - i,
    {
        if bytes[i] < 48 || bytes[i] > 57 {
            assert(bytes@.subrange(start as int, end as int)[i - start] == bytes@[i as int]);
            return false;
        }
        assert forall|k: int| 0 <= k < i + 1 - start implies is_digit(
            #[trigger] bytes@.subrange(start as int, i + 1)[k],
        ) by {
            if k < i - start {
                assert(bytes@.subrange(start as int, i + 1)[k] == bytes@.subrange(
                    start as int,
                    i as int,
                )[k]);
            }
        }
        i = i + 1;
    }
    true
}

/// A span of time given in seconds with decimals: its whole seconds and the
/// whole milliseconds of its decimals (always below 1000).
#[derive(PartialEq, Eq, Structural, Debug, Clone, Copy)]
pub struct Seconds {
    pub secs: u64,
    pub millis: u32,
}

/// Reads a decimal number of seconds (such as `0.5`) as its whole seconds
/// and the whole milliseconds of its decimals (0 and 500), when it is well
/// formed and the seconds fit in a `u64`.
#[verifier::rlimit(40)]
pub fn parse_seconds(text: &[u8]) -> (r: Option<Seconds>)
    ensures
        match r {
            Some(v) => seconds_text_value(text@) == Some((v.secs as int, v.millis as int))
                && v.millis < 1000,
            None => !(seconds_text_value(text@) matches Some((secs, ms)) && secs <= u64::MAX),
        },
{
    let len = text.len();
    let start: usize = if len > 0 && text[0] == 43 {
        1
    } else {
        0
    };
    let ghost body = text@.skip(start as int);
    assert(body =~= (if text@.len() > 0 && text@[0] == 43 {
        text@.drop_first()
    } else {
        text@
    }));
    let mut dot = start;
    while dot < len && text[dot] != 46
        invariant
            start <= dot <= len,
            len == text@.len(),
            forall|i: int| start <= i < dot ==> text@[i] != 46,
        decreases len - dot,
    {
        dot = dot + 1;
    }
    if dot == len {
        proof {
            assert forall|i: int| 0 <= i < body.len() implies body[i] != 46 by {
                assert(body[i] == text@[start + i]);
            }
            point_pos_none(body);
        }
        if start >= len {
            return None;
        }
        return match scan_digits(text, start, u64::MAX) {
            Some(w) => Some(Seconds { secs: w, millis: 0 }),
            None => None,
        };
    }
    proof {
        assert forall|i: int| 0 <= i < dot - start implies body[i] != 46 by {
            assert(body[i] == text@[start + i]);
        }
        point_pos_at(body, dot - start);
        assert(body.take(dot - start) =~= text@.subrange(start as int, dot as int));
        assert(body.skip(dot - start + 1) =~= text@.subrange(dot + 1, len as int));
    }
    if dot == start || dot + 1 == len {
        return None;
    }
    if !digits_only(text, dot + 1, len) {
        return None;
    }
    let whole = match scan_digit_range(text, start, dot, u64::MAX) {
        Some(w) => w,
        None => {
            return None;
        },
    };
    let ghost frac = text@.subrange(dot + 1, len as int);
    let flen = len - dot - 1;
    let take = if flen >= 3 {
        3
    } else {
        flen
    };
    let lead = match scan_digit_range(text, dot + 1, dot + 1 + take, 999) {
        Some(v) => v,
        None => {
            proof {
                assert(text@.subrange(dot + 1, dot + 1 + take) =~= frac.take(take as int));
                assert(all_digits(frac.take(take as int)));
                assert(take == 3 || take == flen);
                digits_value_bound3(frac.take(take as int));
            }
            return None;
        },
    };
    proof {
        assert(text@.subrange(dot + 1, dot + 1 + take) =~= frac.take(take as int));
        if take < 3 {
            assert(frac.take(take as int) =~= frac);
        }
        digits_value_bound3(frac.take(take as int));
    }
    let ms: u32 = if take == 3 {
        lead as u32
    } else if take == 2 {
        (lead * 10) as u32
    } else {
        (lead * 100) as u32
    };
    Some(Seconds { secs: whole, millis: ms })
}

/// Three digits or fewer spell at most 999.
proof fn digits_value_bound3(s: Seq<u8>)
    requires
        s.len() <= 3,
        all_digits(s),
    ensures
        digits_value(s) <= 999,
        s.len() <= 2 ==> digits_value(s) <= 99,
        s.len() <= 1 ==> digits_value(s) <= 9,
    decreases s.len(),
{
    if s.len() > 0 {
        let p = s.drop_last();
        assert forall|i: int| 0 <= i < p.len() implies is_digit(#[trigger] p[i]) by {
            assert(p[i] == s[i]);
        }
        digits_value_bound3(p);
        assert(is_digit(s[s.len() - 1]));
    }
}

} // verus!
