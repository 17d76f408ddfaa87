//! The ping command: its options, and the statistics that it reports after
//! the echo requests have been sent.

use vstd::prelude::*;
use crate::cli::{
    argument_lookup, find_argument, first_named_value, kind_count, last_param, nth_positional,
    text_of, ParamKind, ParamSpec,
};
use crate::number::{
    parse_i32, parse_seconds, parse_u32, parse_u64, seconds_text_value, signed_text_value,
    text_bytes, unsigned_text_value, Seconds,
};

verus! {

/// The kind of network address a host name resolved to.
#[derive(PartialEq, Eq, Structural, Debug, Clone, Copy)]
pub enum AddressFamily {
    V4,
    V6,
}

/// Whether the ping command can reach an address of this kind: the ping
/// service speaks IPv4 only, so an IPv6 address is refused.
pub fn accepts_family(family: AddressFamily) -> (r: bool)
    ensures
        r == (family == AddressFamily::V4),
{
    match family {
        AddressFamily::V4 => true,
        AddressFamily::V6 => false,
    }
}

/// Echo requests sent when the command names no count.
pub const DEFAULT_ATTEMPTS: i32 = 4;

/// Echo requests that each attempt asks the ping service for.
pub const PINGS_PER_ATTEMPT: u32 = 1;

/// The smallest of the non-empty sequence `s`.
pub open spec fn seq_min(s: Seq<u128>) -> u128
    decreases s.len(),
{
    if s.len() <= 1 {
        s[0]
    } else {
        let m = seq_min(s.drop_last());
        if s.last() < m {
            s.last()
        } else {
            m
        }
    }
}

/// The largest of the non-empty sequence `s`.
pub open spec fn seq_max(s: Seq<u128>) -> u128
    decreases s.len(),
{
    if s.len() <= 1 {
        s[0]
    } else {
        let m = seq_max(s.drop_last());
        if s.last() > m {
            s.last()
        } else {
            m
        }
    }
}

/// The sum of the sequence `s`.
pub open spec fn seq_sum(s: Seq<u128>) -> nat
    decreases s.len(),
{
    if s.len() == 0 {
        0
    } else {
        seq_sum(s.drop_last()) + (s.last() as nat)
    }
}

/// What a tally has recorded: the attempts it was made for, the replies
/// counted so far and the round-trip time of each attempt, in milliseconds.
pub struct PingTallyView {
    pub attempts: int,
    pub replies: int,
    pub times: Seq<u128>,
}

/// Counts the replies and keeps the round-trip times of a series of ping
/// attempts.
pub struct PingTally {
    attempts: i32,
    replies: i32,
    times: Vec<u128>,
}

/// The statistics printed after a series of ping attempts.
pub struct PingReport {
    pub sent: i32,
    pub received: i32,
    pub lost: i32,
    pub loss_percent: i32,
    pub min_ms: u128,
    pub max_ms: u128,
    pub avg_ms: u128,
}

impl View for PingTally {
    type V = PingTallyView;

    closed spec fn view(&self) -> PingTallyView {
        PingTallyView { attempts: self.attempts as int, replies: self.replies as int, times: self.times@ }
    }
}

/// The share of the sent requests that got no reply, in whole percent
/// (rounded down).
pub open spec fn loss_percent(sent: int, received: int) -> int {
    (sent - received) * 100 / sent
}

impl PingTally {
    /// The tally's own bookkeeping: no more replies than recorded attempts,
    /// and no more recorded attempts than were planned.
    pub closed spec fn wf(&self) -> bool {
        &&& 0 <= self.replies <= self.times@.len()
        &&& self.times@.len() == 0 || self.times@.len() <= self.attempts
    }

    /// A tally for `attempts` echo requests, with nothing recorded yet.
    pub fn new(attempts: i32) -> (t: PingTally)
        ensures
            t.wf(),
            t@ == (PingTallyView { attempts: attempts as int, replies: 0, times: Seq::empty() }),
    {
        PingTally { attempts, replies: 0, times: Vec::new() }
    }

    /// Number of attempts already recorded.
    pub fn recorded(&self) -> (n: usize)
        ensures
            n == self@.times.len(),
    {
        self.times.len()
    }

    /// Whether more attempts are planned than have been recorded: the ping
    /// command sends one more request while this holds, so it makes as many
    /// attempts as the count asks for, and none for a count below one.
    pub fn wants_more(&self) -> (r: bool)
        ensures
            r == (self@.times.len() < self@.attempts),
    {
        (self.times.len() as u64) < (if self.attempts < 0 {
            0
        } else {
            self.attempts as u64
        })
    }

    /// Records one attempt: its round-trip time is kept, and it counts as a
    /// reply when every request it transmitted was answered.
    pub fn record(&mut self, transmitted: u32, received: u32, time_ms: u128)
        requires
            old(self).wf(),
            old(self)@.times.len() < old(self)@.attempts,
        ensures
            final(self).wf(),
            final(self)@.attempts == old(self)@.attempts,
            final(self)@.times == old(self)@.times.push(time_ms),
            final(self)@.replies == old(self)@.replies + (if transmitted == received {
                1int
            } else {
                0int
            }),
    {
        self.times.push(time_ms);
        if transmitted == received {
            self.replies = self.replies + 1;
        }
    }

    /// The statistics over the attempts recorded so far.
    pub fn report(&self) -> (r: PingReport)
        requires
            self.wf(),
            self@.times.len() >= 1,
            seq_sum(self@.times) <= u128::MAX,
        ensures
            r.sent == self@.attempts,
            r.received == self@.replies,
            r.lost == self@.attempts - self@.replies,
            r.loss_percent == loss_percent(self@.attempts, self@.replies),
            r.min_ms == seq_min(self@.times),
            r.max_ms == seq_max(self@.times),
            r.avg_ms == seq_sum(self@.times) / self@.times.len(),
    {
        let n = self.times.len();
        let mut lo: u128 = self.times[0];
        let mut hi: u128 = self.times[0];
        let mut sum: u128 = self.times[0];
        let mut i: usize = 1;
        assert(self.times@.subrange(0, 1).drop_last() =~= Seq::<u128>::empty());
        assert(seq_sum(Seq::<u128>::empty()) == 0);
        assert(self.times@.subrange(0, 1).last() == self.times@[0]);
        assert(seq_sum(self.times@.subrange(0, 1)) == self.times@[0] as nat);
        while i < n
            invariant
                1 <= i <= n,
                n == self.times@.len(),
                seq_sum(self.times@) <= u128::MAX,
                lo == seq_min(self.times@.subrange(0, i as int)),
                hi == seq_max(self.times@.subrange(0, i as int)),
                sum == seq_sum(self.times@.subrange(0, i as int)),
            decreases n - i,
        {
            let t = self.times[i];
            let ghost prefix = self.times@.subrange(0, i as int);
            assert(self.times@.subrange(0, i + 1).drop_last() =~= prefix);
            proof {
                sum_prefix_bound(self.times@, (i + 1) as nat);
            }
            if t < lo {
                lo = t;
            }
            if t > hi {
                hi = t;
            }
            sum = sum + t;
            i = i + 1;
        }
        assert(self.times@.subrange(0, n as int) =~= self.times@);
        let lost = self.attempts - self.replies;
        assert(0 <= lost <= self.attempts);
        let wide: i64 = (lost as i64) * 100 / (self.attempts as i64);
        assert(0 <= (lost as int) * 100 / (self.attempts as int) <= 100) by (nonlinear_arith)
            requires
                0 <= lost <= self.attempts,
                self.attempts >= 1,
        ;
        PingReport {
            sent: self.attempts,
            received: self.replies,
            lost,
            loss_percent: wide as i32,
            min_ms: lo,
            max_ms: hi,
            avg_ms: sum / (n as u128),
        }
    }
}

/// The smallest and largest round-trip times bound every recorded one and
/// are themselves recorded ones.
pub proof fn min_max_bound_every_time(s: Seq<u128>)
    requires
        s.len() >= 1,
    ensures
        forall|i: int| 0 <= i < s.len() ==> seq_min(s) <= #[trigger] s[i] <= seq_max(s),
        exists|i: int| 0 <= i < s.len() && s[i] == seq_min(s),
        exists|j: int| 0 <= j < s.len() && s[j] == seq_max(s),
    decreases s.len(),
{
    if s.len() > 1 {
        let p = s.drop_last();
        min_max_bound_every_time(p);
        let i0 = choose|i: int| 0 <= i < p.len() && p[i] == seq_min(p);
        let j0 = choose|j: int| 0 <= j < p.len() && p[j] == seq_max(p);
        assert(s[i0] == p[i0]);
        assert(s[j0] == p[j0]);
        assert(s[s.len() - 1] == s.last());
        assert forall|i: int| 0 <= i < s.len() implies seq_min(s) <= #[trigger] s[i] <= seq_max(s) by {
            if i < s.len() - 1 {
                assert(s[i] == p[i]);
            }
        }
        if s.last() < seq_min(p) {
            assert(s[s.len() - 1] == seq_min(s));
        } else {
            assert(s[i0] == seq_min(s));
        }
        if s.last() > seq_max(p) {
            assert(s[s.len() - 1] == seq_max(s));
        } else {
            assert(s[j0] == seq_max(s));
        }
    } else {
        assert(s[0] == seq_min(s));
        assert(s[0] == seq_max(s));
    }
}

/// The sum of the times lies between their count times the smallest and
/// their count times the largest.
proof fn sum_between_min_and_max(s: Seq<u128>)
    requires
        s.len() >= 1,
    ensures
        s.len() * seq_min(s) <= seq_sum(s) <= s.len() * seq_max(s),
    decreases s.len(),
{
    if s.len() == 1 {
        assert(s.drop_last() =~= Seq::<u128>::empty());
        assert(seq_sum(Seq::<u128>::empty()) == 0);
    } else {
        let p = s.drop_last();
        sum_between_min_and_max(p);
        let n = p.len();
        let lo = seq_min(s);
        let hi = seq_max(s);
        let plo = seq_min(p);
        let phi = seq_max(p);
        assert(lo <= plo && lo <= s.last());
        assert(hi >= phi && hi >= s.last());
        assert(n * lo <= n * plo) by (nonlinear_arith)
            requires
                lo <= plo,
                n >= 0,
        ;
        assert(n * phi <= n * hi) by (nonlinear_arith)
            requires
                phi <= hi,
                n >= 0,
        ;
        assert((n + 1) * lo == n * lo + lo) by (nonlinear_arith);
        assert((n + 1) * hi == n * hi + hi) by (nonlinear_arith);
    }
}

/// The average round-trip time lies between the smallest and the largest.
pub proof fn average_between_min_and_max(s: Seq<u128>)
    requires
        s.len() >= 1,
    ensures
        seq_min(s) <= seq_sum(s) / s.len() <= seq_max(s),
{
    sum_between_min_and_max(s);
    let n = s.len();
    let sum = seq_sum(s);
    let lo = seq_min(s);
    let hi = seq_max(s);
    assert(lo <= sum / n <= hi) by (nonlinear_arith)
        requires
            n >= 1,
            n * lo <= sum <= n * hi,
            lo >= 0,
    ;
}

/// Every sent request is either received or lost, and the loss figure
/// lies between 0 and 100 percent: 0 when every request was answered, and
/// 100 exactly when none was.
pub proof fn loss_percent_bounds(sent: int, received: int)
    requires
        1 <= sent,
        0 <= received <= sent,
    ensures
        received + (sent - received) == sent,
        0 <= loss_percent(sent, received) <= 100,
        received == sent ==> loss_percent(sent, received) == 0,
        loss_percent(sent, received) == 100 <==> received == 0,
{
    let lost = sent - received;
    assert(0 <= lost * 100 / sent <= 100) by (nonlinear_arith)
        requires
            0 <= lost <= sent,
            1 <= sent,
    ;
    assert(lost == 0 ==> lost * 100 / sent == 0) by (nonlinear_arith)
        requires
            1 <= sent,
    ;
    assert(lost == sent ==> lost * 100 / sent == 100) by (nonlinear_arith)
        requires
            1 <= sent,
    ;
    assert(lost < sent ==> lost * 100 / sent < 100) by (nonlinear_arith)
        requires
            0 <= lost <= sent,
            1 <= sent,
    ;
}

/// A report's figures agree with one another: received and lost add up to
/// the sent requests, the loss figure is a percentage that is 0 when all
/// came back and 100 exactly when none did, and the average
/// lies between the smallest and largest round-trip time.
pub proof fn report_is_consistent(t: PingTally, r: PingReport)
    requires
        t.wf(),
        t@.times.len() >= 1,
        r.sent == t@.attempts,
        r.received == t@.replies,
        r.lost == t@.attempts - t@.replies,
        r.loss_percent == loss_percent(t@.attempts, t@.replies),
        r.min_ms == seq_min(t@.times),
        r.max_ms == seq_max(t@.times),
        r.avg_ms == seq_sum(t@.times) / t@.times.len(),
    ensures
        r.received + r.lost == r.sent,
        0 <= r.loss_percent <= 100,
        r.received == r.sent ==> r.loss_percent == 0,
        r.loss_percent == 100 <==> r.received == 0,
        r.min_ms <= r.avg_ms <= r.max_ms,
{
    loss_percent_bounds(t@.attempts, t@.replies);
    average_between_min_and_max(t@.times);
}

/// No prefix of `s` sums to more than the whole.
proof fn sum_prefix_bound(s: Seq<u128>, k: nat)
    requires
        k <= s.len(),
    ensures
        seq_sum(s.subrange(0, k as int)) <= seq_sum(s),
    decreases s.len() - k,
{
    if k < s.len() {
        sum_prefix_bound(s, k + 1);
        assert(s.subrange(0, (k + 1) as int).drop_last() =~= s.subrange(0, k as int));
    } else {
        assert(s.subrange(0, k as int) =~= s);
    }
}


/// The option whose text did not read as a number, in the order in which
/// the command reads them.
#[derive(PartialEq, Eq, Structural, Debug, Clone, Copy)]
pub enum PingOptionError {
    Count,
    Interval,
    Timeout,
    Size,
}

/// What the options of the ping command ask for: the interval between
/// attempts as whole seconds and the milliseconds of its decimals, the
/// timeout in whole seconds. An interval, timeout or
/// size left out keeps the ping service's own default.
#[derive(PartialEq, Eq, Structural, Debug, Clone, Copy)]
pub struct PingOptions {
    pub attempts: i32,
    pub interval: Option<Seconds>,
    pub timeout_secs: Option<u64>,
    pub data_size: Option<u32>,
}

/// An option's text is absent or reads as a signed number that fits in an
/// `i32`.
pub open spec fn i32_text_ok(t: Option<&str>) -> bool {
    match t {
        None => true,
        Some(s) => signed_text_value(text_bytes(s)) matches Some(v) && i32::MIN <= v <= i32::MAX,
    }
}

/// An option's text is absent or reads as an unsigned number no larger
/// than `max`.
pub open spec fn unsigned_text_ok(t: Option<&str>, max: int) -> bool {
    match t {
        None => true,
        Some(s) => unsigned_text_value(text_bytes(s)) matches Some(v) && v <= max,
    }
}

/// An option's text is absent or reads as a decimal number of seconds
/// whose whole seconds fit in a `u64`.
pub open spec fn seconds_text_ok(t: Option<&str>) -> bool {
    match t {
        None => true,
        Some(s) => seconds_text_value(text_bytes(s)) matches Some((secs, ms)) && secs <= u64::MAX,
    }
}

/// The seconds and milliseconds that a seconds option's text reads as, if
/// it is given.
pub open spec fn seconds_option_value(t: Option<&str>) -> Option<Seconds> {
    match t {
        None => None,
        Some(s) => match seconds_text_value(text_bytes(s)) {
            Some((secs, ms)) => Some(Seconds { secs: secs as u64, millis: ms as u32 }),
            None => None,
        },
    }
}

/// The value an option's text reads as, if it is given.
pub open spec fn signed_option_value(t: Option<&str>) -> Option<int> {
    match t {
        None => None,
        Some(s) => signed_text_value(text_bytes(s)),
    }
}

/// The value an unsigned option's text reads as, if it is given.
pub open spec fn unsigned_option_value(t: Option<&str>) -> Option<int> {
    match t {
        None => None,
        Some(s) => unsigned_text_value(text_bytes(s)),
    }
}

/// An optional value held as a `u64`.
pub open spec fn option_as_u64(v: Option<int>) -> Option<u64> {
    match v {
        Some(x) => Some(x as u64),
        None => None,
    }
}

/// An optional value held as a `u32`.
pub open spec fn option_as_u32(v: Option<int>) -> Option<u32> {
    match v {
        Some(x) => Some(x as u32),
        None => None,
    }
}

/// Reads the options of the ping command from the texts given for them.
/// The count falls back to four attempts. The options are read in the
/// order count, interval, timeout, size, and the first whose text is no
/// number in range is reported.
pub fn ping_options(
    count: Option<&str>,
    interval: Option<&str>,
    timeout: Option<&str>,
    size: Option<&str>,
) -> (r: Result<PingOptions, PingOptionError>)
    ensures
        r is Ok <==> (i32_text_ok(count) && seconds_text_ok(interval)
            && unsigned_text_ok(timeout, u64::MAX as int) && unsigned_text_ok(
            size,
            u32::MAX as int,
        )),
        r == Err::<PingOptions, PingOptionError>(PingOptionError::Count) <==> !i32_text_ok(count),
        r == Err::<PingOptions, PingOptionError>(PingOptionError::Interval) <==> i32_text_ok(count)
            && !seconds_text_ok(interval),
        r == Err::<PingOptions, PingOptionError>(PingOptionError::Timeout) <==> i32_text_ok(count)
            && seconds_text_ok(interval) && !unsigned_text_ok(
            timeout,
            u64::MAX as int,
        ),
        r == Err::<PingOptions, PingOptionError>(PingOptionError::Size) <==> i32_text_ok(count)
            && seconds_text_ok(interval) && unsigned_text_ok(
            timeout,
            u64::MAX as int,
        ) && !unsigned_text_ok(size, u32::MAX as int),
        r matches Ok(o) ==> {
            &&& o.attempts == (match signed_option_value(count) {
                Some(v) => v,
                None => DEFAULT_ATTEMPTS as int,
            })
            &&& o.interval == seconds_option_value(interval)
            &&& o.timeout_secs == option_as_u64(unsigned_option_value(timeout))
            &&& o.data_size == option_as_u32(unsigned_option_value(size))
        },
{
    let attempts = match count {
        Some(c) => match parse_i32(c.as_bytes()) {
            Some(v) => v,
            None => {
                return Err(PingOptionError::Count);
            },
        },
        None => DEFAULT_ATTEMPTS,
    };
    let interval_value = match interval {
        Some(t) => match parse_seconds(t.as_bytes()) {
            Some(v) => Some(v),
            None => {
                return Err(PingOptionError::Interval);
            },
        },
        None => None,
    };
    let timeout_secs = match timeout {
        Some(t) => match parse_u64(t.as_bytes()) {
            Some(v) => Some(v),
            None => {
                return Err(PingOptionError::Timeout);
            },
        },
        None => None,
    };
    let data_size = match size {
        Some(t) => match parse_u32(t.as_bytes()) {
            Some(v) => Some(v),
            None => {
                return Err(PingOptionError::Size);
            },
        },
        None => None,
    };
    Ok(PingOptions { attempts, interval: interval_value, timeout_secs, data_size })
}

/// The argument texts of the ping command, as the terminal hands them over.
pub struct PingArguments {
    pub host: Option<String>,
    pub count: Option<String>,
    pub interval: Option<String>,
    pub timeout: Option<String>,
    pub size: Option<String>,
}

/// The value looked up for one parameter, with a parameter that the
/// command does not declare counting as one that was not given.
fn lookup(params: &[ParamSpec], args: &[&str], name: &str) -> (r: Option<String>)
    ensures
        text_of(r) == (match argument_lookup(params@, args@, name@) {
            Ok(v) => v,
            Err(_) => None,
        }),
{
    argument_value(find_argument(params, args, name))
}

/// The value that the outcome of an argument lookup gives a parameter: the
/// text found, or `None` when none was given or the command does not
/// declare the parameter.
pub fn argument_value(found: Result<Option<String>, menu::Error>) -> (r: Option<String>)
    ensures
        found matches Ok(v) ==> r == v,
        found is Err ==> r is None,
{
    match found {
        Ok(v) => v,
        Err(_) => None,
    }
}

/// The parameters of the ping command: the mandatory host, then the named
/// values `count`, `interval`, `timeout` and `size`.
pub open spec fn ping_params() -> Seq<ParamSpec> {
    seq![
        ParamSpec { kind: ParamKind::Mandatory, name: "hostname/IP" },
        ParamSpec { kind: ParamKind::NamedValue, name: "count" },
        ParamSpec { kind: ParamKind::NamedValue, name: "interval" },
        ParamSpec { kind: ParamKind::NamedValue, name: "timeout" },
        ParamSpec { kind: ParamKind::NamedValue, name: "size" },
    ]
}

/// Looks up the arguments of the ping command: the host is the first
/// argument that does not start with `--`, and each option is the text
/// after the first `--count=`, `--interval=`, `--timeout=` or `--size=`.
pub fn ping_arguments(args: &[&str]) -> (r: PingArguments)
    ensures
        text_of(r.host) == nth_positional(args@, 1),
        text_of(r.count) == first_named_value(args@, "count"@),
        text_of(r.interval) == first_named_value(args@, "interval"@),
        text_of(r.timeout) == first_named_value(args@, "timeout"@),
        text_of(r.size) == first_named_value(args@, "size"@),
{
    let params = [
        ParamSpec { kind: ParamKind::Mandatory, name: "hostname/IP" },
        ParamSpec { kind: ParamKind::NamedValue, name: "count" },
        ParamSpec { kind: ParamKind::NamedValue, name: "interval" },
        ParamSpec { kind: ParamKind::NamedValue, name: "timeout" },
        ParamSpec { kind: ParamKind::NamedValue, name: "size" },
    ];
    proof {
        reveal_strlit("hostname/IP");
        reveal_strlit("count");
        reveal_strlit("interval");
        reveal_strlit("timeout");
        reveal_strlit("size");
        let ps = params@;
        assert(ps =~= ping_params());
        reveal_with_fuel(last_param, 6);
        let p4 = ps.drop_last();
        let p3 = p4.drop_last();
        let p2 = p3.drop_last();
        let p1 = p2.drop_last();
        assert(p1.drop_last() =~= Seq::<ParamSpec>::empty());
        assert(ps.take(1) =~= p1);
        assert(last_param(ps, "size"@) == 4);
        assert(last_param(ps, "timeout"@) == 3);
        assert(last_param(ps, "interval"@) == 2);
        assert(last_param(ps, "count"@) == 1);
        assert(last_param(ps, "hostname/IP"@) == 0);
        assert(kind_count(Seq::<ParamSpec>::empty(), ParamKind::Mandatory) == 0);
        assert(kind_count(p1, ParamKind::Mandatory) == 1);
    }
    let host = lookup(&params, args, "hostname/IP");
    PingArguments {
        host,
        count: lookup(&params, args, "count"),
        interval: lookup(&params, args, "interval"),
        timeout: lookup(&params, args, "timeout"),
        size: lookup(&params, args, "size"),
    }
}

} // verus!
