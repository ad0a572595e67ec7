//! Moments in time as plain numbers.
use vstd::prelude::*;

verus! {

/// A moment in UTC: seconds since the beginning of 1970, and nanoseconds on top.
#[derive(Debug, Clone, Copy, PartialEq, Eq, Structural)]
pub struct Timestamp {
    pub seconds: i64,
    pub nanos: u32,
}

/// A length of time: seconds, and nanoseconds on top.
#[derive(Debug, Clone, Copy, PartialEq, Eq, Structural)]
pub struct Span {
    pub seconds: i64,
    pub nanos: u32,
}

impl Span {
    /// The length in nanoseconds.
    pub open spec fn length(self) -> int {
        self.seconds * 1_000_000_000 + self.nanos
    }
}

/// The first second that chrono's `DateTime<Utc>` can hold.
pub const FIRST_SECOND: i64 = -8_334_601_228_800;

/// The last second that chrono's `DateTime<Utc>` can hold.
pub const LAST_SECOND: i64 = 8_210_266_876_799;

/// A number of seconds in 64 bits, read as a signed one.
pub open spec fn signed(n: u64) -> int {
    if n <= i64::MAX {
        n as int
    } else {
        n - 0x1_0000_0000_0000_0000
    }
}

/// A number of seconds in 64 bits, read as a signed one.
pub fn as_signed(n: u64) -> (r: i64)
    ensures
        r == signed(n),
{
    if n <= 0x7fff_ffff_ffff_ffff {
        n as i64
    } else {
        -((u64::MAX - n) as i64) - 1
    }
}

impl Timestamp {
    /// Whether this moment is no later than another.
    pub open spec fn le(self, other: Timestamp) -> bool {
        self.seconds < other.seconds || (self.seconds == other.seconds && self.nanos <= other.nanos)
    }

    /// Whether this moment is no later than another.
    pub fn at_most(&self, other: &Timestamp) -> (r: bool)
        ensures
            r == self.le(*other),
    {
        self.seconds < other.seconds || (self.seconds == other.seconds && self.nanos <= other.nanos)
    }

    /// Whether this moment lies in a leap second, which is told by more
    /// nanoseconds than a second has.
    pub open spec fn is_leap(self) -> bool {
        self.nanos >= 1_000_000_000
    }

    /// The second of the day.
    pub open spec fn time_of_day(self) -> int {
        self.seconds as int % 86_400
    }

    /// The nanoseconds from `then` to this moment, as chrono counts them: a leap
    /// second counts where the one moment lies in it and the other comes later
    /// in the day.
    pub open spec fn since(self, then: Timestamp) -> int {
        let leap: int = if self.time_of_day() > then.time_of_day() && then.is_leap() {
            1
        } else if self.time_of_day() < then.time_of_day() && self.is_leap() {
            -1
        } else {
            0
        };
        (self.seconds - then.seconds + leap) * 1_000_000_000 + self.nanos - then.nanos
    }

    fn second_of_day(&self) -> (r: i128)
        ensures
            r == self.time_of_day(),
    {
        proof {
            vstd::arithmetic::div_mod::lemma_mod_multiples_vanish(
                106_751_991_167_301,
                self.seconds as int,
                86_400,
            );
        }
        (self.seconds as i128 + 86_400 * 106_751_991_167_301) % 86_400
    }

    /// Whether more than `age` lies between `then` and this moment.
    pub fn is_later_by_more_than(&self, then: &Timestamp, age: &Span) -> (r: bool)
        ensures
            r == (self.since(*then) > age.length()),
    {
        let here: i128 = self.second_of_day();
        let there: i128 = then.second_of_day();
        let leap: i128 = if here > there && then.nanos >= 1_000_000_000 {
            1
        } else if here < there && self.nanos >= 1_000_000_000 {
            -1
        } else {
            0
        };
        let seconds: i128 = self.seconds as i128 - then.seconds as i128 + leap;
        let passed: i128 = seconds * 1_000_000_000 + self.nanos as i128 - then.nanos as i128;
        passed > age.seconds as i128 * 1_000_000_000 + age.nanos as i128
    }

    /// The second and the nanosecond some seconds later, or earlier, as chrono
    /// counts them: from a leap second it goes on as if there were none.
    pub open spec fn shifted(self, seconds: int) -> (int, int) {
        if !self.is_leap() || seconds == 0 {
            (self.seconds + seconds, self.nanos as int)
        } else if seconds > 0 {
            (self.seconds + seconds, self.nanos - 1_000_000_000)
        } else {
            (self.seconds + seconds + 1, self.nanos - 1_000_000_000)
        }
    }

    /// Whether the moment some seconds later can be told.
    pub open spec fn can_shift(self, seconds: int) -> bool {
        FIRST_SECOND <= self.shifted(seconds).0 <= LAST_SECOND
    }

    /// The moment some seconds later, or earlier.
    pub fn plus_seconds(&self, seconds: i64) -> (r: Timestamp)
        requires
            self.can_shift(seconds as int),
        ensures
            (r.seconds as int, r.nanos as int) == self.shifted(seconds as int),
    {
        let sum: i128 = self.seconds as i128 + seconds as i128;
        if self.nanos < 1_000_000_000 || seconds == 0 {
            Timestamp { seconds: sum as i64, nanos: self.nanos }
        } else if seconds > 0 {
            Timestamp { seconds: sum as i64, nanos: self.nanos - 1_000_000_000 }
        } else {
            Timestamp { seconds: (sum + 1) as i64, nanos: self.nanos - 1_000_000_000 }
        }
    }
}

/// The moment that a text stands for as chrono reads it, or none.
pub uninterp spec fn utc_time(text: Seq<char>) -> Option<Timestamp>;

/// `str::parse` into chrono's `DateTime<Utc>`, taken as seconds and nanoseconds.
/// What it reads depends on the text alone and is named [`utc_time`].
#[verifier::external_body]
pub(crate) fn parse_utc(text: &str) -> (r: Option<Timestamp>)
    ensures
        r == utc_time(text@),
{
    let parsed = text.parse::<chrono::DateTime<chrono::Utc>>();
    parsed.ok().map(|t| Timestamp { seconds: t.timestamp(), nanos: t.timestamp_subsec_nanos() })
}

/// The text that chrono writes for a moment, or none where it lies out of range.
pub uninterp spec fn rfc3339(moment: Timestamp) -> Option<Seq<char>>;

/// `DateTime::<Utc>::from_timestamp` and `to_rfc3339` of chrono. What they write
/// depends on the moment alone and is named [`rfc3339`].
#[verifier::external_body]
pub(crate) fn write_rfc3339(moment: Timestamp) -> (r: Option<String>)
    ensures
        crate::text::opt_text(r) == rfc3339(moment),
{
    chrono::DateTime::<chrono::Utc>::from_timestamp(moment.seconds, moment.nanos).map(
        |t| t.to_rfc3339(),
    )
}

/// The order of moments is that of the nanoseconds since 1970, where neither lies in a leap
/// second, and it is one of all moments: of two one is no later, and two that are no later
/// than each other are one.
pub proof fn moments_are_in_order(a: Timestamp, b: Timestamp, c: Timestamp)
    ensures
        a.nanos < 1_000_000_000 && b.nanos < 1_000_000_000 ==> (a.le(b) <==> a.seconds
            * 1_000_000_000 + a.nanos <= b.seconds * 1_000_000_000 + b.nanos),
        a.le(b) || b.le(a),
        a.le(b) && b.le(a) ==> a == b,
        a.le(b) && b.le(c) ==> a.le(c),
{
}

/// The time between two moments is the difference of their nanoseconds since 1970, where
/// neither lies in a leap second; and wherever they lie, the time from the one to the other
/// is that from the other to the one, counted backwards.
pub proof fn time_passes_both_ways(a: Timestamp, b: Timestamp)
    ensures
        a.nanos < 1_000_000_000 && b.nanos < 1_000_000_000 ==> a.since(b) == (a.seconds
            * 1_000_000_000 + a.nanos) - (b.seconds * 1_000_000_000 + b.nanos),
        a.since(b) == -b.since(a),
{
}

/// A moment that is shifted lies as many seconds later: where it lies in no leap second, so
/// much time passed between the two. A number of seconds that 63 bits hold is read as it is,
/// and any other as the negative number that is as far below zero as it is below the end.
pub proof fn a_shift_adds_its_seconds(t: Timestamp, n: u64, later: Timestamp)
    requires
        call_ensures(Timestamp::plus_seconds, (&t, signed(n) as i64), later),
    ensures
        n <= i64::MAX ==> signed(n) == n,
        n > i64::MAX ==> signed(n) < 0 && signed(n) + 0x1_0000_0000_0000_0000 == n,
        t.nanos < 1_000_000_000 ==> later.seconds == t.seconds + signed(n) && later.nanos
            == t.nanos,
        t.nanos < 1_000_000_000 ==> later.since(t) == signed(n) * 1_000_000_000,
{
}

/// A moment is later by more than some time exactly where more than that passed.
pub proof fn later_is_more_than_the_time_between(
    now: Timestamp,
    then: Timestamp,
    age: Span,
    r: bool,
)
    requires
        call_ensures(Timestamp::is_later_by_more_than, (&now, &then, &age), r),
        now.nanos < 1_000_000_000,
        then.nanos < 1_000_000_000,
    ensures
        r <==> (now.seconds - then.seconds) * 1_000_000_000 + now.nanos - then.nanos
            > age.seconds * 1_000_000_000 + age.nanos,
{
}

/// A leap second, which more nanoseconds than a second has tell of, is a second more that passed,
/// where the earlier moment lies in it and the later one comes later in the day; and a moment is
/// later by more than some time exactly where more than that passed.
pub proof fn a_leap_second_counts_on_its_day(now: Timestamp, then: Timestamp, age: Span, r: bool)
    requires
        call_ensures(Timestamp::is_later_by_more_than, (&now, &then, &age), r),
    ensures
        ({
            let plain = (now.seconds - then.seconds) * 1_000_000_000 + now.nanos - then.nanos;
            let here = now.seconds as int % 86_400;
            let there = then.seconds as int % 86_400;
            &&& here > there && then.nanos >= 1_000_000_000 ==> now.since(then) == plain
                + 1_000_000_000
            &&& here > there && then.nanos < 1_000_000_000 ==> now.since(then) == plain
            &&& here == there ==> now.since(then) == plain
            &&& here < there && now.nanos >= 1_000_000_000 ==> now.since(then) == plain
                - 1_000_000_000
            &&& here < there && now.nanos < 1_000_000_000 ==> now.since(then) == plain
        }),
        r <==> now.since(then) > age.seconds * 1_000_000_000 + age.nanos,
{
}

/// A shift out of a leap second goes on as if there were none: forwards it ends that many seconds
/// behind the second before it, and backwards one second later than it would otherwise.
pub proof fn a_shift_leaves_a_leap_second(t: Timestamp, n: i64, r: Timestamp)
    requires
        call_ensures(Timestamp::plus_seconds, (&t, n), r),
    ensures
        n == 0 ==> r == t,
        t.nanos < 1_000_000_000 ==> r.seconds == t.seconds + n && r.nanos == t.nanos,
        t.nanos >= 1_000_000_000 && n > 0 ==> r.seconds == t.seconds + n && r.nanos == t.nanos
            - 1_000_000_000,
        t.nanos >= 1_000_000_000 && n < 0 ==> r.seconds == t.seconds + n + 1 && r.nanos == t.nanos
            - 1_000_000_000,
{
}

/// The functions on moments and numbers do what is said of them.
pub proof fn moments_are_compared_as_they_are(a: Timestamp, b: Timestamp, r: bool, n: u64, s: i64)
    requires
        call_ensures(Timestamp::at_most, (&a, &b), r),
        call_ensures(as_signed, (n,), s),
    ensures
        r <==> a.seconds < b.seconds || (a.seconds == b.seconds && a.nanos <= b.nanos),
        n <= i64::MAX ==> s == n,
        n > i64::MAX ==> s + 0x1_0000_0000_0000_0000 == n,
{
}

} // verus!
