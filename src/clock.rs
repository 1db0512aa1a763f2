//! Timestamps that stamp a report, and the clocks that supply them.
use vstd::prelude::*;

use crate::text::{decimal, push_char, push_decimal, abs};

verus! {

/// A calendar date with a time of day to the minute.
#[derive(Clone, Copy, Debug, PartialEq, Eq)]
pub struct Timestamp {
    pub year: i32,
    pub month: u8,
    pub day: u8,
    pub hour: u8,
    pub minute: u8,
}

impl Timestamp {
    /// Every field lies in its calendar range.
    pub open spec fn wf(&self) -> bool {
        &&& 1 <= self.month <= 12
        &&& 1 <= self.day <= 31
        &&& self.hour < 24
        &&& self.minute < 60
    }
}

/// `n` in decimal, padded with zeros on the left to at least `width` digits.
#[verifier::opaque]
pub open spec fn padded(n: nat, width: nat) -> Seq<char> {
    let digits = decimal(n);
    let fill = if digits.len() < width { (width - digits.len()) as nat } else { 0 };
    Seq::new(fill, |i: int| '0') + digits
}

/// A year as at least four digits, preceded by `-` when negative.
pub open spec fn year_text(y: int) -> Seq<char> {
    (if y < 0 { seq!['-'] } else { Seq::<char>::empty() }) + padded(abs(y), 4)
}

/// `YYYY-MM-DD HH-MM`.
pub open spec fn timestamp_text(t: Timestamp) -> Seq<char> {
    year_text(t.year as int) + seq!['-'] + padded(t.month as nat, 2) + seq!['-'] + padded(
        t.day as nat,
        2,
    ) + seq![' '] + padded(t.hour as nat, 2) + seq!['-'] + padded(t.minute as nat, 2)
}

proof fn lemma_decimal_len(n: nat)
    ensures
        decimal(n).len() >= 1,
        n < 10 <==> decimal(n).len() == 1,
        n < 100 <==> decimal(n).len() <= 2,
        n < 1000 <==> decimal(n).len() <= 3,
        n < 10000 <==> decimal(n).len() <= 4,
    decreases n,
{
    if n >= 10 {
        lemma_decimal_len(n / 10);
    }
}

fn push_zeros(s: &mut String, count: u32)
    ensures
        final(s)@ == old(s)@ + Seq::new(count as nat, |i: int| '0'),
{
    let ghost s0 = s@;
    let mut k: u32 = 0;
    while k < count
        invariant
            k <= count,
            s@ =~= s0 + Seq::new(k as nat, |i: int| '0'),
        decreases count - k,
    {
        push_char(s, '0');
        k = k + 1;
    }
}

/// Appends `n` padded with zeros to at least `width` digits.
fn push_padded(s: &mut String, n: u32, width: u32)
    requires
        width <= 4,
    ensures
        final(s)@ == old(s)@ + padded(n as nat, width as nat),
{
    proof {
        lemma_decimal_len(n as nat);
    }
    let len: u32 = if n < 10 {
        1
    } else if n < 100 {
        2
    } else if n < 1000 {
        3
    } else if n < 10000 {
        4
    } else {
        5
    };
    if len < width {
        push_zeros(s, width - len);
    }
    push_decimal(s, n as u64);
    reveal(padded);
    assert(s@ =~= old(s)@ + padded(n as nat, width as nat));
}

/// Appends `t` as `YYYY-MM-DD HH-MM`.
pub(crate) fn push_timestamp(s: &mut String, t: &Timestamp)
    ensures
        final(s)@ == old(s)@ + timestamp_text(*t),
{
    let ghost s0 = s@;
    if t.year < 0 {
        push_char(s, '-');
    }
    let y: u32 = if t.year < 0 {
        (0 - (t.year as i64)) as u32
    } else {
        t.year as u32
    };
    assert(y as nat == abs(t.year as int));
    push_padded(s, y, 4);
    assert(s@ =~= s0 + year_text(t.year as int));
    let ghost s1 = s@;
    push_char(s, '-');
    push_padded(s, t.month as u32, 2);
    push_char(s, '-');
    push_padded(s, t.day as u32, 2);
    let ghost s2 = s@;
    assert(s2 =~= s1 + seq!['-'] + padded(t.month as nat, 2) + seq!['-'] + padded(t.day as nat, 2));
    push_char(s, ' ');
    push_padded(s, t.hour as u32, 2);
    push_char(s, '-');
    push_padded(s, t.minute as u32, 2);
    assert(s@ =~= s2 + seq![' '] + padded(t.hour as nat, 2) + seq!['-'] + padded(t.minute as nat, 2));
    assert(s@ =~= s0 + timestamp_text(*t));
}

/// Renders `t` as `YYYY-MM-DD HH-MM`.
pub fn format_timestamp(t: &Timestamp) -> (r: String)
    ensures
        r@ == timestamp_text(*t),
{
    let mut s = String::new();
    push_timestamp(&mut s, t);
    assert(s@ =~= timestamp_text(*t));
    s
}

/// A source of the time at which a report is made.
pub trait Clock {
    /// Whether `t` is a time that this clock may give; unless a clock says
    /// otherwise, any time.
    open spec fn stamp_ok(t: Timestamp) -> bool {
        true
    }

    fn now_local() -> (r: Timestamp)
        ensures
            Self::stamp_ok(r),
    ;
}

/// The system clock, read in UTC.
pub struct RealClock {}

impl Clock for RealClock {
    open spec fn stamp_ok(t: Timestamp) -> bool {
        t.wf()
    }

    fn now_local() -> (r: Timestamp)
        ensures
            r.wf(),
    {
        utc_now()
    }
}

/// The time that the fixed clock always gives: 2020-01-01 00:00.
pub open spec fn fixed_stamp() -> Timestamp {
    Timestamp { year: 2020, month: 1, day: 1, hour: 0, minute: 0 }
}

/// A clock that always gives 2020-01-01 00:00, so that reports can be
/// reproduced byte for byte.
pub struct FixedClock {}

impl Clock for FixedClock {
    open spec fn stamp_ok(t: Timestamp) -> bool {
        t == fixed_stamp()
    }

    fn now_local() -> (r: Timestamp) {
        Timestamp { year: 2020, month: 1, day: 1, hour: 0, minute: 0 }
    }
}

/// Relies on time::OffsetDateTime::now_utc and on its getters, which give the
/// month as 1..=12, the day as 1..=31, the hour as 0..24 and the minute as 0..60.
#[verifier::external_body]
fn utc_now() -> (r: Timestamp)
    ensures
        r.wf(),
{
    let now = time::OffsetDateTime::now_utc();
    Timestamp {
        year: now.year(),
        month: u8::from(now.month()),
        day: now.day(),
        hour: now.hour(),
        minute: now.minute(),
    }
}

} // verus!
