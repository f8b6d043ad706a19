//! The bookkeeping of an echo session: which requests are outstanding, which
//! timed out, and how durations are broken up for display.

use vstd::prelude::*;
use crate::clock::{swapped, system_time_nanos, u16_from_be, u16_to_be};

verus! {

/// Why the time could not be read.
#[derive(Clone, Copy, Debug, PartialEq, Eq, Structural)]
pub enum ClockError {
    /// The system clock stands before the Unix epoch.
    BeforeEpoch,
}

/// The current time in nanoseconds since the Unix epoch.
pub fn timestamp_now() -> (r: Result<u128, ClockError>)
    ensures
        exists|reading: Option<u128>| r == #[trigger] spec_timestamp_of(reading),
{
    let reading = system_time_nanos();
    timestamp_of(reading)
}

/// The time that a reading of the system clock stands for: the reading
/// itself, and a failure where the clock gave none.
pub open spec fn spec_timestamp_of(reading: Option<u128>) -> Result<u128, ClockError> {
    match reading {
        Some(now) => Ok(now),
        None => Err(ClockError::BeforeEpoch),
    }
}

/// Turns a reading of the system clock into a time.
///
/// [`timestamp_now`] hands this function whatever the clock gave.
#[verifier::when_used_as_spec(spec_timestamp_of)]
pub fn timestamp_of(reading: Option<u128>) -> (r: Result<u128, ClockError>)
    ensures
        r == spec_timestamp_of(reading),
{
    match reading {
        Some(now) => Ok(now),
        None => Err(ClockError::BeforeEpoch),
    }
}

/// A duration shown in the largest two units that fit, down to seconds.
#[derive(Clone, Copy, Debug, PartialEq, Eq, Structural)]
pub struct DisplaySecondDuration {
    pub nanos: u128,
}

/// How a [`DisplaySecondDuration`] reads.
#[derive(Clone, Copy, Debug, PartialEq, Eq, Structural)]
pub enum SecondParts {
    /// Hours, and minutes within the hour.
    HoursMinutes { hours: u128, minutes: u128 },
    /// Minutes, and seconds within the minute.
    MinutesSeconds { minutes: u128, seconds: u128 },
    /// Seconds and one digit behind the point.
    Seconds { seconds: u128, tenths: u128 },
    /// Whole milliseconds.
    Millis { millis: u128 },
}

impl DisplaySecondDuration {
    pub fn new(nanos: u128) -> (d: DisplaySecondDuration)
        ensures
            d.nanos == nanos,
    {
        DisplaySecondDuration { nanos }
    }

    /// The reading of the duration.
    ///
    /// The digit behind the point of the seconds is taken from the
    /// microseconds within the millisecond.
    pub open spec fn spec_parts(&self) -> SecondParts {
        let us = self.nanos / 1000;
        let ms = us / 1000;
        let s = ms / 1000;
        let m = s / 60;
        let h = m / 60;
        if h > 0 {
            SecondParts::HoursMinutes { hours: h, minutes: m % 60 }
        } else if m > 0 {
            SecondParts::MinutesSeconds { minutes: m, seconds: s % 60 }
        } else if s > 0 {
            SecondParts::Seconds { seconds: s, tenths: (us % 1000) / 100 }
        } else {
            SecondParts::Millis { millis: ms }
        }
    }

    #[verifier::when_used_as_spec(spec_parts)]
    pub fn parts(&self) -> (p: SecondParts)
        ensures
            p == self.spec_parts(),
    {
        let us_int = self.nanos / 1000;
        let ms_int = us_int / 1000;
        let ms_rem = us_int % 1000;
        let s_int = ms_int / 1000;
        let m_int = s_int / 60;
        let h_int = m_int / 60;
        if h_int > 0 {
            SecondParts::HoursMinutes { hours: h_int, minutes: m_int % 60 }
        } else if m_int > 0 {
            SecondParts::MinutesSeconds { minutes: m_int, seconds: s_int % 60 }
        } else if s_int > 0 {
            SecondParts::Seconds { seconds: s_int, tenths: ms_rem / 100 }
        } else {
            SecondParts::Millis { millis: ms_int }
        }
    }
}

/// A duration shown in seconds or milliseconds with one digit behind the
/// point.
#[derive(Clone, Copy, Debug, PartialEq, Eq, Structural)]
pub struct DisplayMiliSecondDuration {
    pub nanos: u128,
}

/// How a [`DisplayMiliSecondDuration`] reads.
#[derive(Clone, Copy, Debug, PartialEq, Eq, Structural)]
pub enum MilliParts {
    /// Seconds and one digit behind the point.
    Seconds { seconds: u128, tenths: u128 },
    /// Milliseconds and one digit behind the point.
    Millis { millis: u128, tenths: u128 },
    /// Less than a millisecond: the digits behind `0.`.
    Fraction { digits: u128 },
}

impl DisplayMiliSecondDuration {
    pub fn new(nanos: u128) -> (d: DisplayMiliSecondDuration)
        ensures
            d.nanos == nanos,
    {
        DisplayMiliSecondDuration { nanos }
    }

    /// The reading of the duration.
    ///
    /// The digits behind the point are taken one unit below where they
    /// belong: from the microseconds for seconds, from the nanoseconds for
    /// milliseconds.
    pub open spec fn spec_parts(&self) -> MilliParts {
        let us = self.nanos / 1000;
        let ms = us / 1000;
        let s = ms / 1000;
        if s > 0 {
            MilliParts::Seconds { seconds: s, tenths: (us % 1000) / 100 }
        } else if ms > 0 {
            MilliParts::Millis { millis: ms, tenths: (self.nanos % 1000) / 100 }
        } else {
            MilliParts::Fraction { digits: self.nanos % 1000 }
        }
    }

    #[verifier::when_used_as_spec(spec_parts)]
    pub fn parts(&self) -> (p: MilliParts)
        ensures
            p == self.spec_parts(),
    {
        let us_int = self.nanos / 1000;
        let us_rem = self.nanos % 1000;
        let ms_int = us_int / 1000;
        let ms_rem = us_int % 1000;
        let s_int = ms_int / 1000;
        if s_int > 0 {
            MilliParts::Seconds { seconds: s_int, tenths: ms_rem / 100 }
        } else if ms_int > 0 {
            MilliParts::Millis { millis: ms_int, tenths: us_rem / 100 }
        } else {
            MilliParts::Fraction { digits: us_rem }
        }
    }
}

/// An echo request that waits for its reply.
#[derive(Clone, Copy, Debug, PartialEq, Eq, Structural)]
pub struct RequestRecord {
    pub seq: u16,
    /// When the request was sent, in nanoseconds.
    pub sent: u128,
}

/// Nanoseconds in a millisecond.
pub const NANOS_PER_MILLI: u128 = 1_000_000;

impl RequestRecord {
    /// Whether the request waited `timeout_millis` or longer at `now`.
    pub open spec fn expired(&self, now: u128, timeout_millis: u64) -> bool {
        now - self.sent >= timeout_millis as int * 1_000_000
    }

    /// Whether the request timed out at `now`, a time behind its sending.
    pub fn is_expired(&self, now: u128, timeout_millis: u64) -> (r: bool)
        requires
            now > self.sent,
        ensures
            r == self.expired(now, timeout_millis),
    {
        (now - self.sent) >= (timeout_millis as u128) * NANOS_PER_MILLI
    }
}

/// Index of the first record at or after `from` that has not timed out at
/// `now`, or the number of records.
pub open spec fn first_pending_from(
    tbl: Seq<RequestRecord>,
    now: u128,
    timeout_millis: u64,
    from: int,
) -> int
    decreases tbl.len() - from,
{
    if from < 0 || from >= tbl.len() {
        tbl.len() as int
    } else if !tbl[from].expired(now, timeout_millis) {
        from
    } else {
        first_pending_from(tbl, now, timeout_millis, from + 1)
    }
}

/// Index of the first record at or after `from` with the sequence number
/// `seq`, or the number of records.
pub open spec fn first_with_seq_from(tbl: Seq<RequestRecord>, seq: u16, from: int) -> int
    decreases tbl.len() - from,
{
    if from < 0 || from >= tbl.len() {
        tbl.len() as int
    } else if tbl[from].seq == seq {
        from
    } else {
        first_with_seq_from(tbl, seq, from + 1)
    }
}

/// How many of the oldest requests are given up at `now`: all of them if the
/// youngest timed out, else those in front of the first that did not.
pub open spec fn expired_count(tbl: Seq<RequestRecord>, now: u128, timeout_millis: u64) -> int {
    if tbl.len() == 0 {
        0
    } else if tbl.last().expired(now, timeout_millis) {
        tbl.len() as int
    } else {
        first_pending_from(tbl, now, timeout_millis, 0)
    }
}

/// The counters of an echo session and the requests that wait for a reply,
/// oldest first.
#[derive(Debug)]
pub struct StatsGroup {
    pub dst_ip: u32,
    pub sent_cnt: u64,
    pub recv_cnt: u64,
    pub lost_cnt: u64,
    /// When the session began, in nanoseconds.
    pub sent_time: u128,
    pub tbl: Vec<RequestRecord>,
}

/// The counters of a session at one moment.
#[derive(Clone, Copy, Debug, PartialEq, Eq, Structural)]
pub struct Stats {
    pub dst_ip: u32,
    pub sent_cnt: u64,
    pub recv_cnt: u64,
    pub lost_cnt: u64,
    /// How long the session ran, in nanoseconds.
    pub diff_time: u128,
}

impl StatsGroup {
    /// Every request sent is waiting, answered or given up.
    pub open spec fn wf(&self) -> bool {
        self.sent_cnt == self.recv_cnt + self.lost_cnt + self.tbl@.len()
    }

    /// Whether every request sent is waiting, answered or given up.
    pub fn is_wf(&self) -> (r: bool)
        ensures
            r == self.wf(),
    {
        let waiting = self.tbl.len() as u128;
        self.sent_cnt as u128 == self.recv_cnt as u128 + self.lost_cnt as u128 + waiting
    }

    /// A session that begins at `now`, with room for the requests that can
    /// wait at one time.
    pub fn new(dst_ip: u32, now: u128, timeout_millis: u64, interval_millis: u64) -> (g: StatsGroup)
        requires
            timeout_millis > interval_millis,
            interval_millis > 0,
        ensures
            g.wf(),
            g.dst_ip == dst_ip,
            g.sent_cnt == 0,
            g.recv_cnt == 0,
            g.lost_cnt == 0,
            g.sent_time == now,
            g.tbl@.len() == 0,
    {
        let whole = timeout_millis / interval_millis;
        let room = if timeout_millis % interval_millis > 0 {
            assert(whole < u64::MAX) by (nonlinear_arith)
                requires
                    whole == timeout_millis / interval_millis,
                    interval_millis >= 2,
                    timeout_millis <= u64::MAX,
            ;
            whole + 1
        } else {
            whole
        };
        let tbl: Vec<RequestRecord> = Vec::with_capacity(
            #[verifier::truncate]
            (room as usize),
        );
        StatsGroup { dst_ip, sent_cnt: 0, recv_cnt: 0, lost_cnt: 0, sent_time: now, tbl }
    }

    /// Records a request that was sent.
    pub fn push(&mut self, rec: RequestRecord)
        requires
            old(self).wf(),
            old(self).sent_cnt < u64::MAX,
        ensures
            final(self).wf(),
            final(self).tbl@ == old(self).tbl@.push(rec),
            final(self).sent_cnt == old(self).sent_cnt + 1,
            final(self).recv_cnt == old(self).recv_cnt,
            final(self).lost_cnt == old(self).lost_cnt,
            final(self).dst_ip == old(self).dst_ip,
            final(self).sent_time == old(self).sent_time,
    {
        self.tbl.push(rec);
        self.sent_cnt += 1;
    }

    /// Number of requests that wait for a reply, in 16 bits.
    pub fn cwnd(&self) -> (n: u16)
        requires
            self.wf(),
        ensures
            n == self.tbl@.len() % 65536,
            n == (self.sent_cnt - (self.recv_cnt + self.lost_cnt)) % 65536,
    {
        ((self.sent_cnt - (self.recv_cnt + self.lost_cnt)) % 65536) as u16
    }

    /// Gives up the requests that timed out at `now` and hands them out,
    /// oldest first.
    ///
    /// If the youngest request timed out, all did. Otherwise the requests in
    /// front of the first that has not timed out are given up.
    pub fn remove_expired(&mut self, now: u128, timeout_millis: u64) -> (gone: Vec<RequestRecord>)
        requires
            old(self).wf(),
            forall|i: int| 0 <= i < old(self).tbl@.len() ==> now > (#[trigger] old(self).tbl@[i]).sent,
        ensures
            final(self).wf(),
            gone@ == old(self).tbl@.subrange(
                0,
                expired_count(old(self).tbl@, now, timeout_millis),
            ),
            final(self).tbl@ == old(self).tbl@.subrange(
                expired_count(old(self).tbl@, now, timeout_millis),
                old(self).tbl@.len() as int,
            ),
            final(self).lost_cnt == old(self).lost_cnt + expired_count(
                old(self).tbl@,
                now,
                timeout_millis,
            ),
            final(self).sent_cnt == old(self).sent_cnt,
            final(self).recv_cnt == old(self).recv_cnt,
            final(self).dst_ip == old(self).dst_ip,
            final(self).sent_time == old(self).sent_time,
    {
        let len = self.tbl.len();
        if len == 0 {
            assert(self.tbl@.subrange(0, 0) =~= self.tbl@);
            return Vec::new();
        }
        let mut pos: usize = 0;
        if self.tbl[len - 1].is_expired(now, timeout_millis) {
            pos = len;
        } else {
            while pos < len && self.tbl[pos].is_expired(now, timeout_millis)
                invariant
                    pos <= len,
                    len == self.tbl@.len(),
                    self.tbl@ == old(self).tbl@,
                    forall|i: int| 0 <= i < len ==> now > (#[trigger] self.tbl@[i]).sent,
                    first_pending_from(self.tbl@, now, timeout_millis, 0) == first_pending_from(
                        self.tbl@,
                        now,
                        timeout_millis,
                        pos as int,
                    ),
                decreases len - pos,
            {
                pos += 1;
            }
        }
        assert(pos == expired_count(old(self).tbl@, now, timeout_millis));
        let mut rest = self.tbl.split_off(pos);
        core::mem::swap(&mut self.tbl, &mut rest);
        self.lost_cnt += pos as u64;
        rest
    }

    /// Takes out the oldest request with the sequence number `seq` and
    /// counts a reply, if there is such a request.
    pub fn remove(&mut self, seq: u16) -> (r: Option<RequestRecord>)
        requires
            old(self).wf(),
        ensures
            final(self).wf(),
            ({
                let pos = first_with_seq_from(old(self).tbl@, seq, 0);
                if pos < old(self).tbl@.len() {
                    &&& r == Some(old(self).tbl@[pos])
                    &&& final(self).tbl@ == old(self).tbl@.remove(pos)
                    &&& final(self).recv_cnt == old(self).recv_cnt + 1
                } else {
                    &&& r is None
                    &&& final(self).tbl@ == old(self).tbl@
                    &&& final(self).recv_cnt == old(self).recv_cnt
                }
            }),
            final(self).sent_cnt == old(self).sent_cnt,
            final(self).lost_cnt == old(self).lost_cnt,
            final(self).dst_ip == old(self).dst_ip,
            final(self).sent_time == old(self).sent_time,
    {
        let len = self.tbl.len();
        let mut pos: usize = 0;
        while pos < len && self.tbl[pos].seq != seq
            invariant
                pos <= len,
                len == self.tbl@.len(),
                self.tbl@ == old(self).tbl@,
                first_with_seq_from(self.tbl@, seq, 0) == first_with_seq_from(
                    self.tbl@,
                    seq,
                    pos as int,
                ),
            decreases len - pos,
        {
            pos += 1;
        }
        if pos < len {
            self.recv_cnt += 1;
            Some(self.tbl.remove(pos))
        } else {
            None
        }
    }

    /// The counters at `now`, a time not before the session began.
    pub fn elapsed(&self, now: u128) -> (stats: Stats)
        requires
            now >= self.sent_time,
        ensures
            stats == (Stats {
                dst_ip: self.dst_ip,
                sent_cnt: self.sent_cnt,
                recv_cnt: self.recv_cnt,
                lost_cnt: self.lost_cnt,
                diff_time: (now - self.sent_time) as u128,
            }),
    {
        Stats {
            dst_ip: self.dst_ip,
            sent_cnt: self.sent_cnt,
            recv_cnt: self.recv_cnt,
            lost_cnt: self.lost_cnt,
            diff_time: now - self.sent_time,
        }
    }
}

impl Stats {
    /// The share of requests given up among those answered or given up, in
    /// whole percent; nothing while none was either.
    pub fn loss_rate(&self) -> (rate: Option<u64>)
        requires
            self.recv_cnt + self.lost_cnt <= u64::MAX,
            self.lost_cnt * 100 <= u64::MAX,
        ensures
            self.recv_cnt + self.lost_cnt == 0 ==> rate is None,
            self.recv_cnt + self.lost_cnt > 0 ==> rate == Some(
                ((self.lost_cnt * 100) / (self.recv_cnt + self.lost_cnt)) as u64,
            ),
    {
        let tot = self.recv_cnt + self.lost_cnt;
        if tot == 0 {
            None
        } else {
            Some(self.lost_cnt * 100 / tot)
        }
    }
}

/// The second word of an echo header, from the big-endian halves of the
/// sequence number and the identifier as the machine holds them.
pub open spec fn join_un(seq_be: u16, id_be: u16) -> u32 {
    (seq_be as u32) << 16 | id_be as u32
}

/// The halves of the second word of an echo header: identifier, then
/// sequence number.
pub open spec fn split_un(un: u32) -> (u16, u16) {
    ((un & 0xFFFF) as u16, (un >> 16) as u16)
}

/// Splitting undoes joining.
pub proof fn lemma_split_join(seq_be: u16, id_be: u16)
    ensures
        split_un(join_un(seq_be, id_be)) == (id_be, seq_be),
{
    assert((((seq_be as u32) << 16 | id_be as u32) & 0xFFFF) as u16 == id_be) by (bit_vector);
    assert((((seq_be as u32) << 16 | id_be as u32) >> 16) as u16 == seq_be) by (bit_vector);
}

/// Packs identifier and sequence number into the second word of an echo
/// header, each converted to big endian by the machine.
pub fn pack_un(id: u16, seq: u16) -> (un: u32)
    ensures
        exists|seq_be: u16, id_be: u16|
            (seq_be == seq || seq_be == swapped(seq)) && (id_be == id || id_be == swapped(id))
                && un == #[trigger] join_un(seq_be, id_be),
{
    let seq_be = u16_to_be(seq);
    let id_be = u16_to_be(id);
    let un = (seq_be as u32) << 16 | id_be as u32;
    assert(un == join_un(seq_be, id_be));
    un
}

/// Unpacks the second word of an echo header into identifier and sequence
/// number, each converted from big endian by the machine.
pub fn unpack_un(un: u32) -> (r: (u16, u16))
    ensures
        r.0 == split_un(un).0 || r.0 == swapped(split_un(un).0),
        r.1 == split_un(un).1 || r.1 == swapped(split_un(un).1),
{
    (u16_from_be((un & 0xFFFF) as u16), u16_from_be((un >> 16) as u16))
}

} // verus!
