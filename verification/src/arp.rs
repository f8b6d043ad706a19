//! The ARP cache: a fixed table of learned address mappings that ages its
//! records on every scan, drops those that outlived the liveness window and
//! evicts the longest unused record when it is full.

use vstd::prelude::*;
use crate::clock::utc_now_nanos;
use crate::wire::Mac;

verus! {

/// Number of records of the cache.
pub const ARP_TBL_SZ: usize = 10;

/// The liveness window: how long a record stays valid after its last
/// renewal, in nanoseconds (ten minutes).
pub const ARPLIVE: i128 = 600_000_000_000;

/// One learned mapping from an IPv4 address to a hardware address.
#[derive(Clone, Copy, Debug)]
pub struct ARPRecord {
    pub is_valid: bool,
    /// Number of scans that passed over the record since its last renewal.
    pub age: u16,
    pub ip: u32,
    pub mac: Mac,
    /// When the record was learned or last renewed, in nanoseconds since the
    /// Unix epoch.
    pub ctime: i128,
}

impl ARPRecord {
    /// Whether the record outlived the liveness window at `now`.
    pub open spec fn expired(self, now: i128) -> bool {
        self.ctime + ARPLIVE < now
    }

    /// Whether a scan for `ip` at `now` stops at this record.
    pub open spec fn matches(self, ip: u32, now: i128) -> bool {
        self.is_valid && !self.expired(now) && self.ip == ip
    }

    /// The record as a scan leaves it that passes over it without a match:
    /// dropped if it outlived the window, else one scan older.
    pub open spec fn passed(self, now: i128) -> ARPRecord {
        if !self.is_valid {
            self
        } else if self.expired(now) {
            ARPRecord { is_valid: false, ..self }
        } else if self.age < u16::MAX {
            ARPRecord { age: (self.age + 1) as u16, ..self }
        } else {
            self
        }
    }

    /// The record with its age reset.
    pub open spec fn renewed(self) -> ARPRecord {
        ARPRecord { age: 0, ..self }
    }

    /// A record learned at `now`.
    pub open spec fn learned(ip: u32, mac: Mac, now: i128) -> ARPRecord {
        ARPRecord { is_valid: true, age: 0, ip, mac, ctime: now }
    }

    /// The record that every slot of a new cache holds: invalid, with zero
    /// address and age, learned at the epoch.
    pub open spec fn empty() -> ARPRecord {
        ARPRecord { is_valid: false, age: 0, ip: 0, mac: Mac::zero(), ctime: 0 }
    }

    pub fn is_expired(&self, now: i128) -> (r: bool)
        ensures
            r == self.expired(now),
    {
        if self.ctime > i128::MAX - ARPLIVE {
            false
        } else {
            self.ctime + ARPLIVE < now
        }
    }
}

impl Default for ARPRecord {
    fn default() -> (r: ARPRecord)
        ensures
            r == ARPRecord::empty(),
    {
        ARPRecord { is_valid: false, age: 0, ip: 0, mac: Mac::zero(), ctime: 0 }
    }
}

/// Index of the first record at or after `from` at which a scan for `ip`
/// stops, or the length of the table if there is none.
pub open spec fn first_match_from(tbl: Seq<ARPRecord>, ip: u32, now: i128, from: int) -> int
    decreases tbl.len() - from,
{
    if from < 0 || from >= tbl.len() {
        tbl.len() as int
    } else if tbl[from].matches(ip, now) {
        from
    } else {
        first_match_from(tbl, ip, now, from + 1)
    }
}

/// Index of the record at which a scan for `ip` stops, or the length of the
/// table if the scan runs through.
pub open spec fn first_match(tbl: Seq<ARPRecord>, ip: u32, now: i128) -> int {
    first_match_from(tbl, ip, now, 0)
}

/// The table after a scan for `ip` at `now`: records before the match are
/// passed over, the match is renewed, records behind it are not reached.
pub open spec fn scanned(tbl: Seq<ARPRecord>, ip: u32, now: i128) -> Seq<ARPRecord> {
    let h = first_match(tbl, ip, now);
    Seq::new(
        tbl.len(),
        |j: int|
            if j < h {
                tbl[j].passed(now)
            } else if j == h {
                tbl[j].renewed()
            } else {
                tbl[j]
            },
    )
}

/// The first match is in range, matches, and nothing before it does.
pub proof fn lemma_first_match(tbl: Seq<ARPRecord>, ip: u32, now: i128, from: int)
    requires
        0 <= from <= tbl.len(),
    ensures
        from <= first_match_from(tbl, ip, now, from) <= tbl.len(),
        first_match_from(tbl, ip, now, from) < tbl.len() ==> tbl[first_match_from(
            tbl,
            ip,
            now,
            from,
        )].matches(ip, now),
        forall|j: int|
            from <= j < first_match_from(tbl, ip, now, from) ==> !(#[trigger] tbl[j]).matches(
                ip,
                now,
            ),
    decreases tbl.len() - from,
{
    if from < tbl.len() && !tbl[from].matches(ip, now) {
        lemma_first_match(tbl, ip, now, from + 1);
    }
}

/// An index that matches and has no match between `from` and itself is the
/// first match; with no match at all the scan runs through.
pub proof fn lemma_first_match_is(tbl: Seq<ARPRecord>, ip: u32, now: i128, from: int, h: int)
    requires
        0 <= from <= h <= tbl.len(),
        forall|j: int| from <= j < h ==> !(#[trigger] tbl[j]).matches(ip, now),
        h < tbl.len() ==> tbl[h].matches(ip, now),
    ensures
        first_match_from(tbl, ip, now, from) == h,
    decreases h - from,
{
    if from < h {
        assert(!tbl[from].matches(ip, now));
        lemma_first_match_is(tbl, ip, now, from + 1, h);
    }
}

/// What a scan for `ip` at `now` hands out and leaves behind: whether a
/// record was found, the record as it is handed out, and the table once the
/// holder of that record has left it as `rec_final`.
pub open spec fn scan_outcome(
    before: Seq<ARPRecord>,
    ip: u32,
    now: i128,
    found: bool,
    rec: ARPRecord,
    rec_final: ARPRecord,
    after: Seq<ARPRecord>,
) -> bool {
    let h = first_match(before, ip, now);
    if h == before.len() {
        !found && after == scanned(before, ip, now)
    } else {
        found && rec == scanned(before, ip, now)[h] && after == scanned(before, ip, now).update(
            h,
            rec_final,
        )
    }
}

/// Index of the first invalid record at or after `from`, or the length of the
/// table if every record from there on is valid.
pub open spec fn first_invalid_from(tbl: Seq<ARPRecord>, from: int) -> int
    decreases tbl.len() - from,
{
    if from < 0 || from >= tbl.len() {
        tbl.len() as int
    } else if !tbl[from].is_valid {
        from
    } else {
        first_invalid_from(tbl, from + 1)
    }
}

/// Index of the first record of greatest age among the first `n`.
pub open spec fn oldest(tbl: Seq<ARPRecord>, n: int) -> int
    decreases n,
{
    if n <= 1 {
        0
    } else {
        let o = oldest(tbl, n - 1);
        if tbl[n - 1].age > tbl[o].age {
            n - 1
        } else {
            o
        }
    }
}

/// The slot that a new mapping takes: the first invalid record, or in a full
/// table the first record of greatest age.
pub open spec fn victim(tbl: Seq<ARPRecord>) -> int {
    if first_invalid_from(tbl, 0) < tbl.len() {
        first_invalid_from(tbl, 0)
    } else {
        oldest(tbl, tbl.len() as int)
    }
}

/// The table after learning that `ip` is at `mac`, at `now`: a scan for `ip`,
/// then either the record found takes the address and the time, or the
/// victim slot is overwritten with a fresh record.
pub open spec fn inserted(tbl: Seq<ARPRecord>, ip: u32, mac: Mac, now: i128) -> Seq<ARPRecord> {
    let s = scanned(tbl, ip, now);
    let h = first_match(tbl, ip, now);
    if h < tbl.len() {
        s.update(h, ARPRecord { mac, ctime: now, ..s[h] })
    } else {
        s.update(victim(s), ARPRecord::learned(ip, mac, now))
    }
}

/// No two valid records hold the same IPv4 address.
pub open spec fn distinct(tbl: Seq<ARPRecord>) -> bool {
    forall|i: int, j: int|
        0 <= i < tbl.len() && 0 <= j < tbl.len() && i != j && (#[trigger] tbl[i]).is_valid && (
        #[trigger] tbl[j]).is_valid ==> tbl[i].ip != tbl[j].ip
}

/// The first invalid record is in range, invalid, and all before it are
/// valid.
pub proof fn lemma_first_invalid(tbl: Seq<ARPRecord>, from: int)
    requires
        0 <= from <= tbl.len(),
    ensures
        from <= first_invalid_from(tbl, from) <= tbl.len(),
        first_invalid_from(tbl, from) < tbl.len() ==> !tbl[first_invalid_from(tbl, from)].is_valid,
        forall|j: int| from <= j < first_invalid_from(tbl, from) ==> (#[trigger] tbl[j]).is_valid,
    decreases tbl.len() - from,
{
    if from < tbl.len() && tbl[from].is_valid {
        lemma_first_invalid(tbl, from + 1);
    }
}

/// An invalid index with only valid records between `from` and itself is the
/// first invalid one.
pub proof fn lemma_first_invalid_is(tbl: Seq<ARPRecord>, from: int, v: int)
    requires
        0 <= from <= v <= tbl.len(),
        forall|j: int| from <= j < v ==> (#[trigger] tbl[j]).is_valid,
        v < tbl.len() ==> !tbl[v].is_valid,
    ensures
        first_invalid_from(tbl, from) == v,
    decreases v - from,
{
    if from < v {
        assert(tbl[from].is_valid);
        lemma_first_invalid_is(tbl, from + 1, v);
    }
}

/// The oldest record is at least as old as each of the first `n`, and
/// strictly older than each one before it.
pub proof fn lemma_oldest(tbl: Seq<ARPRecord>, n: int)
    requires
        1 <= n <= tbl.len(),
    ensures
        0 <= oldest(tbl, n) < n,
        forall|j: int| 0 <= j < n ==> (#[trigger] tbl[j]).age <= tbl[oldest(tbl, n)].age,
        forall|j: int| 0 <= j < oldest(tbl, n) ==> (#[trigger] tbl[j]).age < tbl[oldest(tbl, n)].age,
    decreases n,
{
    if n > 1 {
        lemma_oldest(tbl, n - 1);
    }
}

/// A bounded cache of address mappings.
#[derive(Clone, Copy, Debug)]
pub struct ARPRecTbl {
    value: [ARPRecord; 10],
}

impl View for ARPRecTbl {
    type V = Seq<ARPRecord>;

    closed spec fn view(&self) -> Seq<ARPRecord> {
        self.value@
    }
}

impl ARPRecTbl {
    /// A cache of invalid records.
    pub fn new() -> (tbl: ARPRecTbl)
        ensures
            tbl@.len() == ARP_TBL_SZ,
            forall|i: int| 0 <= i < ARP_TBL_SZ ==> tbl@[i] == ARPRecord::empty(),
            distinct(tbl@),
    {
        let rec = ARPRecord::default();
        ARPRecTbl { value: [rec, rec, rec, rec, rec, rec, rec, rec, rec, rec] }
    }

    /// Every cache has `ARP_TBL_SZ` records.
    pub proof fn lemma_len(&self)
        ensures
            self@.len() == ARP_TBL_SZ,
    {
    }

    /// The cache holding the given records.
    pub fn from_records(value: [ARPRecord; 10]) -> (tbl: ARPRecTbl)
        ensures
            tbl@ == value@,
    {
        ARPRecTbl { value }
    }

    /// A copy of the record in slot `i`.
    pub fn get(&self, i: usize) -> (rec: ARPRecord)
        requires
            i < ARP_TBL_SZ,
        ensures
            rec == self@[i as int],
    {
        self.value[i]
    }

    /// Looks `ip` up and renews the record found, reading the clock for the
    /// time of the scan.
    ///
    /// The scan is the one of [`ARPRecTbl::get_mut_and_update_at`], at
    /// whatever time the clock gave.
    pub fn get_mut_and_update(&mut self, ip: u32) -> (r: Option<&mut ARPRecord>)
        ensures
            exists|now: i128|
                #[trigger] scan_outcome(
                    old(self)@,
                    ip,
                    now,
                    r is Some,
                    *r.unwrap(),
                    *final(r.unwrap()),
                    final(self)@,
                ),
    {
        let now = utc_now_nanos();
        self.get_mut_and_update_at(ip, now)
    }

    /// Looks `ip` up as of `now` and renews the record found.
    ///
    /// The table is scanned from the first slot. A valid record that outlived
    /// the liveness window is dropped; a live record of another address grows
    /// one scan older, up to the greatest age; at the first live record of
    /// `ip` the scan stops, resets its age and hands the record out. Records
    /// behind that one are not touched.
    pub fn get_mut_and_update_at(&mut self, ip: u32, now: i128) -> (r: Option<&mut ARPRecord>)
        ensures
            scan_outcome(
                old(self)@,
                ip,
                now,
                r is Some,
                *r.unwrap(),
                *final(r.unwrap()),
                final(self)@,
            ),
    {
        let ghost before = self@;
        let mut i: usize = 0;
        while i < ARP_TBL_SZ
            invariant
                i <= ARP_TBL_SZ,
                before == old(self)@,
                before.len() == ARP_TBL_SZ,
                self@.len() == ARP_TBL_SZ,
                forall|j: int| 0 <= j < i ==> !(#[trigger] before[j]).matches(ip, now),
                forall|j: int| 0 <= j < i ==> self@[j] == (#[trigger] before[j]).passed(now),
                forall|j: int| i <= j < ARP_TBL_SZ ==> self@[j] == #[trigger] before[j],
            decreases ARP_TBL_SZ - i,
        {
            let rec = self.value[i];
            assert(rec == before[i as int]);
            if rec.is_valid {
                if rec.is_expired(now) {
                    self.value[i].is_valid = false;
                } else if rec.ip == ip {
                    self.value[i].age = 0;
                    proof {
                        lemma_first_match_is(before, ip, now, 0, i as int);
                        assert(self@ =~= scanned(before, ip, now));
                    }
                    return Some(&mut self.value[i]);
                } else if rec.age < u16::MAX {
                    self.value[i].age = rec.age + 1;
                }
            }
            i += 1;
        }
        proof {
            lemma_first_match_is(before, ip, now, 0, ARP_TBL_SZ as int);
            assert(self@ =~= scanned(before, ip, now));
        }
        None
    }

    /// Learns that `ip` is at `mac`, reading the clock for the time.
    pub fn insert(&mut self, ip: u32, mac: Mac)
        ensures
            exists|now: i128| final(self)@ == #[trigger] inserted(old(self)@, ip, mac, now),
            distinct(old(self)@) ==> distinct(final(self)@),
    {
        let now = utc_now_nanos();
        self.insert_at(ip, mac, now);
    }

    /// Learns at `now` that `ip` is at `mac`.
    ///
    /// A live record of `ip` is renewed in place: it takes the address and the
    /// time. Otherwise the first invalid record, or in a full table the first
    /// record of greatest age, becomes a fresh record of the mapping.
    pub fn insert_at(&mut self, ip: u32, mac: Mac, now: i128)
        ensures
            final(self)@ == inserted(old(self)@, ip, mac, now),
            distinct(old(self)@) ==> distinct(final(self)@),
    {
        let ghost before = self@;
        proof {
            self.lemma_len();
            lemma_first_match(before, ip, now, 0);
            if distinct(before) {
                lemma_inserted_distinct(before, ip, mac, now);
            }
        }
        match self.get_mut_and_update_at(ip, now) {
            Some(rec) => {
                rec.mac = mac;
                rec.ctime = now;
                assert(self@ =~= inserted(before, ip, mac, now));
                return ;
            },
            None => {},
        }
        let ghost s = self@;
        let mut v: usize = 0;
        while v < ARP_TBL_SZ && self.value[v].is_valid
            invariant
                v <= ARP_TBL_SZ,
                self@ == s,
                s.len() == ARP_TBL_SZ,
                forall|j: int| 0 <= j < v ==> (#[trigger] s[j]).is_valid,
            decreases ARP_TBL_SZ - v,
        {
            v += 1;
        }
        proof {
            lemma_first_invalid_is(s, 0, v as int);
        }
        if v == ARP_TBL_SZ {
            v = 0;
            let mut n: usize = 1;
            while n < ARP_TBL_SZ
                invariant
                    1 <= n <= ARP_TBL_SZ,
                    self@ == s,
                    s.len() == ARP_TBL_SZ,
                    v == oldest(s, n as int),
                    v < n,
                decreases ARP_TBL_SZ - n,
            {
                if self.value[n].age > self.value[v].age {
                    v = n;
                }
                n += 1;
            }
        }
        assert(v == victim(s));
        self.value[v] = ARPRecord { is_valid: true, age: 0, ip, mac, ctime: now };
        assert(self@ =~= inserted(before, ip, mac, now));
    }
}

/// A scan keeps the addresses of valid records distinct.
pub proof fn lemma_scanned_distinct(tbl: Seq<ARPRecord>, ip: u32, now: i128)
    requires
        distinct(tbl),
    ensures
        distinct(scanned(tbl, ip, now)),
{
    let s = scanned(tbl, ip, now);
    assert forall|i: int, j: int|
        0 <= i < s.len() && 0 <= j < s.len() && i != j && (#[trigger] s[i]).is_valid && (
        #[trigger] s[j]).is_valid implies s[i].ip != s[j].ip by {
        assert(tbl[i].is_valid && tbl[j].is_valid);
        assert(s[i].ip == tbl[i].ip && s[j].ip == tbl[j].ip);
    }
}

/// Learning a mapping keeps the addresses of valid records distinct.
pub proof fn lemma_inserted_distinct(tbl: Seq<ARPRecord>, ip: u32, mac: Mac, now: i128)
    requires
        tbl.len() > 0,
        distinct(tbl),
    ensures
        distinct(inserted(tbl, ip, mac, now)),
{
    let s = scanned(tbl, ip, now);
    let h = first_match(tbl, ip, now);
    let r = inserted(tbl, ip, mac, now);
    lemma_scanned_distinct(tbl, ip, now);
    lemma_first_match(tbl, ip, now, 0);
    if h < tbl.len() {
        assert forall|i: int, j: int|
            0 <= i < r.len() && 0 <= j < r.len() && i != j && (#[trigger] r[i]).is_valid && (
            #[trigger] r[j]).is_valid implies r[i].ip != r[j].ip by {
            assert(s[i].is_valid && s[j].is_valid);
            assert(r[i].ip == s[i].ip && r[j].ip == s[j].ip);
        }
    } else {
        let v = victim(s);
        lemma_first_invalid(s, 0);
        lemma_oldest(s, s.len() as int);
        assert forall|i: int, j: int|
            0 <= i < r.len() && 0 <= j < r.len() && i != j && (#[trigger] r[i]).is_valid && (
            #[trigger] r[j]).is_valid implies r[i].ip != r[j].ip by {
            if i != v && j != v {
                assert(s[i].is_valid && s[j].is_valid);
            } else if i == v {
                assert(s[j].is_valid);
                assert(!tbl[j].matches(ip, now));
            } else {
                assert(s[i].is_valid);
                assert(!tbl[i].matches(ip, now));
            }
        }
    }
}

/// Learning a mapping leaves a slot that holds exactly that mapping, valid,
/// of age zero and stamped with the time of learning.
pub proof fn lemma_inserted_slot(tbl: Seq<ARPRecord>, ip: u32, mac: Mac, now: i128) -> (k: int)
    requires
        tbl.len() > 0,
    ensures
        0 <= k < tbl.len(),
        inserted(tbl, ip, mac, now).len() == tbl.len(),
        inserted(tbl, ip, mac, now)[k] == ARPRecord::learned(ip, mac, now),
        k == if first_match(tbl, ip, now) < tbl.len() {
            first_match(tbl, ip, now)
        } else {
            victim(scanned(tbl, ip, now))
        },
{
    let s = scanned(tbl, ip, now);
    let h = first_match(tbl, ip, now);
    lemma_first_match(tbl, ip, now, 0);
    if h < tbl.len() {
        h
    } else {
        lemma_first_invalid(s, 0);
        lemma_oldest(s, s.len() as int);
        victim(s)
    }
}

/// Learning the same address twice renews the record instead of adding one:
/// a lookup that follows within the liveness window finds the second hardware
/// address, and no other valid record holds that IPv4 address.
pub proof fn lemma_relearn_overwrites(
    tbl: Seq<ARPRecord>,
    ip: u32,
    mac1: Mac,
    mac2: Mac,
    t1: i128,
    t2: i128,
    t3: i128,
)
    requires
        tbl.len() > 0,
        distinct(tbl),
        t2 + ARPLIVE >= t3,
    ensures
        ({
            let twice = inserted(inserted(tbl, ip, mac1, t1), ip, mac2, t2);
            let h = first_match(twice, ip, t3);
            &&& 0 <= h < tbl.len()
            &&& scanned(twice, ip, t3)[h].mac == mac2
            &&& scanned(twice, ip, t3)[h].ip == ip
            &&& forall|j: int|
                0 <= j < twice.len() && j != h ==> !((#[trigger] twice[j]).is_valid && twice[j].ip
                    == ip)
        }),
{
    let once = inserted(tbl, ip, mac1, t1);
    let twice = inserted(once, ip, mac2, t2);
    lemma_inserted_distinct(tbl, ip, mac1, t1);
    let k1 = lemma_inserted_slot(tbl, ip, mac1, t1);
    lemma_inserted_distinct(once, ip, mac2, t2);
    let k = lemma_inserted_slot(once, ip, mac2, t2);
    assert(twice[k].matches(ip, t3));
    assert forall|j: int| 0 <= j < twice.len() && j != k implies !((#[trigger] twice[j]).is_valid
        && twice[j].ip == ip) by {
        if twice[j].is_valid {
            assert(twice[k].is_valid);
        }
    }
    assert forall|j: int| 0 <= j < k implies !(#[trigger] twice[j]).matches(ip, t3) by {}
    lemma_first_match_is(twice, ip, t3, 0, k);
}

/// Learning a new address in a table of live records evicts the record whose
/// age is greatest once the scan has aged them all, the first one among
/// equals, and keeps every slot valid.
pub proof fn lemma_full_table_evicts_oldest(tbl: Seq<ARPRecord>, ip: u32, mac: Mac, now: i128)
    requires
        tbl.len() > 0,
        forall|j: int|
            0 <= j < tbl.len() ==> (#[trigger] tbl[j]).is_valid && !tbl[j].expired(now) && tbl[j].ip
                != ip,
    ensures
        ({
            let after = inserted(tbl, ip, mac, now);
            let v = victim(scanned(tbl, ip, now));
            &&& 0 <= v < tbl.len()
            &&& after.len() == tbl.len()
            &&& forall|j: int| 0 <= j < after.len() ==> (#[trigger] after[j]).is_valid
            &&& after[v] == ARPRecord::learned(ip, mac, now)
            &&& forall|j: int| 0 <= j < tbl.len() && j != v ==> #[trigger] after[j] == tbl[j].passed(now)
            &&& forall|j: int|
                0 <= j < tbl.len() ==> (#[trigger] tbl[j]).passed(now).age <= tbl[v].passed(
                    now,
                ).age
            &&& forall|j: int|
                0 <= j < v ==> (#[trigger] tbl[j]).passed(now).age < tbl[v].passed(now).age
        }),
{
    let s = scanned(tbl, ip, now);
    let after = inserted(tbl, ip, mac, now);
    assert forall|j: int| 0 <= j < tbl.len() implies !(#[trigger] tbl[j]).matches(ip, now) by {}
    lemma_first_match_is(tbl, ip, now, 0, tbl.len() as int);
    assert forall|j: int| 0 <= j < s.len() implies (#[trigger] s[j]).is_valid by {
        assert(tbl[j].is_valid);
    }
    lemma_first_invalid_is(s, 0, s.len() as int);
    lemma_oldest(s, s.len() as int);
    let v = victim(s);
    assert forall|j: int| 0 <= j < after.len() implies (#[trigger] after[j]).is_valid by {
        if j != v {
            assert(s[j].is_valid);
        }
    }
    assert forall|j: int| 0 <= j < tbl.len() implies (#[trigger] tbl[j]).passed(now).age
        <= tbl[v].passed(now).age by {
        assert(s[j].age <= s[v].age);
        assert(s[j] == tbl[j].passed(now));
        assert(s[v] == tbl[v].passed(now));
    }
    assert forall|j: int| 0 <= j < v implies (#[trigger] tbl[j]).passed(now).age < tbl[v].passed(
        now,
    ).age by {
        assert(s[j].age < s[v].age);
        assert(s[j] == tbl[j].passed(now));
        assert(s[v] == tbl[v].passed(now));
    }
}

/// Learning a new address while a slot is free takes the first free slot and
/// evicts nothing: every record that the scan left valid stays as it is.
pub proof fn lemma_free_slot_taken_first(tbl: Seq<ARPRecord>, ip: u32, mac: Mac, now: i128)
    requires
        tbl.len() > 0,
        first_match(tbl, ip, now) == tbl.len(),
        first_invalid_from(scanned(tbl, ip, now), 0) < tbl.len(),
    ensures
        ({
            let s = scanned(tbl, ip, now);
            let after = inserted(tbl, ip, mac, now);
            let v = first_invalid_from(s, 0);
            &&& !s[v].is_valid
            &&& after[v] == ARPRecord::learned(ip, mac, now)
            &&& forall|j: int| 0 <= j < tbl.len() && j != v ==> #[trigger] after[j] == s[j]
        }),
{
    let s = scanned(tbl, ip, now);
    lemma_first_invalid(s, 0);
}

/// A valid record that outlived the liveness window is invalid after any
/// scan that reaches it.
pub proof fn lemma_expired_record_dropped(tbl: Seq<ARPRecord>, ip: u32, now: i128, i: int)
    requires
        0 <= i < tbl.len(),
        tbl[i].is_valid,
        tbl[i].expired(now),
        i < first_match(tbl, ip, now),
    ensures
        !scanned(tbl, ip, now)[i].is_valid,
{
}

/// Learning an address whose only record outlived the liveness window finds
/// nothing to renew: the stale record is dropped and a fresh record, of age
/// zero and stamped with the time of learning, is written to the first free
/// slot.
pub proof fn lemma_relearn_after_expiry(
    tbl: Seq<ARPRecord>,
    ip: u32,
    mac: Mac,
    now: i128,
    i: int,
)
    requires
        distinct(tbl),
        0 <= i < tbl.len(),
        tbl[i].is_valid,
        tbl[i].ip == ip,
        tbl[i].expired(now),
    ensures
        ({
            let s = scanned(tbl, ip, now);
            let after = inserted(tbl, ip, mac, now);
            let v = victim(s);
            &&& first_match(tbl, ip, now) == tbl.len()
            &&& !s[i].is_valid
            &&& 0 <= v <= i
            &&& v == first_invalid_from(s, 0)
            &&& after[v] == ARPRecord::learned(ip, mac, now)
            &&& forall|j: int| 0 <= j < tbl.len() && j != v ==> #[trigger] after[j] == s[j]
        }),
{
    let s = scanned(tbl, ip, now);
    assert forall|j: int| 0 <= j < tbl.len() implies !(#[trigger] tbl[j]).matches(ip, now) by {
        if j != i && tbl[j].is_valid {
            assert(tbl[i].is_valid);
        }
    }
    lemma_first_match_is(tbl, ip, now, 0, tbl.len() as int);
    assert(s[i] == tbl[i].passed(now));
    lemma_first_invalid(s, 0);
    if first_invalid_from(s, 0) > i {
        assert(s[i].is_valid);
    }
}

} // verus!
