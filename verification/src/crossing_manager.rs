//! The zone reservation ledger.
//!
//! Each of the sixteen 50 x 50 px zones of the conflict region carries an
//! append-only timeline of reservations with pairwise disjoint half-open
//! intervals `[time_in, time_out)`.  Admission returns the earliest start
//! time at which a whole path through the grid is free.

use vstd::prelude::*;

use crate::consts::{MAX_CLOCK_UNITS, PX_TO_TIME_UNITS, RESERVATION_HOLD_UNITS, ZONE_TIME_UNITS};
use crate::intersection::{Direction, Route};
use crate::utils::{
    generate_zone_reservations, path_distinct, path_wf, route_to_zone_path, spec_zone_path,
};

verus! {

/// Exclusive ownership of one zone over `[time_in, time_out)`.
pub struct ZoneReservation {
    pub car_id: String,
    pub time_in: u64,
    pub time_out: u64,
}

impl Clone for ZoneReservation {
    fn clone(&self) -> (r: Self)
        ensures
            r == *self,
    {
        ZoneReservation {
            car_id: self.car_id.clone(),
            time_in: self.time_in,
            time_out: self.time_out,
        }
    }
}

/// Classification of a zone at a given instant.
#[derive(Clone, Copy, Debug, PartialEq, Eq, Structural)]
pub enum ZoneState {
    /// No reservation at all.
    Free,
    /// Reserved, but no reservation covers the instant.
    Reserved,
    /// Some reservation covers the instant.
    Active,
}

/// Two reservations do not overlap as half-open intervals.
pub open spec fn res_disjoint(a: ZoneReservation, b: ZoneReservation) -> bool {
    a.time_out <= b.time_in || b.time_out <= a.time_in
}

/// A single zone's timeline is well formed: every interval is non-empty and
/// any two are disjoint.
pub open spec fn zone_ok(s: Seq<ZoneReservation>) -> bool {
    &&& forall|i: int| 0 <= i < s.len() ==> (#[trigger] s[i]).time_in < s[i].time_out
    &&& forall|i: int, j: int| 0 <= i < j < s.len() ==> res_disjoint(#[trigger] s[i], #[trigger] s[j])
}

/// Whether reservation `r` overlaps the candidate interval of path index `i`
/// for a path entered at `base`.
pub open spec fn conflicts_at(r: ZoneReservation, base: int, i: int) -> bool {
    &&& r.time_in < base + i * ZONE_TIME_UNITS + RESERVATION_HOLD_UNITS
    &&& r.time_out > base + i * ZONE_TIME_UNITS
}

/// Filtering a well-formed timeline keeps it well formed, and every kept
/// reservation is one of the entries it was filtered from.
pub proof fn lemma_filter_keeps_zone_ok(
    s: Seq<ZoneReservation>,
    pred: spec_fn(ZoneReservation) -> bool,
)
    requires
        zone_ok(s),
    ensures
        zone_ok(s.filter(pred)),
        forall|i: int|
            0 <= i < s.filter(pred).len()
                ==> exists|a: int| 0 <= a < s.len() && s[a] == #[trigger] s.filter(pred)[i],
    decreases s.len(),
{
    reveal(Seq::filter);
    if s.len() > 0 {
        let d = s.drop_last();
        assert(zone_ok(d)) by {
            assert(forall|i: int| 0 <= i < d.len() ==> #[trigger] d[i] == s[i]);
        }
        lemma_filter_keeps_zone_ok(d, pred);
        let fd = d.filter(pred);
        let fs = s.filter(pred);
        if pred(s.last()) {
            assert(fs == fd.push(s.last()));
            assert forall|i: int|
                0 <= i < fs.len()
                    implies exists|a: int| 0 <= a < s.len() && s[a] == #[trigger] fs[i] by {
                if i < fd.len() {
                    assert(fs[i] == fd[i]);
                    let a = choose|a: int| 0 <= a < d.len() && d[a] == fd[i];
                    assert(s[a] == fs[i]);
                } else {
                    assert(fs[i] == s[s.len() - 1]);
                }
            }
            assert forall|i: int, j: int|
                0 <= i < j < fs.len()
                    implies res_disjoint(#[trigger] fs[i], #[trigger] fs[j]) by {
                if j < fd.len() {
                    assert(fs[i] == fd[i] && fs[j] == fd[j]);
                } else {
                    assert(fs[i] == fd[i]);
                    let a = choose|a: int| 0 <= a < d.len() && d[a] == fd[i];
                    assert(s[a] == fs[i]);
                    assert(fs[j] == s[s.len() - 1]);
                    assert(res_disjoint(s[a], s[s.len() - 1]));
                }
            }
            assert forall|i: int|
                0 <= i < fs.len() implies (#[trigger] fs[i]).time_in < fs[i].time_out by {
                let a = choose|a: int| 0 <= a < s.len() && s[a] == fs[i];
                assert(s[a].time_in < s[a].time_out);
            }
        } else {
            assert(fs == fd);
            assert forall|i: int|
                0 <= i < fs.len()
                    implies exists|a: int| 0 <= a < s.len() && s[a] == #[trigger] fs[i] by {
                let a = choose|a: int| 0 <= a < d.len() && d[a] == fd[i];
                assert(s[a] == fs[i]);
            }
        }
    }
}

/// The zone reservation ledger: one timeline per zone of the 4 x 4 grid,
/// stored row-major.
pub struct CrossingManager {
    pub grid: Vec<Vec<ZoneReservation>>,
}

impl CrossingManager {
    /// The timeline of zone `z = (row, col)`.
    pub open spec fn zone_list(self, z: (usize, usize)) -> Seq<ZoneReservation> {
        self.grid@[z.0 as int * 4 + z.1 as int]@
    }

    /// The ledger is well formed: sixteen zones, each with a well-formed
    /// timeline.
    pub open spec fn wf(self) -> bool {
        &&& self.grid@.len() == 16
        &&& forall|j: int| 0 <= j < 16 ==> zone_ok((#[trigger] self.grid@[j])@)
    }

    /// Every reservation ends by `m`.
    pub open spec fn bounded(self, m: int) -> bool {
        forall|j: int, k: int|
            0 <= j < self.grid@.len() && 0 <= k < self.grid@[j]@.len()
                ==> (#[trigger] self.grid@[j]@[k]).time_out <= m
    }

    /// A path entered at `base` meets no existing reservation.
    pub open spec fn path_free_at(self, path: Seq<(usize, usize)>, base: int) -> bool {
        forall|i: int, k: int|
            0 <= i < path.len() && 0 <= k < self.zone_list(path[i]).len()
                ==> !conflicts_at(#[trigger] self.zone_list(path[i])[k], base, i)
    }

    /// Classification of zone `z` at instant `now`.
    pub open spec fn spec_zone_state(self, z: (usize, usize), now: u64) -> ZoneState {
        if exists|k: int|
            0 <= k < self.zone_list(z).len()
                && (#[trigger] self.zone_list(z)[k]).time_in <= now
                && self.zone_list(z)[k].time_out > now {
            ZoneState::Active
        } else if self.zone_list(z).len() > 0 {
            ZoneState::Reserved
        } else {
            ZoneState::Free
        }
    }

    /// What `reserve_path` installs: `post` extends each timeline along the
    /// path of `(dir, route)` with one reservation of the vehicle `id`,
    /// zone `i` held from `t + i * ZONE_TIME_UNITS` for
    /// `RESERVATION_HOLD_UNITS`, and leaves every other zone unchanged.
    pub open spec fn spec_installed(
        self,
        post: CrossingManager,
        dir: Direction,
        route: Route,
        t: u64,
        id: Seq<char>,
    ) -> bool {
        &&& forall|i: int| 0 <= i < spec_zone_path(dir, route).len() ==> {
            let zl_old = self.zone_list(#[trigger] spec_zone_path(dir, route)[i]);
            let zl_new = post.zone_list(spec_zone_path(dir, route)[i]);
            &&& zl_new.len() == zl_old.len() + 1
            &&& forall|k: int| 0 <= k < zl_old.len() ==> zl_new[k] == zl_old[k]
            &&& zl_new.last().time_in == t + i * ZONE_TIME_UNITS
            &&& zl_new.last().time_out == t + i * ZONE_TIME_UNITS + RESERVATION_HOLD_UNITS
            &&& zl_new.last().car_id@ == id
        }
        &&& forall|z: (usize, usize)|
            z.0 < 4 && z.1 < 4 && !spec_zone_path(dir, route).contains(z)
                ==> #[trigger] post.zone_list(z) == self.zone_list(z)
    }

    /// An empty ledger.
    pub fn new() -> (r: CrossingManager)
        ensures
            r.wf(),
            forall|j: int| 0 <= j < 16 ==> (#[trigger] r.grid@[j])@.len() == 0,
            r.bounded(0),
    {
        let mut grid: Vec<Vec<ZoneReservation>> = Vec::new();
        let mut j: usize = 0;
        while j < 16
            invariant
                grid@.len() == j,
                j <= 16,
                forall|k: int| 0 <= k < j ==> (#[trigger] grid@[k])@.len() == 0,
            decreases 16 - j,
        {
            grid.push(Vec::new());
            j = j + 1;
        }
        CrossingManager { grid }
    }

    /// The largest `time_out` in the ledger, or 0 when the ledger is empty.
    pub fn max_time_out(&self) -> (m: u64)
        requires
            self.wf(),
        ensures
            self.bounded(m as int),
            m == 0 || exists|j: int, k: int|
                0 <= j < 16 && 0 <= k < self.grid@[j]@.len()
                    && (#[trigger] self.grid@[j]@[k]).time_out == m,
    {
        let mut m: u64 = 0;
        let mut j: usize = 0;
        while j < 16
            invariant
                self.wf(),
                j <= 16,
                forall|a: int, b: int|
                    0 <= a < j && 0 <= b < self.grid@[a]@.len()
                        ==> (#[trigger] self.grid@[a]@[b]).time_out <= m,
                m == 0 || exists|a: int, b: int|
                    0 <= a < 16 && 0 <= b < self.grid@[a]@.len()
                        && (#[trigger] self.grid@[a]@[b]).time_out == m,
            decreases 16 - j,
        {
            let list = &self.grid[j];
            let mut k: usize = 0;
            while k < list.len()
                invariant
                    self.wf(),
                    j < 16,
                    list@ == self.grid@[j as int]@,
                    k <= list@.len(),
                    forall|a: int, b: int|
                        0 <= a < j && 0 <= b < self.grid@[a]@.len()
                            ==> (#[trigger] self.grid@[a]@[b]).time_out <= m,
                    forall|b: int|
                        0 <= b < k ==> (#[trigger] self.grid@[j as int]@[b]).time_out <= m,
                    m == 0 || exists|a: int, b: int|
                        0 <= a < 16 && 0 <= b < self.grid@[a]@.len()
                            && (#[trigger] self.grid@[a]@[b]).time_out == m,
                decreases list@.len() - k,
            {
                if list[k].time_out > m {
                    m = list[k].time_out;
                }
                k = k + 1;
            }
            j = j + 1;
        }
        m
    }

    /// Earliest clock time at which a vehicle arriving from `dir` on `route`,
    /// now `distance_to_entry` pixels from the conflict region, can start its
    /// zone path without meeting any existing reservation.
    ///
    /// The result is the least feasible time at or after
    /// `now + distance_to_entry * PX_TO_TIME_UNITS`.
    pub fn latest_available_time(
        &self,
        dir: Direction,
        route: Route,
        distance_to_entry: u32,
        now: u64,
    ) -> (t: u64)
        requires
            self.wf(),
            now <= MAX_CLOCK_UNITS,
            self.bounded(MAX_CLOCK_UNITS as int),
        ensures
            t >= now + distance_to_entry * PX_TO_TIME_UNITS,
            self.path_free_at(spec_zone_path(dir, route), t as int),
            forall|u: int|
                now + distance_to_entry * PX_TO_TIME_UNITS <= u < t
                    ==> !self.path_free_at(spec_zone_path(dir, route), u),
            forall|m: int|
                self.bounded(m) && now + distance_to_entry * PX_TO_TIME_UNITS <= m
                    ==> t <= m,
    {
        let path = route_to_zone_path(dir, route);
        let travel: u64 = (distance_to_entry as u64) * PX_TO_TIME_UNITS;
        let start: u64 = now + travel;
        let maxout: u64 = self.max_time_out();
        let hi: u64 = if maxout > start { maxout } else { start };
        let mut base: u64 = start;
        loop
            invariant_except_break
                self.wf(),
                path@ == spec_zone_path(dir, route),
                path_wf(path@),
                path@.len() <= 5,
                start <= base,
                base <= hi,
                hi <= MAX_CLOCK_UNITS + 0xA_0000_0000u64,
                start == now + distance_to_entry * PX_TO_TIME_UNITS,
                hi == if maxout > start { maxout } else { start },
                maxout == 0 || exists|j: int, k: int|
                    0 <= j < 16 && 0 <= k < self.grid@[j]@.len()
                        && (#[trigger] self.grid@[j]@[k]).time_out == maxout,
                self.bounded(maxout as int),
                forall|u: int| start <= u < base ==> !self.path_free_at(path@, u),
            ensures
                start <= base,
                base <= hi,
                self.path_free_at(path@, base as int),
                forall|u: int| start <= u < base ==> !self.path_free_at(path@, u),
            decreases hi - base,
        {
            match self.find_conflict(&path, base) {
                None => {
                    break;
                }
                Some(b) => {
                    proof {
                        let (j2, k2) = choose|j2: int, k2: int|
                            0 <= j2 < path@.len() && 0 <= k2 < self.zone_list(path@[j2]).len()
                                && b + j2 * ZONE_TIME_UNITS
                                    == (#[trigger] self.zone_list(path@[j2])[k2]).time_out;
                        let zz = path@[j2];
                        let gi = zz.0 as int * 4 + zz.1 as int;
                        assert(self.grid@[gi]@[k2].time_out <= maxout as int);
                        assert(b <= hi);
                    }
                    base = b;
                }
            }
        }
        proof {
            assert forall|m: int|
                self.bounded(m) && now + distance_to_entry * PX_TO_TIME_UNITS <= m
                    implies base <= m by {
                if maxout > 0 {
                    let (j2, k2) = choose|j2: int, k2: int|
                        0 <= j2 < 16 && 0 <= k2 < self.grid@[j2]@.len()
                            && (#[trigger] self.grid@[j2]@[k2]).time_out == maxout;
                    assert(self.grid@[j2]@[k2].time_out <= m);
                }
            }
        }
        base
    }

    /// Scans the path for the first reservation that overlaps the candidate
    /// schedule starting at `base`.  Returns the adjusted start time that
    /// clears that reservation, or `None` when the whole path is free.
    fn find_conflict(&self, path: &Vec<(usize, usize)>, base: u64) -> (r: Option<u64>)
        requires
            self.wf(),
            path_wf(path@),
            path@.len() <= 5,
            base <= MAX_CLOCK_UNITS + 0xA_0000_0000u64,
        ensures
            match r {
                None => self.path_free_at(path@, base as int),
                Some(b) => {
                    &&& b > base
                    &&& forall|u: int| base <= u < b ==> !self.path_free_at(path@, u)
                    &&& exists|j: int, k: int|
                        0 <= j < path@.len() && 0 <= k < self.zone_list(path@[j]).len()
                            && b + j * ZONE_TIME_UNITS
                                == (#[trigger] self.zone_list(path@[j])[k]).time_out
                },
            },
    {
        let mut i: usize = 0;
        while i < path.len()
            invariant
                self.wf(),
                path_wf(path@),
                path@.len() <= 5,
                base <= MAX_CLOCK_UNITS + 0xA_0000_0000u64,
                i <= path@.len(),
                forall|a: int, k: int|
                    0 <= a < i && 0 <= k < self.zone_list(path@[a]).len()
                        ==> !conflicts_at(#[trigger] self.zone_list(path@[a])[k], base as int, a),
            decreases path@.len() - i,
        {
            let z = path[i];
            let gi: usize = z.0 * 4 + z.1;
            let list = &self.grid[gi];
            let entry: u64 = base + (i as u64) * ZONE_TIME_UNITS;
            let exit: u64 = entry + RESERVATION_HOLD_UNITS;
            let mut k: usize = 0;
            while k < list.len()
                invariant
                    self.wf(),
                    path_wf(path@),
                    path@.len() <= 5,
                    base <= MAX_CLOCK_UNITS + 0xA_0000_0000u64,
                    i < path@.len(),
                    z == path@[i as int],
                    gi == z.0 * 4 + z.1,
                    gi < 16,
                    list@ == self.zone_list(z),
                    entry == base + i * ZONE_TIME_UNITS,
                    exit == entry + RESERVATION_HOLD_UNITS,
                    k <= list@.len(),
                    forall|kk: int|
                        0 <= kk < k
                            ==> !conflicts_at(
                                #[trigger] self.zone_list(path@[i as int])[kk],
                                base as int,
                                i as int,
                            ),
                decreases list@.len() - k,
            {
                let time_in = list[k].time_in;
                let time_out = list[k].time_out;
                if time_in < exit && time_out > entry {
                    let b = time_out - (i as u64) * ZONE_TIME_UNITS;
                    proof {
                        let rr = self.zone_list(path@[i as int])[k as int];
                        assert forall|u: int| base <= u < b
                            implies !self.path_free_at(path@, u) by {
                            assert(conflicts_at(rr, u, i as int));
                        }
                        assert(b + (i as int) * ZONE_TIME_UNITS == rr.time_out);
                    }
                    return Some(b);
                }
                k = k + 1;
            }
            i = i + 1;
        }
        None
    }

    /// Equivalent to `latest_available_time`, then installs one reservation
    /// per zone of the path starting at the returned time.  Right routes have
    /// an empty path: the ledger is unchanged and the vehicle starts as soon
    /// as it arrives.
    pub fn reserve_path(
        &mut self,
        car_id: &str,
        dir: Direction,
        route: Route,
        distance_to_entry: u32,
        now: u64,
    ) -> (t: u64)
        requires
            old(self).wf(),
            now <= MAX_CLOCK_UNITS,
            old(self).bounded(MAX_CLOCK_UNITS as int),
        ensures
            final(self).wf(),
            t >= now + distance_to_entry * PX_TO_TIME_UNITS,
            old(self).path_free_at(spec_zone_path(dir, route), t as int),
            forall|u: int|
                now + distance_to_entry * PX_TO_TIME_UNITS <= u < t
                    ==> !old(self).path_free_at(spec_zone_path(dir, route), u),
            forall|m: int|
                old(self).bounded(m) && now + distance_to_entry * PX_TO_TIME_UNITS <= m
                    ==> t <= m,
            route == Route::Right ==> {
                &&& *final(self) == *old(self)
                &&& t == now + distance_to_entry * PX_TO_TIME_UNITS
            },
            old(self).spec_installed(*final(self), dir, route, t, car_id@),
            forall|m: int|
                old(self).bounded(m) && t + 4 * ZONE_TIME_UNITS + RESERVATION_HOLD_UNITS <= m
                    ==> final(self).bounded(m),
    {
        let entry_time = self.latest_available_time(dir, route, distance_to_entry, now);
        proof {
            assert(self.bounded(MAX_CLOCK_UNITS + 0xA_0000_0000));
            assert(entry_time <= MAX_CLOCK_UNITS + 0xA_0000_0000);
        }
        let path = route_to_zone_path(dir, route);
        let reservations = generate_zone_reservations(car_id, path.as_slice(), entry_time);
        let ghost g0 = *self;
        let mut i: usize = 0;
        while i < reservations.len()
            invariant
                g0.wf(),
                self.grid@.len() == 16,
                path@ == spec_zone_path(dir, route),
                path_wf(path@),
                path_distinct(path@),
                path@.len() <= 5,
                entry_time <= MAX_CLOCK_UNITS + 0xA_0000_0000u64,
                g0.path_free_at(path@, entry_time as int),
                reservations@.len() == path@.len(),
                forall|a: int| 0 <= a < reservations@.len() ==> {
                    &&& (#[trigger] reservations@[a]).0 == path@[a]
                    &&& reservations@[a].1.time_in == entry_time + a * ZONE_TIME_UNITS
                    &&& reservations@[a].1.time_out == entry_time + a * ZONE_TIME_UNITS
                        + RESERVATION_HOLD_UNITS
                    &&& reservations@[a].1.car_id@ == car_id@
                },
                i <= reservations@.len(),
                i == 0 ==> *self == g0,
                forall|a: int| 0 <= a < i ==> {
                    let zl_old = g0.zone_list(#[trigger] path@[a]);
                    let zl_new = self.zone_list(path@[a]);
                    &&& zl_new.len() == zl_old.len() + 1
                    &&& forall|k: int| 0 <= k < zl_old.len() ==> zl_new[k] == zl_old[k]
                    &&& zl_new.last() == reservations@[a].1
                },
                forall|z: (usize, usize)|
                    z.0 < 4 && z.1 < 4 && !path@.subrange(0, i as int).contains(z)
                        ==> #[trigger] self.zone_list(z) == g0.zone_list(z),
                forall|j: int| 0 <= j < 16 ==> zone_ok((#[trigger] self.grid@[j])@),
            decreases reservations@.len() - i,
        {
            let z = path[i];
            let gi: usize = z.0 * 4 + z.1;
            let reservation = reservations[i].1.clone();
            proof {
                // the zone written here was untouched so far, because the path
                // has no repeated zones
                assert(!path@.subrange(0, i as int).contains(z)) by {
                    if path@.subrange(0, i as int).contains(z) {
                        let a = choose|a: int|
                            0 <= a < i && path@.subrange(0, i as int)[a] == z;
                        assert(path@[a] == path@[i as int]);
                    }
                }
                assert(self.zone_list(z) == g0.zone_list(z));
                // the appended interval is disjoint from every existing one
                assert forall|k: int| 0 <= k < g0.zone_list(z).len()
                    implies res_disjoint(g0.zone_list(z)[k], reservations@[i as int].1) by {
                    assert(!conflicts_at(g0.zone_list(z)[k], entry_time as int, i as int));
                }
            }
            let ghost pre = *self;
            let list = crate::utils::vec_index_mut(&mut self.grid, gi);
            list.push(reservation);
            proof {
                assert(self.grid@[gi as int]@ == pre.grid@[gi as int]@.push(
                    reservations@[i as int].1,
                ));
                assert forall|jj: int| 0 <= jj < 16 && jj != gi
                    implies self.grid@[jj] == pre.grid@[jj] by {}
                // zones off the processed prefix are untouched
                assert forall|z2: (usize, usize)|
                    z2.0 < 4 && z2.1 < 4 && !path@.subrange(0, i + 1).contains(z2)
                        implies #[trigger] self.zone_list(z2) == g0.zone_list(z2) by {
                    let gi2 = z2.0 as int * 4 + z2.1 as int;
                    if gi2 == gi {
                        assert(z2 == z);
                        assert(path@.subrange(0, i + 1)[i as int] == z);
                        assert(path@.subrange(0, i + 1).contains(z2));
                        assert(false);
                    } else {
                        assert(!path@.subrange(0, i as int).contains(z2)) by {
                            if path@.subrange(0, i as int).contains(z2) {
                                let a = choose|a: int|
                                    0 <= a < i && path@.subrange(0, i as int)[a] == z2;
                                assert(path@.subrange(0, i + 1)[a] == z2);
                            }
                        }
                        assert(pre.zone_list(z2) == g0.zone_list(z2));
                    }
                }
                // the processed prefix keeps its one appended reservation
                assert forall|a: int| 0 <= a < i + 1 implies {
                    let zl_old = g0.zone_list(#[trigger] path@[a]);
                    let zl_new = self.zone_list(path@[a]);
                    &&& zl_new.len() == zl_old.len() + 1
                    &&& forall|k: int| 0 <= k < zl_old.len() ==> zl_new[k] == zl_old[k]
                    &&& zl_new.last() == reservations@[a].1
                } by {
                    let za = path@[a];
                    let gia = za.0 as int * 4 + za.1 as int;
                    if a < i {
                        assert(za != z);
                        assert(gia != gi);
                        assert(pre.zone_list(za) == self.zone_list(za));
                    } else {
                        assert(za == z);
                    }
                }
                // every zone stays well formed
                assert forall|jj: int| 0 <= jj < 16
                    implies zone_ok((#[trigger] self.grid@[jj])@) by {
                    if jj == gi {
                        let zl_old = pre.grid@[gi as int]@;
                        let zl_new = self.grid@[gi as int]@;
                        let fresh = reservations@[i as int].1;
                        assert(zl_old == g0.zone_list(z));
                        assert(fresh.time_in < fresh.time_out);
                        assert forall|x: int, y: int| 0 <= x < y < zl_new.len()
                            implies res_disjoint(
                                #[trigger] zl_new[x],
                                #[trigger] zl_new[y],
                            ) by {
                            if y == zl_new.len() - 1 {
                                assert(zl_new[x] == zl_old[x]);
                                assert(zl_new[y] == fresh);
                                assert(res_disjoint(zl_old[x], fresh));
                            } else {
                                assert(zl_new[x] == zl_old[x] && zl_new[y] == zl_old[y]);
                            }
                        }
                    } else {
                        assert(self.grid@[jj] == pre.grid@[jj]);
                    }
                }
            }
            i = i + 1;
        }
        proof {
            assert(path@.subrange(0, path@.len() as int) =~= path@);
            if route == Route::Right {
                let start = now + distance_to_entry * PX_TO_TIME_UNITS;
                assert(g0.path_free_at(spec_zone_path(dir, route), start as int));
                if entry_time > start {
                    assert(!g0.path_free_at(spec_zone_path(dir, route), start as int));
                }
            }
            assert forall|m: int|
                g0.bounded(m) && entry_time + 4 * ZONE_TIME_UNITS + RESERVATION_HOLD_UNITS <= m
                    implies self.bounded(m) by {
                assert forall|j: int, k: int|
                    0 <= j < self.grid@.len() && 0 <= k < self.grid@[j]@.len()
                        implies (#[trigger] self.grid@[j]@[k]).time_out <= m by {
                    let z2 = ((j / 4) as usize, (j % 4) as usize);
                    assert(z2.0 as int * 4 + z2.1 as int == j);
                    assert(self.zone_list(z2) == self.grid@[j]@);
                    if path@.contains(z2) {
                        let a = choose|a: int| 0 <= a < path@.len() && path@[a] == z2;
                        let zl_old = g0.zone_list(path@[a]);
                        let zl_new = self.zone_list(path@[a]);
                        if k < zl_old.len() {
                            assert(zl_new[k] == zl_old[k]);
                            assert(g0.grid@[j]@[k].time_out <= m);
                        } else {
                            assert(zl_new[k] == zl_new.last());
                            assert(zl_new.last() == reservations@[a].1);
                        }
                    } else {
                        assert(self.zone_list(z2) == g0.zone_list(z2));
                        assert(g0.grid@[j]@[k].time_out <= m);
                    }
                }
            }
        }
        entry_time
    }

    /// Drops every reservation whose `time_out` is at or before `now`.
    pub fn update(&mut self, now: u64)
        requires
            old(self).wf(),
        ensures
            final(self).wf(),
            final(self).grid@.len() == 16,
            forall|j: int|
                0 <= j < 16
                    ==> (#[trigger] final(self).grid@[j])@
                        == old(self).grid@[j]@.filter(|r: ZoneReservation| r.time_out > now),
            forall|m: int| old(self).bounded(m) ==> final(self).bounded(m),
    {
        let ghost g0 = *self;
        let mut j: usize = 0;
        while j < 16
            invariant
                g0.wf(),
                self.grid@.len() == 16,
                j <= 16,
                forall|a: int|
                    0 <= a < j
                        ==> (#[trigger] self.grid@[a])@
                            == g0.grid@[a]@.filter(|r: ZoneReservation| r.time_out > now),
                forall|a: int| j <= a < 16 ==> (#[trigger] self.grid@[a])@ == g0.grid@[a]@,
            decreases 16 - j,
        {
            let list = &self.grid[j];
            let ghost orig = list@;
            let mut kept: Vec<ZoneReservation> = Vec::new();
            let mut k: usize = 0;
            while k < list.len()
                invariant
                    k <= orig.len(),
                    list@ == orig,
                    kept@ == orig.subrange(0, k as int).filter(
                        |r: ZoneReservation| r.time_out > now,
                    ),
                decreases orig.len() - k,
            {
                if list[k].time_out > now {
                    let keep_one = list[k].clone();
                    kept.push(keep_one);
                }
                proof {
                    let pred = |r: ZoneReservation| r.time_out > now;
                    let sub1 = orig.subrange(0, k + 1);
                    assert(sub1.drop_last() =~= orig.subrange(0, k as int));
                    assert(sub1.last() == orig[k as int]);
                    assert(kept@ =~= sub1.filter(pred)) by {
                        reveal(Seq::filter);
                    }
                }
                k = k + 1;
            }
            proof {
                assert(orig.subrange(0, orig.len() as int) =~= orig);
            }
            let slot = crate::utils::vec_index_mut(&mut self.grid, j);
            *slot = kept;
            j = j + 1;
        }
        proof {
            let pred = |r: ZoneReservation| r.time_out > now;
            assert forall|j2: int| 0 <= j2 < 16 implies zone_ok((#[trigger] self.grid@[j2])@) by {
                lemma_filter_keeps_zone_ok(g0.grid@[j2]@, pred);
            }
            assert forall|m: int| g0.bounded(m) implies self.bounded(m) by {
                assert forall|j2: int, k2: int|
                    0 <= j2 < self.grid@.len() && 0 <= k2 < self.grid@[j2]@.len()
                        implies (#[trigger] self.grid@[j2]@[k2]).time_out <= m by {
                    lemma_filter_keeps_zone_ok(g0.grid@[j2]@, pred);
                    let a = choose|a: int|
                        0 <= a < g0.grid@[j2]@.len()
                            && g0.grid@[j2]@[a] == self.grid@[j2]@[k2];
                    assert(g0.grid@[j2]@[a].time_out <= m);
                }
            }
        }
    }

    /// Classification of zone `(row, col)` at instant `now`.
    pub fn zone_state(&self, row: usize, col: usize, now: u64) -> (s: ZoneState)
        requires
            self.wf(),
            row < 4,
            col < 4,
        ensures
            s == self.spec_zone_state((row, col), now),
    {
        let gi: usize = row * 4 + col;
        let list = &self.grid[gi];
        let mut k: usize = 0;
        while k < list.len()
            invariant
                self.wf(),
                row < 4,
                col < 4,
                gi == row * 4 + col,
                list@ == self.zone_list((row, col)),
                k <= list@.len(),
                forall|b: int|
                    0 <= b < k
                        ==> !((#[trigger] self.zone_list((row, col))[b]).time_in <= now
                            && self.zone_list((row, col))[b].time_out > now),
            decreases list@.len() - k,
        {
            if list[k].time_in <= now && list[k].time_out > now {
                return ZoneState::Active;
            }
            k = k + 1;
        }
        if list.len() > 0 {
            ZoneState::Reserved
        } else {
            ZoneState::Free
        }
    }
}

} // verus!
