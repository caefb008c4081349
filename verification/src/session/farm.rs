//! The farm: a table of seats this user owns, and the decisions taken when
//! it is brought up, inspected and torn down.
use crate::error::BackendError;
use crate::session::health::{Health, SeatHealth};
use crate::session::process::ProcessIdentity;
use crate::text::{decimal, decimal_string, join, join_strings, string_views};
use vstd::prelude::*;

verus! {

/// One seat as the farm remembers it.
#[derive(Debug)]
pub struct SeatRecord {
    pub id: u32,
    pub processes: Vec<ProcessIdentity>,
    pub bus_address: String,
    pub wayland_display: String,
    pub env_file: String,
    pub runtime_dir: String,
}

/// Every seat the farm owns.
#[derive(Debug)]
pub struct FarmTable {
    pub seats: Vec<SeatRecord>,
}

/// A seat with its current health.
#[derive(Debug)]
pub struct SeatStatus {
    pub seat: SeatRecord,
    pub status: SeatHealth,
}

/// The farm with every seat's health.
#[derive(Debug)]
pub struct FarmStatus {
    pub seats: Vec<SeatStatus>,
}

/// What to do with a seat that is already recorded when the farm comes up.
#[derive(Debug, Clone, Copy, PartialEq, Eq, Structural)]
pub enum SeatPlan {
    /// It is ready: keep it.
    Keep,
    /// It stopped: clear its record and boot it again.
    Replace,
}

/// The largest farm.
pub const MAX_SEATS: u32 = 16;

/// The seats without those numbered `id`, in order.
pub open spec fn without_id(s: Seq<SeatRecord>, id: u32) -> Seq<SeatRecord>
    decreases s.len(),
{
    if s.len() == 0 {
        Seq::empty()
    } else if s.last().id == id {
        without_id(s.drop_last(), id)
    } else {
        without_id(s.drop_last(), id).push(s.last())
    }
}

/// The runtime directories of the seats numbered `id`, in order.
pub open spec fn dirs_of_id(s: Seq<SeatRecord>, id: u32) -> Seq<Seq<char>>
    decreases s.len(),
{
    if s.len() == 0 {
        Seq::empty()
    } else if s.last().id == id {
        dirs_of_id(s.drop_last(), id).push(s.last().runtime_dir@)
    } else {
        dirs_of_id(s.drop_last(), id)
    }
}

/// The message of a degraded seat that blocks bringing the farm up.
pub open spec fn degraded_message(id: u32, issues: Seq<Seq<char>>) -> Seq<char> {
    "Seat "@ + decimal(id as nat) + " is degraded: "@ + join(issues, "; "@)
        + "; tear it down before restarting"@
}

/// The message of a seat that is not ready once the farm is up.
pub open spec fn unready_message(id: u32, issues: Seq<Seq<char>>) -> Seq<char> {
    "Seat "@ + decimal(id as nat) + " is not ready: "@ + join(issues, "; "@)
}

/// The position of the first status that is not ready.
pub open spec fn first_unready_index(s: Seq<SeatStatus>) -> Option<int>
    decreases s.len(),
{
    if s.len() == 0 {
        None
    } else if s[0].status.health != Health::Ready {
        Some(0)
    } else {
        match first_unready_index(s.drop_first()) {
            Some(i) => Some(i + 1),
            None => None,
        }
    }
}

/// A farm holds 1 to 16 seats.
pub fn check_farm_size(n: u32) -> (r: Result<(), BackendError>)
    ensures
        1 <= n <= MAX_SEATS ==> r is Ok,
        !(1 <= n <= MAX_SEATS) ==> (r matches Err(BackendError::Failed(m)) && m@ == "Farm size must be 1..16"@),
{
    if n < 1 || n > MAX_SEATS {
        return Err(BackendError::Failed(String::from_str("Farm size must be 1..16")));
    }
    Ok(())
}

/// "Seat {id}" followed by `rest` and the issues joined by "; ".
fn seat_message(id: u32, rest: &str, issues: &[String]) -> (s: String)
    ensures
        s@ == "Seat "@ + decimal(id as nat) + rest@ + join(string_views(issues@), "; "@),
{
    let mut s = String::from_str("Seat ");
    let n = decimal_string(id as u64);
    s.append(n.as_str());
    s.append(rest);
    let j = join_strings(issues, "; ");
    s.append(j.as_str());
    s
}

/// What bringing the farm up does with a recorded seat of this health: a
/// ready seat is kept, a stopped one replaced, and a degraded one stops the
/// whole operation until it is torn down.
pub fn plan_existing(id: u32, health: &SeatHealth) -> (r: Result<SeatPlan, BackendError>)
    ensures
        health.health == Health::Ready ==> r == Ok::<SeatPlan, BackendError>(SeatPlan::Keep),
        health.health == Health::Stopped ==> r == Ok::<SeatPlan, BackendError>(SeatPlan::Replace),
        health.health == Health::Degraded ==> (r matches Err(BackendError::Failed(m))
            && m@ == degraded_message(id, string_views(health.issues@))),
{
    match health.health {
        Health::Ready => Ok(SeatPlan::Keep),
        Health::Stopped => Ok(SeatPlan::Replace),
        Health::Degraded => {
            let mut m = seat_message(id, " is degraded: ", health.issues.as_slice());
            m.append("; tear it down before restarting");
            Err(BackendError::Failed(m))
        },
    }
}

impl FarmTable {
    /// An empty farm.
    pub fn new() -> (r: FarmTable)
        ensures
            r.seats@.len() == 0,
    {
        FarmTable { seats: Vec::new() }
    }

    /// The position of the first seat numbered `id`.
    pub fn find(&self, id: u32) -> (r: Option<usize>)
        ensures
            match r {
                Some(i) => i < self.seats@.len() && self.seats@[i as int].id == id && forall|j: int|
                    0 <= j < i ==> self.seats@[j].id != id,
                None => forall|j: int| 0 <= j < self.seats@.len() ==> self.seats@[j].id != id,
            },
    {
        let mut i: usize = 0;
        while i < self.seats.len()
            invariant
                i <= self.seats@.len(),
                forall|j: int| 0 <= j < i ==> self.seats@[j].id != id,
            decreases self.seats@.len() - i,
        {
            if self.seats[i].id == id {
                return Some(i);
            }
            i += 1;
        }
        None
    }

    /// Drops every record of seat `id`, keeping the others in order, and
    /// hands back the runtime directories of the dropped records.
    pub fn remove_seat(&mut self, id: u32) -> (dirs: Vec<String>)
        ensures
            final(self).seats@ == without_id(old(self).seats@, id),
            string_views(dirs@) == dirs_of_id(old(self).seats@, id),
    {
        let ghost orig = self.seats@;
        let n = self.seats.len();
        let mut rest: Vec<SeatRecord> = Vec::new();
        std::mem::swap(&mut rest, &mut self.seats);
        let mut kept: Vec<SeatRecord> = Vec::new();
        let mut dirs: Vec<String> = Vec::new();
        let mut k: usize = 0;
        assert(orig.skip(0) =~= orig);
        while rest.len() > 0
            invariant
                k <= orig.len(),
                orig.len() == n,
                rest@ == orig.skip(k as int),
                kept@ == without_id(orig.take(k as int), id),
                string_views(dirs@) == dirs_of_id(orig.take(k as int), id),
            decreases rest@.len(),
        {
            let seat = rest.remove(0);
            proof {
                assert(orig.take(k + 1).drop_last() =~= orig.take(k as int));
                assert(orig.take(k + 1).last() == seat);
                assert(rest@ =~= orig.skip(k + 1));
            }
            if seat.id == id {
                let ghost before = dirs@;
                dirs.push(seat.runtime_dir);
                assert(string_views(dirs@) =~= string_views(before).push(dirs@.last()@));
            } else {
                kept.push(seat);
            }
            k += 1;
        }
        assert(orig.take(k as int) =~= orig);
        self.seats = kept;
        dirs
    }

    /// Records a newly booted seat after the others.
    pub fn add(&mut self, record: SeatRecord)
        ensures
            final(self).seats@ == old(self).seats@.push(record),
    {
        self.seats.push(record);
    }
}

/// Each status is the seat at the same position with its health.
pub open spec fn paired(st: Seq<SeatStatus>, seats: Seq<SeatRecord>, healths: Seq<SeatHealth>) -> bool {
    &&& st.len() == seats.len()
    &&& forall|i: int| 0 <= i < st.len() ==> #[trigger] st[i].seat == seats[i] && st[i].status == healths[i]
}

/// The farm's status: each recorded seat paired, in order, with the health
/// that inspecting it gave.
pub fn status(table: FarmTable, healths: Vec<SeatHealth>) -> (r: FarmStatus)
    requires
        healths@.len() == table.seats@.len(),
    ensures
        paired(r.seats@, table.seats@, healths@),
{
    let ghost seats0 = table.seats@;
    let ghost healths0 = healths@;
    let n = table.seats.len();
    let mut seats = table.seats;
    let mut hs = healths;
    let mut out: Vec<SeatStatus> = Vec::new();
    let mut k: usize = 0;
    while seats.len() > 0
        invariant
            k <= seats0.len(),
            seats0.len() == n,
            seats@ == seats0.skip(k as int),
            hs@ == healths0.skip(k as int),
            healths0.len() == seats0.len(),
            out@.len() == k,
            forall|i: int| 0 <= i < k ==> #[trigger] out@[i].seat == seats0[i] && out@[i].status == healths0[i],
        decreases seats@.len(),
    {
        let seat = seats.remove(0);
        let health = hs.remove(0);
        out.push(SeatStatus { seat, status: health });
        proof {
            assert(seats@ =~= seats0.skip(k + 1));
            assert(hs@ =~= healths0.skip(k + 1));
        }
        k += 1;
    }
    assert(seats0.skip(k as int).len() == 0);
    assert(k == seats0.len());
    assert(seats0 == table.seats@ && healths0 == healths@);
    let r = FarmStatus { seats: out };
    assert(paired(r.seats@, seats0, healths0));
    r
}

impl FarmStatus {
    /// The farm is up when every seat is ready; else the first seat that is
    /// not ready is reported with its issues.
    pub fn check_ready(&self) -> (r: Result<(), BackendError>)
        ensures
            match first_unready_index(self.seats@) {
                None => r is Ok,
                Some(i) => r matches Err(BackendError::Failed(m)) && m@ == unready_message(
                    self.seats@[i].seat.id,
                    string_views(self.seats@[i].status.issues@),
                ),
            },
    {
        let mut i: usize = 0;
        assert(self.seats@.skip(0) =~= self.seats@);
        while i < self.seats.len()
            invariant
                i <= self.seats@.len(),
                forall|j: int| 0 <= j < i ==> self.seats@[j].status.health == Health::Ready,
                first_unready_index(self.seats@) == match first_unready_index(self.seats@.skip(i as int)) {
                    Some(k) => Some(k + i),
                    None => None,
                },
            decreases self.seats@.len() - i,
        {
            proof {
                assert(self.seats@.skip(i as int).drop_first() =~= self.seats@.skip(i + 1));
                assert(self.seats@.skip(i as int)[0] == self.seats@[i as int]);
            }
            if self.seats[i].status.health != Health::Ready {
                let s = &self.seats[i];
                let m = seat_message(s.seat.id, " is not ready: ", s.status.issues.as_slice());
                return Err(BackendError::Failed(m));
            }
            i += 1;
        }
        Ok(())
    }
}

} // verus!
