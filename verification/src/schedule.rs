//! The schedule manager: appointments with due dates, recurrence and
//! priority.

use vstd::prelude::*;

use crate::strutil::{dec_digits, render_u64, str_eq};

verus! {

/// One scheduled item.
#[derive(Debug)]
pub struct Schedule {
    pub id: String,
    pub manager_id: String,
    pub title: String,
    pub description: String,
    pub due_date: u64,
    pub recurrence: String,
    pub priority: String,
    pub completed: bool,
}

/// Field-for-field sameness of two schedules.
pub open spec fn sched_eq(a: Schedule, b: Schedule) -> bool {
    &&& a.id@ == b.id@
    &&& a.manager_id@ == b.manager_id@
    &&& a.title@ == b.title@
    &&& a.description@ == b.description@
    &&& a.due_date == b.due_date
    &&& a.recurrence@ == b.recurrence@
    &&& a.priority@ == b.priority@
    &&& a.completed == b.completed
}

impl Clone for Schedule {
    fn clone(&self) -> (r: Self)
        ensures
            sched_eq(r, *self),
    {
        Schedule {
            id: self.id.clone(),
            manager_id: self.manager_id.clone(),
            title: self.title.clone(),
            description: self.description.clone(),
            due_date: self.due_date,
            recurrence: self.recurrence.clone(),
            priority: self.priority.clone(),
            completed: self.completed,
        }
    }
}

/// Index of the first schedule with this id, or the sequence's length
/// if there is none.
pub open spec fn sched_idx(s: Seq<Schedule>, id: Seq<char>) -> int
    decreases s.len(),
{
    if s.len() == 0 {
        0
    } else if s[0].id@ == id {
        0
    } else {
        1 + sched_idx(s.drop_first(), id)
    }
}

/// [`sched_idx`] is determined by a scan's findings.
pub proof fn lemma_sched_idx_is(s: Seq<Schedule>, id: Seq<char>, i: int)
    requires
        0 <= i <= s.len(),
        forall|j: int| 0 <= j < i ==> s[j].id@ != id,
        i < s.len() ==> s[i].id@ == id,
    ensures
        sched_idx(s, id) == i,
    decreases s.len(),
{
    if s.len() == 0 {
    } else if i == 0 {
    } else {
        lemma_sched_idx_is(s.drop_first(), id, i - 1);
    }
}

/// The schedules due in a window, oldest filter first: uncompleted
/// items whose due date lies in `[now, end]`, in stored order.
pub open spec fn upcoming(s: Seq<Schedule>, now: u64, end: u64) -> Seq<Schedule>
    decreases s.len(),
{
    if s.len() == 0 {
        Seq::empty()
    } else {
        let head = upcoming(s.drop_last(), now, end);
        if now <= s.last().due_date <= end && !s.last().completed {
            head.push(s.last())
        } else {
            head
        }
    }
}

/// Manages the schedule list.
#[derive(Debug)]
pub struct ScheduleManager {
    pub name: String,
    pub schedules: Vec<Schedule>,
}

impl ScheduleManager {
    /// A manager with no schedules.
    pub fn new() -> (r: ScheduleManager)
        ensures
            r.name@ == "ScheduleManager"@,
            r.schedules@.len() == 0,
    {
        ScheduleManager { name: String::from_str("ScheduleManager"), schedules: Vec::new() }
    }

    /// Bring the manager up; there is nothing to load.
    pub fn initialize(&mut self) -> (r: Result<(), String>)
        ensures
            r is Ok,
            *final(self) == *old(self),
    {
        Ok(())
    }

    /// Create a schedule. Its id numbers it after the count already
    /// stored; it starts uncompleted with an empty description.
    pub fn create_schedule(
        &mut self,
        manager_id: &str,
        title: &str,
        due_date: u64,
        recurrence: &str,
        priority: &str,
    ) -> (r: Result<Schedule, String>)
        requires
            old(self).schedules@.len() < usize::MAX,
        ensures
            ({
                let added = final(self).schedules@.last();
                &&& r matches Ok(s) && sched_eq(s, added)
                &&& final(self).schedules@ == old(self).schedules@.push(added)
                &&& added.id@ == "schedule_"@ + dec_digits((old(self).schedules@.len() + 1) as nat)
                &&& added.manager_id@ == manager_id@
                &&& added.title@ == title@
                &&& added.description@.len() == 0
                &&& added.due_date == due_date
                &&& added.recurrence@ == recurrence@
                &&& added.priority@ == priority@
                &&& !added.completed
                &&& final(self).name == old(self).name
            }),
    {
        let mut id = String::from_str("schedule_");
        let number = render_u64((self.schedules.len() + 1) as u64);
        id.append(number.as_str());
        let schedule = Schedule {
            id,
            manager_id: String::from_str(manager_id),
            title: String::from_str(title),
            description: String::new(),
            due_date,
            recurrence: String::from_str(recurrence),
            priority: String::from_str(priority),
            completed: false,
        };
        let copy = schedule.clone();
        self.schedules.push(schedule);
        Ok(copy)
    }

    /// Retitle or reprioritize the schedule with this id; an unknown id
    /// is rejected.
    pub fn update_schedule(&mut self, id: &str, title: Option<&str>, priority: Option<&str>) -> (r:
        Result<Schedule, String>)
        ensures
            ({
                let s = old(self).schedules@;
                let i = sched_idx(s, id@);
                match r {
                    Ok(updated) => {
                        &&& i < s.len()
                        &&& final(self).schedules@.len() == s.len()
                        &&& forall|j: int|
                            0 <= j < s.len() && j != i ==> final(self).schedules@[j] == s[j]
                        &&& ({
                            let d = final(self).schedules@[i];
                            &&& d.id@ == s[i].id@
                            &&& d.manager_id@ == s[i].manager_id@
                            &&& d.title@ == (match title {
                                Some(t) => t@,
                                None => s[i].title@,
                            })
                            &&& d.description@ == s[i].description@
                            &&& d.due_date == s[i].due_date
                            &&& d.recurrence@ == s[i].recurrence@
                            &&& d.priority@ == (match priority {
                                Some(p) => p@,
                                None => s[i].priority@,
                            })
                            &&& d.completed == s[i].completed
                            &&& sched_eq(updated, d)
                        })
                        &&& final(self).name == old(self).name
                    },
                    Err(m) => {
                        &&& i == s.len()
                        &&& *final(self) == *old(self)
                        &&& m@ == "Schedule "@ + id@ + " not found"@
                    },
                }
            }),
    {
        let n = self.schedules.len();
        let mut i: usize = 0;
        while i < n
            invariant
                n == self.schedules@.len(),
                i <= n,
                *self == *old(self),
                forall|j: int| 0 <= j < i ==> self.schedules@[j].id@ != id@,
            decreases n - i,
        {
            if str_eq(self.schedules[i].id.as_str(), id) {
                proof {
                    lemma_sched_idx_is(self.schedules@, id@, i as int);
                }
                let d = &self.schedules[i];
                let updated = Schedule {
                    id: d.id.clone(),
                    manager_id: d.manager_id.clone(),
                    title: match title {
                        Some(t) => String::from_str(t),
                        None => d.title.clone(),
                    },
                    description: d.description.clone(),
                    due_date: d.due_date,
                    recurrence: d.recurrence.clone(),
                    priority: match priority {
                        Some(p) => String::from_str(p),
                        None => d.priority.clone(),
                    },
                    completed: d.completed,
                };
                let copy = updated.clone();
                self.schedules.set(i, updated);
                return Ok(copy);
            }
            i = i + 1;
        }
        proof {
            lemma_sched_idx_is(self.schedules@, id@, n as int);
        }
        let mut m = String::from_str("Schedule ");
        m.append(id);
        m.append(" not found");
        Err(m)
    }

    /// Remove the schedule with this id; an unknown id is rejected.
    pub fn delete_schedule(&mut self, id: &str) -> (r: Result<bool, String>)
        ensures
            ({
                let s = old(self).schedules@;
                let i = sched_idx(s, id@);
                match r {
                    Ok(deleted) => {
                        &&& deleted
                        &&& i < s.len()
                        &&& final(self).schedules@ == s.remove(i)
                        &&& final(self).name == old(self).name
                    },
                    Err(m) => {
                        &&& i == s.len()
                        &&& *final(self) == *old(self)
                        &&& m@ == "Schedule "@ + id@ + " not found"@
                    },
                }
            }),
    {
        let n = self.schedules.len();
        let mut i: usize = 0;
        while i < n
            invariant
                n == self.schedules@.len(),
                i <= n,
                *self == *old(self),
                forall|j: int| 0 <= j < i ==> self.schedules@[j].id@ != id@,
            decreases n - i,
        {
            if str_eq(self.schedules[i].id.as_str(), id) {
                proof {
                    lemma_sched_idx_is(self.schedules@, id@, i as int);
                }
                self.schedules.remove(i);
                return Ok(true);
            }
            i = i + 1;
        }
        proof {
            lemma_sched_idx_is(self.schedules@, id@, n as int);
        }
        let mut m = String::from_str("Schedule ");
        m.append(id);
        m.append(" not found");
        Err(m)
    }

    /// The uncompleted schedules due between `now` and `days` days
    /// later, in stored order. The window's end saturates at the
    /// largest representable time.
    pub fn upcoming_at(&self, now: u64, days: u32) -> (r: Vec<Schedule>)
        ensures
            ({
                let end = if now + days * 86400 <= u64::MAX {
                    (now + days * 86400) as u64
                } else {
                    u64::MAX
                };
                let want = upcoming(self.schedules@, now, end);
                &&& r@.len() == want.len()
                &&& forall|j: int| 0 <= j < r@.len() ==> sched_eq(#[trigger] r@[j], want[j])
            }),
    {
        let window: u64 = (days as u64) * 86400;
        let end: u64 = match now.checked_add(window) {
            Some(e) => e,
            None => u64::MAX,
        };
        let mut out: Vec<Schedule> = Vec::new();
        let mut i: usize = 0;
        proof {
            assert(self.schedules@.subrange(0, 0) =~= Seq::<Schedule>::empty());
        }
        while i < self.schedules.len()
            invariant
                i <= self.schedules@.len(),
                end == if now + days * 86400 <= u64::MAX {
                    (now + days * 86400) as u64
                } else {
                    u64::MAX
                },
                ({
                    let want = upcoming(self.schedules@.subrange(0, i as int), now, end);
                    out@.len() == want.len() && forall|j: int|
                        0 <= j < out@.len() ==> sched_eq(#[trigger] out@[j], want[j])
                }),
            decreases self.schedules@.len() - i,
        {
            proof {
                assert(self.schedules@.subrange(0, i + 1).drop_last() =~= self.schedules@.subrange(
                    0,
                    i as int,
                ));
                assert(self.schedules@.subrange(0, i + 1).last() == self.schedules@[i as int]);
            }
            let d = &self.schedules[i];
            if now <= d.due_date && d.due_date <= end && !d.completed {
                out.push(d.clone());
            }
            i = i + 1;
        }
        proof {
            assert(self.schedules@.subrange(0, self.schedules@.len() as int) =~= self.schedules@);
        }
        out
    }
}

} // verus!
