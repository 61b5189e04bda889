use vstd::prelude::*;

use crate::civil::CivilTime;
use crate::error::Error;
use vstd::seq_lib::lemma_multiset_commutative;

verus! {

// The daily announcement schedule: fixed times of day, sorted into
// ascending order at construction.  The next announcement from a query
// instant is the latest time of day still ahead today, or the first time
// tomorrow.

/// Whether the times are in ascending order.
pub open spec fn sorted_u32(s: Seq<u32>) -> bool {
    forall|i: int, j: int| 0 <= i < j < s.len() ==> s[i] <= s[j]
}

/// Inserting an element anywhere adds exactly it to the multiset.
proof fn lemma_seq_insert_to_multiset(s: Seq<u32>, j: int, x: u32)
    requires
        0 <= j <= s.len(),
    ensures
        s.insert(j, x).to_multiset() =~= s.to_multiset().insert(x),
{
    broadcast use vstd::seq_lib::group_to_multiset_ensures;

    let front = s.subrange(0, j);
    let back = s.subrange(j, s.len() as int);
    lemma_multiset_commutative(front.push(x), back);
    lemma_multiset_commutative(front, back);
    assert(s =~= front + back);
}

/// Insert a time into a sorted list, keeping it sorted.
fn insert_time(sorted: &mut Vec<u32>, x: u32)
    requires
        sorted_u32(old(sorted)@),
    ensures
        sorted_u32(final(sorted)@),
        final(sorted)@.to_multiset() == old(sorted)@.to_multiset().insert(x),
{
    let mut j: usize = 0;
    while j < sorted.len() && sorted[j] <= x
        invariant
            j <= sorted@.len(),
            sorted@ == old(sorted)@,
            forall|k: int| 0 <= k < j ==> sorted@[k] <= x,
        decreases sorted@.len() - j,
    {
        j = j + 1;
    }
    proof {
        sorted@.insert_ensures(j as int, x);
        lemma_seq_insert_to_multiset(sorted@, j as int, x);
    }
    let ghost prev = sorted@;
    sorted.insert(j, x);
    proof {
        assert forall|a: int, b: int| 0 <= a < b < sorted@.len() implies sorted@[a]
            <= sorted@[b] by {
            if b < j {
            } else if a < j && b == j {
            } else if a == j {
                assert(sorted@[b] == prev[b - 1]);
                assert(x <= prev[j as int]);
                if j as int <= b - 1 {
                    assert(prev[j as int] <= prev[b - 1]);
                }
            } else if a < j {
                assert(sorted@[a] == prev[a]);
                assert(sorted@[b] == prev[b - 1]);
            } else {
                assert(sorted@[a] == prev[a - 1]);
                assert(sorted@[b] == prev[b - 1]);
            }
        }
    }
}

/// The daily announcement times, as seconds of the day in ascending
/// order.
#[derive(Debug)]
pub struct AnnouncementTimes {
    pub times: Vec<u32>,
}

impl AnnouncementTimes {
    /// Well-formedness: at least one time of day, each a real second of
    /// the day, in ascending order.
    pub open spec fn wf(self) -> bool {
        &&& 1 <= self.times@.len()
        &&& forall|i: int| 0 <= i < self.times@.len() ==> #[trigger] self.times@[i] < 86400
        &&& sorted_u32(self.times@)
    }

    /// Sort the times into ascending order and wrap them, failing fast
    /// where none is given or one is not a second of the day.
    pub fn new(times: Vec<u32>) -> (r: Result<AnnouncementTimes, Error>)
        ensures
            (r matches Ok(t) ==> t.wf() && t.times@.to_multiset() == times@.to_multiset()
                && t.times@.len() == times@.len()),
            ((r is Ok) <==> (1 <= times@.len() && (forall|i: int|
                0 <= i < times@.len() ==> #[trigger] times@[i] < 86400))),
    {
        if times.len() < 1 {
            return Err(Error::InvalidScheduleConfig);
        }
        let mut i: usize = 0;
        while i < times.len()
            invariant
                i <= times@.len(),
                forall|j: int| 0 <= j < i ==> #[trigger] times@[j] < 86400,
            decreases times@.len() - i,
        {
            if times[i] >= 86400 {
                proof {
                    assert(!(times@[i as int] < 86400));
                }
                return Err(Error::InvalidScheduleConfig);
            }
            i = i + 1;
        }
        let mut sorted: Vec<u32> = Vec::new();
        let mut k: usize = 0;
        proof {
            broadcast use vstd::seq_lib::group_to_multiset_ensures;

            assert(times@.subrange(0, 0) =~= Seq::<u32>::empty());
            assert(Seq::<u32>::empty().to_multiset() =~= sorted@.to_multiset());
        }
        while k < times.len()
            invariant
                k <= times@.len(),
                sorted_u32(sorted@),
                sorted@.to_multiset() == times@.subrange(0, k as int).to_multiset(),
            decreases times@.len() - k,
        {
            proof {
                broadcast use vstd::seq_lib::group_to_multiset_ensures;

                assert(times@.subrange(0, k as int + 1) =~= times@.subrange(0, k as int).push(
                    times@[k as int],
                ));
            }
            insert_time(&mut sorted, times[k]);
            k = k + 1;
        }
        proof {
            broadcast use vstd::seq_lib::group_to_multiset_ensures;

            assert(times@.subrange(0, times@.len() as int) =~= times@);
            assert(sorted@.len() == sorted@.to_multiset().len());
            assert(times@.len() == times@.to_multiset().len());
            assert forall|i2: int| 0 <= i2 < sorted@.len() implies #[trigger] sorted@[i2]
                < 86400 by {
                assert(sorted@.contains(sorted@[i2]));
                assert(sorted@.to_multiset().count(sorted@[i2]) > 0);
                assert(times@.contains(sorted@[i2]));
            }
        }
        Ok(AnnouncementTimes { times: sorted })
    }

    /// Seconds from `now` to the next announcement: the latest time of
    /// day still ahead today, or the first time tomorrow.
    pub fn duration_secs(&self, now: &CivilTime) -> (r: u64)
        requires
            self.wf(),
            now.wf(),
        ensures
            ({
                let sod = now.sec_of_day();
                let last = self.times@[self.times@.len() - 1] as int;
                if last > sod {
                    r == last - sod
                } else {
                    r == 86400 - sod + self.times@[0]
                }
            }),
    {
        let sod = self.seconds_of(now) as u32;
        let last = self.times[self.times.len() - 1];
        if last > sod {
            (last - sod) as u64
        } else {
            (86400 - sod + self.times[0]) as u64
        }
    }

    fn seconds_of(&self, now: &CivilTime) -> (r: i64)
        requires
            now.wf(),
        ensures
            r == now.sec_of_day(),
            0 <= r < 86400,
    {
        now.seconds_of_day()
    }
}

} // verus!
