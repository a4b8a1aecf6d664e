//! The registry of monitors: maps small integer handles to monitor
//! instances for callers that can only hold a number. A new monitor gets
//! the lowest unused positive handle.

use vstd::prelude::*;

use crate::error::BuildMonitorError;
use crate::monitor::Monitor;

verus! {

/// The registry. Handles are positive and, as long as every entry came
/// through [`Monitors::create`], pairwise distinct.
pub struct Monitors {
    pub monitors: Vec<Monitor>,
}

impl Monitors {
    /// The handles currently allocated, in registry order.
    pub open spec fn handles(&self) -> Seq<u8> {
        self.monitors@.map_values(|m: Monitor| m.handle)
    }

    /// Registry invariant: every handle is positive and no handle repeats.
    pub open spec fn wf(&self) -> bool {
        self.handles().no_duplicates() && (forall|i: int|
            0 <= i < self.handles().len() ==> self.handles()[i] >= 1)
    }

    /// An empty registry.
    pub fn new() -> (r: Monitors)
        ensures
            r.wf(),
            r.handles() == Seq::<u8>::empty(),
    {
        let r = Monitors { monitors: Vec::new() };
        proof {
            assert(r.handles() =~= Seq::<u8>::empty());
        }
        r
    }

    /// Whether some entry carries this handle.
    pub fn has_handle(&self, handle: u8) -> (r: bool)
        ensures
            r == self.handles().contains(handle),
    {
        let mut i: usize = 0;
        while i < self.monitors.len()
            invariant
                i <= self.handles().len(),
                forall|k: int| 0 <= k < i ==> self.handles()[k] != handle,
            decreases self.handles().len() - i,
        {
            if self.monitors[i].get_handle() == handle {
                proof {
                    assert(self.handles()[i as int] == handle);
                }
                return true;
            }
            i = i + 1;
        }
        proof {
            assert(!self.handles().contains(handle));
        }
        false
    }

    /// Register a new monitor for the given CI root URL and return its
    /// handle: the lowest positive integer no current entry carries.
    pub fn create(&mut self, server: &str) -> (h: u8)
        requires
            old(self).wf(),
            old(self).handles().len() < 255,
        ensures
            final(self).wf(),
            h >= 1,
            !old(self).handles().contains(h),
            forall|g: u8| 1 <= g < h ==> old(self).handles().contains(g),
            final(self).handles() == old(self).handles().push(h),
            final(self).monitors@.len() == old(self).monitors@.len() + 1,
            final(self).monitors@.last().handle == h,
            final(self).monitors@.last().jenkins_server@ == server@,
            final(self).monitors@.last().server is None,
            final(self).monitors@.last().client is None,
    {
        let mut h: u8 = 1;
        loop
            invariant
                *self == *old(self),
                old(self).wf(),
                old(self).handles().len() < 255,
                1 <= h <= 255,
                forall|g: u8| 1 <= g < h ==> old(self).handles().contains(g),
            ensures
                *self == *old(self),
                1 <= h <= 255,
                forall|g: u8| 1 <= g < h ==> old(self).handles().contains(g),
                !old(self).handles().contains(h),
            decreases 255 - h,
        {
            if !self.has_handle(h) {
                break;
            }
            proof {
                lemma_handles_pigeonhole(self.handles(), h as int + 1);
                assert(self.handles().len() >= h);
                assert(h < 255);
            }
            h = h + 1;
        }
        let ghost before = self.handles();
        self.monitors.push(Monitor::new(h, server));
        proof {
            assert(final(self).handles() =~= before.push(h));
            let hs = final(self).handles();
            assert forall|i: int, j: int| 0 <= i < j < hs.len() implies hs[i] != hs[j] by {
                if j == hs.len() - 1 {
                    assert(!before.contains(hs[j]));
                    assert(before[i] == hs[i]);
                }
            }
        }
        h
    }

    /// Remove the entry with this handle, if any.
    pub fn destroy(&mut self, handle: u8)
        requires
            old(self).wf(),
        ensures
            final(self).wf(),
            !final(self).handles().contains(handle),
            old(self).handles().contains(handle) ==> final(self).handles() == old(
                self,
            ).handles().remove(old(self).handles().index_of(handle)),
            !old(self).handles().contains(handle) ==> *final(self) == *old(self),
    {
        let i = match self.get(handle) {
            Ok(i) => i,
            Err(_) => {
                return;
            },
        };
        let ghost before = self.handles();
        let _removed = self.monitors.remove(i);
        proof {
            assert(before[i as int] == handle);
            assert(before.index_of(handle) == i as int) by {
                assert forall|k: int| 0 <= k < before.len() && before[k] == handle implies k
                    == i as int by {
                    if k != i as int {
                        assert(before[k] != before[i as int]);
                    }
                }
                assert(before.contains(handle));
            }
            assert(final(self).handles() =~= before.remove(i as int));
            let hs = final(self).handles();
            assert forall|p: int, q: int| 0 <= p < q < hs.len() implies hs[p] != hs[q] by {
                let p0 = if p < i as int {
                    p
                } else {
                    p + 1
                };
                let q0 = if q < i as int {
                    q
                } else {
                    q + 1
                };
                assert(hs[p] == before[p0] && hs[q] == before[q0]);
            }
            assert forall|k: int| 0 <= k < hs.len() implies hs[k] != handle by {
                let k0 = if k < i as int {
                    k
                } else {
                    k + 1
                };
                assert(hs[k] == before[k0]);
                if k0 != i as int {
                    assert(before[k0] != before[i as int]);
                }
            }
            assert(!hs.contains(handle));
        }
    }

    /// The registry index of the entry with this handle.
    pub fn get(&self, handle: u8) -> (r: Result<usize, BuildMonitorError>)
        ensures
            r matches Ok(i) ==> i < self.monitors@.len() && self.monitors@[i as int].handle
                == handle,
            r is Err <==> !self.handles().contains(handle),
            r matches Err(e) ==> e == BuildMonitorError::HandleNotFound,
    {
        let mut i: usize = 0;
        while i < self.monitors.len()
            invariant
                i <= self.handles().len(),
                forall|k: int| 0 <= k < i ==> self.handles()[k] != handle,
            decreases self.handles().len() - i,
        {
            if self.monitors[i].get_handle() == handle {
                proof {
                    assert(self.handles()[i as int] == handle);
                }
                return Ok(i);
            }
            i = i + 1;
        }
        proof {
            assert(!self.handles().contains(handle));
        }
        Err(BuildMonitorError::HandleNotFound)
    }
}

/// Pigeonhole for handle allocation: a duplicate-free sequence containing
/// every value in `1 .. h` holds at least `h - 1` elements.
proof fn lemma_handles_pigeonhole(hs: Seq<u8>, h: int)
    requires
        hs.no_duplicates(),
        1 <= h <= 256,
        forall|g: u8| 1 <= g < h ==> hs.contains(g),
    ensures
        hs.len() >= h - 1,
    decreases h,
{
    if h > 1 {
        let last: u8 = (h - 1) as u8;
        assert(hs.contains(last));
        let j = choose|j: int| 0 <= j < hs.len() && hs[j] == last;
        let rest = hs.remove(j);
        assert forall|p: int, q: int| 0 <= p < q < rest.len() implies rest[p] != rest[q] by {
            let p0 = if p < j {
                p
            } else {
                p + 1
            };
            let q0 = if q < j {
                q
            } else {
                q + 1
            };
            assert(rest[p] == hs[p0] && rest[q] == hs[q0]);
        }
        assert forall|g: u8| 1 <= g < h - 1 implies rest.contains(g) by {
            assert(hs.contains(g));
            let k = choose|k: int| 0 <= k < hs.len() && hs[k] == g;
            assert(k != j);
            if k < j {
                assert(rest[k] == g);
            } else {
                assert(rest[k - 1] == g);
            }
        }
        lemma_handles_pigeonhole(rest, h - 1);
    }
}

} // verus!
