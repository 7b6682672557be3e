//! Process bookkeeping: descriptors and the manager that hands out ids.
//! Scheduling is out of scope at this layer; these are the records the
//! future scheduler will consume.
use vstd::prelude::*;

verus! {

/// One process: its id and its control group, which is reserved and always
/// zero for now.
#[derive(Debug, Clone, Copy, PartialEq, Eq, Structural)]
pub struct ProcessDescriptor {
    id: u64,
    control_group: u64,
}

impl ProcessDescriptor {
    pub closed spec fn spec_id(self) -> u64 {
        self.id
    }

    pub closed spec fn spec_control_group(self) -> u64 {
        self.control_group
    }

    pub fn new(id: u64) -> (r: Self)
        ensures
            r.spec_id() == id,
            r.spec_control_group() == 0,
    {
        Self { control_group: 0, id }
    }

    /// The process id.
    pub fn get_id(&self) -> (r: u64)
        ensures
            r == self.spec_id(),
    {
        self.id
    }

    /// The control group; reserved, always zero.
    pub fn get_control_group(&self) -> (r: u64)
        ensures
            r == self.spec_control_group(),
    {
        self.control_group
    }
}

/// The table of live processes and the next id to hand out.
pub struct ProcessManager {
    processes: Vec<ProcessDescriptor>,
    next_process_id: u64,
}

impl ProcessManager {
    pub closed spec fn spec_processes(self) -> Seq<ProcessDescriptor> {
        self.processes@
    }

    pub closed spec fn spec_next_process_id(self) -> u64 {
        self.next_process_id
    }

    /// Ids are never reused while a process lives.
    pub open spec fn wf(self) -> bool {
        forall|j: int, k: int|
            0 <= j < k < self.spec_processes().len() ==> self.spec_processes()[j].spec_id()
                != self.spec_processes()[k].spec_id()
    }

    pub fn new() -> (r: ProcessManager)
        ensures
            r.wf(),
            r.spec_processes().len() == 0,
            r.spec_next_process_id() == 0,
    {
        ProcessManager { processes: Vec::new(), next_process_id: 0 }
    }

    /// The descriptor of the process with `id`, if it lives.
    pub fn get_process(&self, id: u64) -> (r: Option<ProcessDescriptor>)
        ensures
            match r {
                Some(d) => d.spec_id() == id && exists|j: int|
                    0 <= j < self.spec_processes().len() && (#[trigger] self.spec_processes()[j])
                        == d,
                None => forall|j: int|
                    0 <= j < self.spec_processes().len() ==> (#[trigger] self.spec_processes()[j]).spec_id()
                        != id,
            },
    {
        let mut j: usize = 0;
        while j < self.processes.len()
            invariant
                0 <= j <= self.spec_processes().len(),
                forall|k: int|
                    0 <= k < j ==> (#[trigger] self.spec_processes()[k]).spec_id() != id,
            decreases self.spec_processes().len() - j,
        {
            if self.processes[j].get_id() == id {
                return Some(self.processes[j]);
            }
            j = j + 1;
        }
        None
    }

    /// Create a process under the next free id and record it. The caller
    /// hands out ids monotonically, so the next id is not yet in use.
    pub fn create_process(&mut self) -> (r: ProcessDescriptor)
        requires
            old(self).wf(),
            forall|j: int|
                0 <= j < old(self).spec_processes().len() ==> (#[trigger] old(
                    self,
                ).spec_processes()[j]).spec_id() != old(self).spec_next_process_id(),
        ensures
            final(self).wf(),
            r.spec_id() == old(self).spec_next_process_id(),
            r.spec_control_group() == 0,
            final(self).spec_processes() == old(self).spec_processes().push(r),
            final(self).spec_next_process_id() == vstd::wrapping::u64_specs::wrapping_add(
                old(self).spec_next_process_id(),
                1,
            ),
    {
        let descriptor = ProcessDescriptor::new(self.next_process_id);
        let ghost pre = self.spec_processes();
        self.processes.push(descriptor);
        self.next_process_id = self.next_process_id.wrapping_add(1);
        proof {
            assert forall|a: int, b: int|
                0 <= a < b < self.spec_processes().len() implies self.spec_processes()[a].spec_id()
                != self.spec_processes()[b].spec_id() by {
                if b == self.spec_processes().len() - 1 {
                    assert(pre[a].spec_id() != descriptor.spec_id());
                }
            }
        }
        descriptor
    }
}

} // verus!
