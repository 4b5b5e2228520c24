//! Inventory data model: the payload carried by `Update` messages.
//!
//! A `WorkerInfo` is one worker's full inventory snapshot; each `Update`
//! replaces the server's prior view of that worker wholesale. A
//! `MachineInfo` describes one machine; its `id` is the stable handle a
//! server uses when issuing a power-up command.

use vstd::prelude::*;

verus! {

/// One machine in a worker's inventory.
#[derive(Debug)]
pub struct MachineInfo {
    /// Stable handle, unique within a `WorkerInfo`, used by power-up commands.
    pub id: u32,
    /// Human-readable machine name.
    pub display_name: String,
    /// Whether the machine was online when the snapshot was taken.
    pub is_online: bool,
}

/// One worker's full inventory snapshot.
#[derive(Debug)]
pub struct WorkerInfo {
    /// Human-readable worker name.
    pub worker_name: String,
    /// The machines this worker is responsible for, in reporting order.
    pub machines: Vec<MachineInfo>,
}

/// Mathematical model of a `MachineInfo`.
#[verifier::ext_equal]
pub struct MachineInfoView {
    pub id: u32,
    pub display_name: Seq<char>,
    pub is_online: bool,
}

/// Mathematical model of a `WorkerInfo`.
#[verifier::ext_equal]
pub struct WorkerInfoView {
    pub worker_name: Seq<char>,
    pub machines: Seq<MachineInfoView>,
}

impl View for MachineInfo {
    type V = MachineInfoView;

    open spec fn view(&self) -> MachineInfoView {
        MachineInfoView { id: self.id, display_name: self.display_name@, is_online: self.is_online }
    }
}

impl View for WorkerInfo {
    type V = WorkerInfoView;

    open spec fn view(&self) -> WorkerInfoView {
        WorkerInfoView {
            worker_name: self.worker_name@,
            machines: self.machines@.map_values(|m: MachineInfo| m@),
        }
    }
}

impl Clone for MachineInfo {
    fn clone(&self) -> (r: Self)
        ensures
            r@ == self@,
    {
        MachineInfo {
            id: self.id,
            display_name: self.display_name.clone(),
            is_online: self.is_online,
        }
    }
}

impl Clone for WorkerInfo {
    fn clone(&self) -> (r: Self)
        ensures
            r@ == self@,
    {
        let mut machines: Vec<MachineInfo> = Vec::new();
        let mut i: usize = 0;
        while i < self.machines.len()
            invariant
                i <= self.machines.len(),
                machines@.len() == i,
                forall|k: int| 0 <= k < i ==> machines@[k]@ == self.machines@[k]@,
            decreases self.machines.len() - i,
        {
            machines.push(self.machines[i].clone());
            i = i + 1;
        }
        let r = WorkerInfo { worker_name: self.worker_name.clone(), machines };
        proof {
            assert(r@.machines =~= self@.machines);
            assert(r@ =~= self@);
        }
        r
    }
}

/// The machine of `info` with the given id, if any; the first match wins.
pub open spec fn spec_find_machine(machines: Seq<MachineInfoView>, id: u32) -> Option<
    MachineInfoView,
>
    decreases machines.len(),
{
    if machines.len() == 0 {
        None
    } else if machines[0].id == id {
        Some(machines[0])
    } else {
        spec_find_machine(machines.drop_first(), id)
    }
}

impl WorkerInfo {
    /// Map a power-up command's machine id back to the stored machine entry.
    pub fn find_machine(&self, id: u32) -> (r: Option<&MachineInfo>)
        ensures
            match r {
                Some(m) => spec_find_machine(self@.machines, id) == Some(m@),
                None => spec_find_machine(self@.machines, id) is None,
            },
    {
        let mut i: usize = 0;
        proof {
            assert(self@.machines.skip(0) =~= self@.machines);
        }
        while i < self.machines.len()
            invariant
                i <= self.machines.len(),
                spec_find_machine(self@.machines, id) == spec_find_machine(
                    self@.machines.skip(i as int),
                    id,
                ),
                forall|k: int| 0 <= k < i ==> self@.machines[k].id != id,
            decreases self.machines.len() - i,
        {
            if self.machines[i].id == id {
                assert(self@.machines.skip(i as int)[0] == self@.machines[i as int]);
                return Some(&self.machines[i]);
            }
            proof {
                assert(self@.machines.skip(i as int).drop_first() =~= self@.machines.skip(
                    i as int + 1,
                ));
            }
            i = i + 1;
        }
        proof {
            assert(self@.machines.skip(i as int).len() == 0);
        }
        None
    }
}

} // verus!
