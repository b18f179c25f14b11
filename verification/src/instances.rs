//! The named endpoints a client can talk to: exactly one is active at any
//! time, the others are kept by unique name. The prompts and the config
//! file around this live outside; this is the record-keeping itself.

use crate::error::TransferError;
use vstd::prelude::*;

verus! {

/// One configured endpoint: a name, the base URL, and the shared API key.
pub struct Instance {
    /// The unique name the user picks the endpoint by.
    pub name: String,
    /// The base URL of the endpoint.
    pub url: String,
    /// The shared API key sent on authenticated calls.
    pub api_key: String,
}

impl Clone for Instance {
    fn clone(&self) -> (r: Self)
        ensures
            r == *self,
    {
        Instance {
            name: self.name.clone(),
            url: self.url.clone(),
            api_key: self.api_key.clone(),
        }
    }
}

/// Which command asked for a configuration to be written, with the path
/// it goes to: an explicit initialisation, or any other command that found
/// none and prompts for one first.
pub enum CommandAndPath {
    /// An explicit initialisation of the configuration at this path.
    Init(String),
    /// Another command creating the missing configuration at this path.
    Other(String),
}

/// Some instance in the sequence carries this name.
pub open spec fn contains_name(s: Seq<Instance>, name: Seq<char>) -> bool {
    exists|i: int| 0 <= i < s.len() && s[i].name@ == name
}

/// The set of configured endpoints: the active one, and the others.
pub struct InstanceSet {
    /// The endpoint every transfer talks to.
    pub active: Instance,
    /// The remaining configured endpoints.
    pub others: Vec<Instance>,
}

impl InstanceSet {
    /// Well-formedness: names are unique, the active one's included.
    pub open spec fn wf(self) -> bool {
        &&& forall|i: int, j: int|
            0 <= i < j < self.others@.len() ==> #[trigger] self.others@[i].name@
                != #[trigger] self.others@[j].name@
        &&& forall|i: int| 0 <= i < self.others@.len() ==> (#[trigger] self.others@[i].name@)
            != self.active.name@
    }

    /// A set holding one endpoint, the active one.
    pub fn new(active: Instance) -> (s: InstanceSet)
        ensures
            s.wf(),
            s.active == active,
            s.others@.len() == 0,
    {
        InstanceSet { active, others: Vec::new() }
    }

    /// The endpoint transfers talk to.
    pub fn get_active_instance(&self) -> (r: &Instance)
        ensures
            *r == self.active,
    {
        &self.active
    }

    /// Whether any configured endpoint, the active one included, carries
    /// this name.
    pub fn name_in_use(&self, name: &String) -> (r: bool)
        ensures
            r == (self.active.name@ == name@ || contains_name(self.others@, name@)),
    {
        if self.active.name == *name {
            return true;
        }
        let mut i: usize = 0;
        while i < self.others.len()
            invariant
                0 <= i <= self.others@.len(),
                forall|j: int| 0 <= j < i ==> self.others@[j].name@ != name@,
            decreases self.others@.len() - i,
        {
            if self.others[i].name == *name {
                return true;
            }
            i = i + 1;
        }
        false
    }

    /// Adds an endpoint, optionally making it the active one at once; its
    /// name must be fresh, else nothing changes and the duplicate is
    /// reported.
    pub fn add_instance(&mut self, inst: Instance, make_active: bool) -> (r: Result<
        (),
        TransferError,
    >)
        requires
            old(self).wf(),
        ensures
            final(self).wf(),
            r is Ok <==> !(old(self).active.name@ == inst.name@ || contains_name(
                old(self).others@,
                inst.name@,
            )),
            match r {
                Ok(_) => {
                    if make_active {
                        final(self).active == inst && final(self).others@ == old(
                            self,
                        ).others@.push(old(self).active)
                    } else {
                        final(self).active == old(self).active && final(self).others@ == old(
                            self,
                        ).others@.push(inst)
                    }
                },
                Err(e) => e == TransferError::DuplicateIdentifier && final(self).active == old(
                    self,
                ).active && final(self).others@ == old(self).others@,
            },
    {
        if self.name_in_use(&inst.name) {
            return Err(TransferError::DuplicateIdentifier);
        }
        if make_active {
            let mut inst = inst;
            core::mem::swap(&mut self.active, &mut inst);
            self.others.push(inst);
        } else {
            self.others.push(inst);
        }
        Ok(())
    }

    /// Makes the endpoint of this name the active one; the old active one
    /// takes its place among the others. Fails, changing nothing, when no
    /// other endpoint carries the name.
    pub fn switch_instance(&mut self, name: &String) -> (r: Result<(), TransferError>)
        requires
            old(self).wf(),
        ensures
            final(self).wf(),
            r is Ok <==> contains_name(old(self).others@, name@),
            match r {
                Ok(_) => exists|i: int|
                    {
                        &&& 0 <= i < old(self).others@.len()
                        &&& (#[trigger] old(self).others@[i]).name@ == name@
                        &&& final(self).active == old(self).others@[i]
                        &&& final(self).others@ == old(self).others@.update(
                            i,
                            old(self).active,
                        )
                    },
                Err(e) => e == TransferError::NotFound && final(self).active == old(self).active
                    && final(self).others@ == old(self).others@,
            },
    {
        let mut i: usize = 0;
        while i < self.others.len()
            invariant
                0 <= i <= self.others@.len(),
                self.wf(),
                self.active == old(self).active,
                self.others@ == old(self).others@,
                forall|j: int| 0 <= j < i ==> self.others@[j].name@ != name@,
            decreases self.others@.len() - i,
        {
            if self.others[i].name == *name {
                let slot = &mut self.others[i];
                core::mem::swap(&mut self.active, slot);
                proof {
                    assert(self.others@ =~= old(self).others@.update(
                        i as int,
                        old(self).active,
                    ));
                    assert forall|x: int, y: int|
                        0 <= x < y < self.others@.len() implies #[trigger] self.others@[x].name@
                        != #[trigger] self.others@[y].name@ by {
                        assert(old(self).others@[x] == if x == i {
                            old(self).others@[i as int]
                        } else {
                            old(self).others@[x]
                        });
                    }
                }
                return Ok(());
            }
            i = i + 1;
        }
        Err(TransferError::NotFound)
    }
}

/// What removing an endpoint left behind.
#[derive(Clone, Copy, Debug, PartialEq, Eq, Structural)]
pub enum RemoveOutcome {
    /// A non-active endpoint of that name is gone.
    Removed,
    /// The active endpoint was removed and the first remaining one
    /// replaced it.
    ActiveReplaced,
    /// The only endpoint was removed: no configuration remains, and the
    /// caller deletes the file.
    ConfigObsolete,
}

impl InstanceSet {
    /// Removes the endpoint of this name. Removing the active one
    /// promotes the first of the others, or, when none remains, reports
    /// the configuration obsolete; the set itself is then unchanged and
    /// the caller discards it. Fails, changing nothing, when no endpoint
    /// carries the name.
    pub fn remove_instance(&mut self, name: &String) -> (r: Result<RemoveOutcome, TransferError>)
        requires
            old(self).wf(),
        ensures
            final(self).wf(),
            r is Ok <==> (old(self).active.name@ == name@ || contains_name(
                old(self).others@,
                name@,
            )),
            match r {
                Ok(out) => match out {
                    RemoveOutcome::Removed => {
                        &&& old(self).active.name@ != name@
                        &&& final(self).active == old(self).active
                        &&& exists|i: int|
                            {
                                &&& 0 <= i < old(self).others@.len()
                                &&& (#[trigger] old(self).others@[i]).name@ == name@
                                &&& final(self).others@ == old(self).others@.remove(i)
                            }
                    },
                    RemoveOutcome::ActiveReplaced => {
                        &&& old(self).active.name@ == name@
                        &&& old(self).others@.len() > 0
                        &&& final(self).active == old(self).others@[0]
                        &&& final(self).others@ == old(self).others@.remove(0)
                    },
                    RemoveOutcome::ConfigObsolete => {
                        &&& old(self).active.name@ == name@
                        &&& old(self).others@.len() == 0
                        &&& final(self).active == old(self).active
                        &&& final(self).others@ == old(self).others@
                    },
                },
                Err(e) => e == TransferError::NotFound && final(self).active == old(self).active
                    && final(self).others@ == old(self).others@,
            },
    {
        if self.active.name == *name {
            if self.others.len() == 0 {
                return Ok(RemoveOutcome::ConfigObsolete);
            }
            let first = self.others.remove(0);
            self.active = first;
            proof {
                assert forall|x: int, y: int|
                    0 <= x < y < self.others@.len() implies #[trigger] self.others@[x].name@
                    != #[trigger] self.others@[y].name@ by {
                    assert(self.others@[x] == old(self).others@[x + 1]);
                    assert(self.others@[y] == old(self).others@[y + 1]);
                }
                assert forall|x: int| 0 <= x < self.others@.len() implies (
                #[trigger] self.others@[x].name@) != self.active.name@ by {
                    assert(self.others@[x] == old(self).others@[x + 1]);
                }
            }
            return Ok(RemoveOutcome::ActiveReplaced);
        }
        let mut i: usize = 0;
        while i < self.others.len()
            invariant
                0 <= i <= self.others@.len(),
                self.wf(),
                self.active == old(self).active,
                self.others@ == old(self).others@,
                forall|j: int| 0 <= j < i ==> self.others@[j].name@ != name@,
            decreases self.others@.len() - i,
        {
            if self.others[i].name == *name {
                self.others.remove(i);
                proof {
                    assert forall|x: int, y: int|
                        0 <= x < y < self.others@.len() implies #[trigger] self.others@[x].name@
                        != #[trigger] self.others@[y].name@ by {
                        let xo = if x < i {
                            x
                        } else {
                            x + 1
                        };
                        let yo = if y < i {
                            y
                        } else {
                            y + 1
                        };
                        assert(self.others@[x] == old(self).others@[xo]);
                        assert(self.others@[y] == old(self).others@[yo]);
                    }
                    assert forall|x: int| 0 <= x < self.others@.len() implies (
                    #[trigger] self.others@[x].name@) != self.active.name@ by {
                        let xo = if x < i {
                            x
                        } else {
                            x + 1
                        };
                        assert(self.others@[x] == old(self).others@[xo]);
                    }
                }
                return Ok(RemoveOutcome::Removed);
            }
            i = i + 1;
        }
        Err(TransferError::NotFound)
    }
}

} // verus!
