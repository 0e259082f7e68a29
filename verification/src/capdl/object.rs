//! What each kind of object holds.

use crate::capdl::{copy_vec, CPtr, CapTableEntry, FillEntry, Word};
use vstd::prelude::*;

verus! {

#[derive(Debug, Copy, Clone, PartialEq, Eq, Structural)]
pub struct Untyped {
    pub size_bits: usize,
    pub paddr: Option<usize>,
}

#[derive(Debug, Copy, Clone, PartialEq, Eq, Structural)]
pub struct ASIDPool {
    pub high: Word,
}

#[derive(Debug, PartialEq, Eq)]
pub struct CNode {
    pub size_bits: usize,
    pub slots: Vec<CapTableEntry>,
}

/// What a thread starts with besides its capabilities.
#[derive(Debug, PartialEq, Eq)]
pub struct TCBExtraInfo {
    pub ipc_buffer_addr: Word,
    pub affinity: Word,
    pub prio: u8,
    pub max_prio: u8,
    pub resume: bool,
    pub ip: Word,
    pub sp: Word,
    pub spsr: Word,
    pub gprs: Vec<Word>,
    pub master_fault_ep: CPtr,
}

#[derive(Debug, PartialEq, Eq)]
pub struct TCB {
    pub slots: Vec<CapTableEntry>,
    pub fault_ep: CPtr,
    pub extra_info: TCBExtraInfo,
}

#[derive(Debug, PartialEq, Eq)]
pub struct IRQ {
    pub slots: Vec<CapTableEntry>,
}

#[derive(Debug, PartialEq, Eq)]
pub struct ArmIRQ {
    pub slots: Vec<CapTableEntry>,
    pub trigger: Word,
    pub target: Word,
}

#[derive(Debug, PartialEq, Eq)]
pub struct PT {
    pub slots: Vec<CapTableEntry>,
}

#[derive(Debug, PartialEq, Eq)]
pub struct PD {
    pub slots: Vec<CapTableEntry>,
}

#[derive(Debug, PartialEq, Eq)]
pub struct PUD {
    pub slots: Vec<CapTableEntry>,
}

#[derive(Debug, PartialEq, Eq)]
pub struct PGD {
    pub slots: Vec<CapTableEntry>,
}

#[derive(Debug, PartialEq, Eq)]
pub struct SmallPage<F> {
    pub paddr: Option<usize>,
    pub fill: Vec<FillEntry<F>>,
}

#[derive(Debug, PartialEq, Eq)]
pub struct LargePage<F> {
    pub paddr: Option<usize>,
    pub fill: Vec<FillEntry<F>>,
}

impl CNode {
    /// The two hold the same values.
    pub open spec fn same(self, other: Self) -> bool {
        self.size_bits == other.size_bits && self.slots@ == other.slots@
    }
}

impl Clone for CNode {
    fn clone(&self) -> (r: Self)
        ensures
            self.same(r),
    {
        CNode { size_bits: self.size_bits, slots: copy_vec(&self.slots) }
    }
}

impl TCBExtraInfo {
    /// The two hold the same values.
    pub open spec fn same(self, other: Self) -> bool {
        &&& self.ipc_buffer_addr == other.ipc_buffer_addr
        &&& self.affinity == other.affinity
        &&& self.prio == other.prio
        &&& self.max_prio == other.max_prio
        &&& self.resume == other.resume
        &&& self.ip == other.ip
        &&& self.sp == other.sp
        &&& self.spsr == other.spsr
        &&& self.gprs@ == other.gprs@
        &&& self.master_fault_ep == other.master_fault_ep
    }
}

impl Clone for TCBExtraInfo {
    fn clone(&self) -> (r: Self)
        ensures
            self.same(r),
    {
        TCBExtraInfo {
            ipc_buffer_addr: self.ipc_buffer_addr,
            affinity: self.affinity,
            prio: self.prio,
            max_prio: self.max_prio,
            resume: self.resume,
            ip: self.ip,
            sp: self.sp,
            spsr: self.spsr,
            gprs: copy_vec(&self.gprs),
            master_fault_ep: self.master_fault_ep,
        }
    }
}

impl TCB {
    /// The two hold the same values.
    pub open spec fn same(self, other: Self) -> bool {
        &&& self.slots@ == other.slots@
        &&& self.fault_ep == other.fault_ep
        &&& self.extra_info.same(other.extra_info)
    }
}

impl Clone for TCB {
    fn clone(&self) -> (r: Self)
        ensures
            self.same(r),
    {
        TCB {
            slots: copy_vec(&self.slots),
            fault_ep: self.fault_ep,
            extra_info: self.extra_info.clone(),
        }
    }
}

impl IRQ {
    /// The two hold the same values.
    pub open spec fn same(self, other: Self) -> bool {
        self.slots@ == other.slots@
    }
}

impl Clone for IRQ {
    fn clone(&self) -> (r: Self)
        ensures
            self.same(r),
    {
        IRQ { slots: copy_vec(&self.slots) }
    }
}

impl ArmIRQ {
    /// The two hold the same values.
    pub open spec fn same(self, other: Self) -> bool {
        &&& self.slots@ == other.slots@
        &&& self.trigger == other.trigger
        &&& self.target == other.target
    }
}

impl Clone for ArmIRQ {
    fn clone(&self) -> (r: Self)
        ensures
            self.same(r),
    {
        ArmIRQ { slots: copy_vec(&self.slots), trigger: self.trigger, target: self.target }
    }
}

impl PT {
    /// The two hold the same values.
    pub open spec fn same(self, other: Self) -> bool {
        self.slots@ == other.slots@
    }
}

impl Clone for PT {
    fn clone(&self) -> (r: Self)
        ensures
            self.same(r),
    {
        PT { slots: copy_vec(&self.slots) }
    }
}

impl PD {
    /// The two hold the same values.
    pub open spec fn same(self, other: Self) -> bool {
        self.slots@ == other.slots@
    }
}

impl Clone for PD {
    fn clone(&self) -> (r: Self)
        ensures
            self.same(r),
    {
        PD { slots: copy_vec(&self.slots) }
    }
}

impl PUD {
    /// The two hold the same values.
    pub open spec fn same(self, other: Self) -> bool {
        self.slots@ == other.slots@
    }
}

impl Clone for PUD {
    fn clone(&self) -> (r: Self)
        ensures
            self.same(r),
    {
        PUD { slots: copy_vec(&self.slots) }
    }
}

impl PGD {
    /// The two hold the same values.
    pub open spec fn same(self, other: Self) -> bool {
        self.slots@ == other.slots@
    }
}

impl Clone for PGD {
    fn clone(&self) -> (r: Self)
        ensures
            self.same(r),
    {
        PGD { slots: copy_vec(&self.slots) }
    }
}

} // verus!
