//! The description of a system's capability distribution: the objects that a system starts
//! with, the capabilities they hold, and what fills their memory.

use vstd::prelude::*;

pub mod object;
pub mod traverse;

verus! {

pub type Word = u64;

pub type Badge = Word;

pub type CPtr = Word;

pub type ObjectId = usize;

pub type CapSlot = usize;

pub type CapTableEntry = (CapSlot, Cap);

pub type ASIDSlotEntry = ObjectId;

/// What a capability allows its holder to do.
#[derive(Debug, Copy, Clone, PartialEq, Eq, Structural)]
pub struct Rights {
    pub read: bool,
    pub write: bool,
    pub grant: bool,
    pub grant_reply: bool,
}

/// A capability to the object with the given id.
#[derive(Debug, Copy, Clone, PartialEq, Eq, Structural)]
pub enum Cap {
    Untyped { object: ObjectId },
    Endpoint { object: ObjectId, badge: Badge, rights: Rights },
    Notification { object: ObjectId, badge: Badge, rights: Rights },
    CNode { object: ObjectId, guard: Word, guard_size: Word },
    TCB { object: ObjectId },
    IRQHandler { object: ObjectId },
    VCPU { object: ObjectId },
    SmallPage { object: ObjectId, rights: Rights, cached: bool },
    LargePage { object: ObjectId, rights: Rights, cached: bool },
    PT { object: ObjectId },
    PD { object: ObjectId },
    PUD { object: ObjectId },
    PGD { object: ObjectId },
    ASIDPool { object: ObjectId },
    ArmIRQHandler { object: ObjectId },
}

/// The handler object of one interrupt.
#[derive(Debug, Copy, Clone, PartialEq, Eq, Structural)]
pub struct IRQEntry {
    pub irq: Word,
    pub handler: ObjectId,
}

/// What the boot information holds at an offset.
#[derive(Debug, Copy, Clone, PartialEq, Eq, Structural)]
pub enum FillEntryContentBootInfoId {
    Fdt,
}

#[derive(Debug, Copy, Clone, PartialEq, Eq, Structural)]
pub struct FillEntryContentBootInfo {
    pub id: FillEntryContentBootInfoId,
    pub offset: usize,
}

/// Where the bytes for a part of a page come from: data of the
/// description's own kind, or the boot information.
#[derive(Debug, PartialEq, Eq)]
pub enum FillEntryContent<F> {
    Data(F),
    BootInfo(FillEntryContentBootInfo),
}

/// The content of the bytes `range` of a page.
#[derive(Debug, PartialEq, Eq)]
pub struct FillEntry<F> {
    pub range: core::ops::Range<usize>,
    pub content: FillEntryContent<F>,
}

impl<F> FillEntry<F> {
    /// The number of bytes that the entry fills.
    pub open spec fn len(self) -> int {
        self.range.end - self.range.start
    }

    /// An entry that holds data does not end before it starts.
    pub open spec fn wf(self) -> bool {
        self.content is Data ==> self.range.start <= self.range.end
    }
}

/// An object of one of the kinds that the kernel knows. Pages are the only
/// objects with fill entries.
#[derive(Debug, PartialEq, Eq)]
pub enum Object<F> {
    Untyped(object::Untyped),
    Endpoint,
    Notification,
    CNode(object::CNode),
    TCB(object::TCB),
    IRQ(object::IRQ),
    VCPU,
    SmallPage(object::SmallPage<F>),
    LargePage(object::LargePage<F>),
    PT(object::PT),
    PD(object::PD),
    PUD(object::PUD),
    PGD(object::PGD),
    ASIDPool(object::ASIDPool),
    ArmIRQ(object::ArmIRQ),
}

/// An object with its name.
#[derive(Debug, PartialEq, Eq)]
pub struct NamedObject<N, F> {
    pub name: N,
    pub object: Object<F>,
}

/// A whole description. `N` is the kind of the objects' names and `F` the
/// kind of the data that fills pages.
#[derive(Debug, PartialEq, Eq)]
pub struct Spec<N, F> {
    pub objects: Vec<NamedObject<N, F>>,
    pub irqs: Vec<IRQEntry>,
    pub asid_slots: Vec<ASIDSlotEntry>,
}

/// A copy of a vector of plain values.
pub fn copy_vec<T: Copy>(v: &Vec<T>) -> (r: Vec<T>)
    ensures
        r@ == v@,
{
    let mut r: Vec<T> = Vec::new();
    let mut i: usize = 0;
    while i < v.len()
        invariant
            i <= v.len(),
            r@ == v@.take(i as int),
        decreases v.len() - i,
    {
        r.push(v[i]);
        i = i + 1;
        assert(r@ =~= v@.take(i as int));
    }
    assert(v@.take(v.len() as int) =~= v@);
    r
}

} // verus!
