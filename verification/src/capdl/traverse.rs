//! Rebuilding a system description with other names or other fill data.
//!
//! A traversal hands every name, and every piece of fill data together with
//! the number of bytes it fills, to a function of the caller. It keeps
//! everything else, and stops at the first call that fails.

use crate::capdl::object::{LargePage, SmallPage};
use crate::capdl::{copy_vec, FillEntry, FillEntryContent, NamedObject, Object, Spec};
use vstd::prelude::*;

verus! {

/// What the caller's function may answer for a name.
pub type NameRel<N, N1, E> = spec_fn(N, Result<N1, E>) -> bool;

/// What the caller's function may answer for fill data of a given length.
pub type FillRel<F, F1, E> = spec_fn(usize, F, Result<F1, E>) -> bool;

/// The answers of `f`, as a relation.
pub open spec fn name_rel<N, N1, E, FN: Fn(&N) -> Result<N1, E>>(f: FN) -> NameRel<N, N1, E> {
    |name: N, r: Result<N1, E>| f.ensures((&name,), r)
}

/// The answers of `g`, as a relation.
pub open spec fn fill_rel<F, F1, E, G: Fn(usize, &F) -> Result<F1, E>>(g: G) -> FillRel<F, F1, E> {
    |len: usize, data: F, r: Result<F1, E>| g.ensures((len, &data), r)
}

/// The answers of `f`, which is not told the length, as a relation.
pub open spec fn plain_fill_rel<F, F1, E, G: Fn(&F) -> Result<F1, E>>(g: G) -> FillRel<F, F1, E> {
    |len: usize, data: F, r: Result<F1, E>| g.ensures((&data,), r)
}

/// The relation of a function that answers with a clone, and never fails.
pub open spec fn clone_name_rel<N: Clone, E>() -> NameRel<N, N, E> {
    |name: N, r: Result<N, E>| r matches Ok(copy) && cloned(name, copy)
}

/// The relation of a function that answers with a clone, and never fails.
pub open spec fn clone_fill_rel<F: Clone, E>() -> FillRel<F, F, E> {
    |len: usize, data: F, r: Result<F, E>| r matches Ok(copy) && cloned(data, copy)
}

impl<F> FillEntry<F> {
    /// `out` is this entry with its data, if it holds data, replaced by an
    /// answer of `fill`.
    pub open spec fn maps_to<F1, E>(self, out: FillEntry<F1>, fill: FillRel<F, F1, E>) -> bool {
        &&& out.range == self.range
        &&& match self.content {
            FillEntryContent::BootInfo(info) => out.content == FillEntryContent::<F1>::BootInfo(
                info,
            ),
            FillEntryContent::Data(data) => out.content matches FillEntryContent::Data(answer)
                && fill(self.len() as usize, data, Ok(answer)),
        }
    }

    /// `fill` may fail with `e` on this entry's data.
    pub open spec fn fails_with<F1, E>(self, e: E, fill: FillRel<F, F1, E>) -> bool {
        self.content matches FillEntryContent::Data(data) && fill(
            self.len() as usize,
            data,
            Err(e),
        )
    }

    /// `fill` may succeed on this entry.
    pub open spec fn passes<F1, E>(self, fill: FillRel<F, F1, E>) -> bool {
        exists|out: FillEntry<F1>| self.maps_to(out, fill)
    }

    /// The caller's function may be called on this entry's data.
    pub open spec fn accepted(self, fill_ok: spec_fn(usize, F) -> bool) -> bool {
        self.content matches FillEntryContent::Data(data) ==> fill_ok(self.len() as usize, data)
    }
}

/// `out` is `entries` with each entry rebuilt.
pub open spec fn fill_maps_to<F, F1, E>(
    entries: Seq<FillEntry<F>>,
    out: Seq<FillEntry<F1>>,
    fill: FillRel<F, F1, E>,
) -> bool {
    &&& out.len() == entries.len()
    &&& forall|i: int| 0 <= i < entries.len() ==> (#[trigger] entries[i]).maps_to(out[i], fill)
}

/// `fill` may fail with `e` on one of `entries` after it has succeeded on all
/// the entries before that one.
pub open spec fn fill_fails_with<F, F1, E>(
    entries: Seq<FillEntry<F>>,
    e: E,
    fill: FillRel<F, F1, E>,
) -> bool {
    exists|i: int|
        0 <= i < entries.len() && (#[trigger] entries[i]).fails_with(e, fill) && forall|j: int|
            0 <= j < i ==> (#[trigger] entries[j]).passes(fill)
}

/// Each of `entries` is well formed, and the caller's function may be called
/// on its data.
pub open spec fn fill_accepted<F>(
    entries: Seq<FillEntry<F>>,
    fill_ok: spec_fn(usize, F) -> bool,
) -> bool {
    forall|i: int|
        0 <= i < entries.len() ==> (#[trigger] entries[i]).wf() && entries[i].accepted(fill_ok)
}

/// Rebuilds the entries in order, with `f` called on the data of each entry
/// that holds data, and stops at the first failure.
fn traverse_fill_entires<F, F1, E, G: Fn(usize, &F) -> Result<F1, E>>(
    fill_entries: &Vec<FillEntry<F>>,
    f: &G,
) -> (r: Result<Vec<FillEntry<F1>>, E>)
    requires
        fill_accepted(fill_entries@, |len: usize, data: F| f.requires((len, &data))),
    ensures
        match r {
            Ok(out) => fill_maps_to(fill_entries@, out@, fill_rel(*f)),
            Err(e) => fill_fails_with(fill_entries@, e, fill_rel(*f)),
        },
{
    let mut out: Vec<FillEntry<F1>> = Vec::new();
    let mut i: usize = 0;
    while i < fill_entries.len()
        invariant
            i <= fill_entries.len(),
            out@.len() == i,
            fill_accepted(fill_entries@, |len: usize, data: F| f.requires((len, &data))),
            forall|j: int| 0 <= j < i ==> (#[trigger] fill_entries@[j]).maps_to(out@[j], fill_rel(*f)),
        decreases fill_entries.len() - i,
    {
        let entry = &fill_entries[i];
        assert(entry.wf() && entry.accepted(|len: usize, data: F| f.requires((len, &data))));
        let content = match &entry.content {
            FillEntryContent::BootInfo(info) => FillEntryContent::BootInfo(*info),
            FillEntryContent::Data(data) => match f(entry.range.end - entry.range.start, data) {
                Ok(answer) => FillEntryContent::Data(answer),
                Err(e) => {
                    proof {
                        assert(fill_entries@[i as int].fails_with(e, fill_rel(*f)));
                        assert forall|j: int| 0 <= j < i implies (#[trigger] fill_entries@[j]).passes(
                            fill_rel(*f),
                        ) by {
                            assert(fill_entries@[j].maps_to(out@[j], fill_rel(*f)));
                        }
                    }
                    return Err(e);
                },
            },
        };
        out.push(FillEntry { range: entry.range.start..entry.range.end, content });
        i = i + 1;
    }
    Ok(out)
}

impl<F> SmallPage<F> {
    /// `out` is this page with its fill entries rebuilt.
    pub open spec fn maps_to<F1, E>(self, out: SmallPage<F1>, fill: FillRel<F, F1, E>) -> bool {
        out.paddr == self.paddr && fill_maps_to(self.fill@, out.fill@, fill)
    }

    fn traverse_ref<F1, E, G: Fn(usize, &F) -> Result<F1, E>>(&self, f: &G) -> (r: Result<
        SmallPage<F1>,
        E,
    >)
        requires
            fill_accepted(self.fill@, |len: usize, data: F| f.requires((len, &data))),
        ensures
            match r {
                Ok(out) => self.maps_to(out, fill_rel(*f)),
                Err(e) => fill_fails_with(self.fill@, e, fill_rel(*f)),
            },
    {
        match traverse_fill_entires(&self.fill, f) {
            Ok(fill) => Ok(SmallPage { paddr: self.paddr, fill }),
            Err(e) => Err(e),
        }
    }

    /// Rebuilds the page with `f` called on the data of each fill entry, in
    /// order, together with the number of bytes that the entry fills.
    pub fn traverse<F1, E>(&self, f: impl Fn(usize, &F) -> Result<F1, E>) -> (r: Result<
        SmallPage<F1>,
        E,
    >)
        requires
            fill_accepted(self.fill@, |len: usize, data: F| f.requires((len, &data))),
        ensures
            match r {
                Ok(out) => self.maps_to(out, fill_rel(f)),
                Err(e) => fill_fails_with(self.fill@, e, fill_rel(f)),
            },
    {
        self.traverse_ref(&f)
    }
}

impl<F> LargePage<F> {
    /// `out` is this page with its fill entries rebuilt.
    pub open spec fn maps_to<F1, E>(self, out: LargePage<F1>, fill: FillRel<F, F1, E>) -> bool {
        out.paddr == self.paddr && fill_maps_to(self.fill@, out.fill@, fill)
    }

    fn traverse_ref<F1, E, G: Fn(usize, &F) -> Result<F1, E>>(&self, f: &G) -> (r: Result<
        LargePage<F1>,
        E,
    >)
        requires
            fill_accepted(self.fill@, |len: usize, data: F| f.requires((len, &data))),
        ensures
            match r {
                Ok(out) => self.maps_to(out, fill_rel(*f)),
                Err(e) => fill_fails_with(self.fill@, e, fill_rel(*f)),
            },
    {
        match traverse_fill_entires(&self.fill, f) {
            Ok(fill) => Ok(LargePage { paddr: self.paddr, fill }),
            Err(e) => Err(e),
        }
    }

    /// Rebuilds the page with `f` called on the data of each fill entry, in
    /// order, together with the number of bytes that the entry fills.
    pub fn traverse<F1, E>(&self, f: impl Fn(usize, &F) -> Result<F1, E>) -> (r: Result<
        LargePage<F1>,
        E,
    >)
        requires
            fill_accepted(self.fill@, |len: usize, data: F| f.requires((len, &data))),
        ensures
            match r {
                Ok(out) => self.maps_to(out, fill_rel(f)),
                Err(e) => fill_fails_with(self.fill@, e, fill_rel(f)),
            },
    {
        self.traverse_ref(&f)
    }
}

impl<F> Object<F> {
    /// The fill entries of a page; no entries for any other object.
    pub open spec fn fill(self) -> Seq<FillEntry<F>> {
        match self {
            Object::SmallPage(page) => page.fill@,
            Object::LargePage(page) => page.fill@,
            _ => Seq::empty(),
        }
    }

    /// `out` is this object with its fill entries, if it is a page, rebuilt.
    pub open spec fn maps_to<F1, E>(self, out: Object<F1>, fill: FillRel<F, F1, E>) -> bool {
        match self {
            Object::Untyped(obj) => out == Object::<F1>::Untyped(obj),
            Object::Endpoint => out is Endpoint,
            Object::Notification => out is Notification,
            Object::CNode(obj) => out matches Object::CNode(kept) && obj.same(kept),
            Object::TCB(obj) => out matches Object::TCB(kept) && obj.same(kept),
            Object::IRQ(obj) => out matches Object::IRQ(kept) && obj.same(kept),
            Object::VCPU => out is VCPU,
            Object::SmallPage(page) => out matches Object::SmallPage(rebuilt) && page.maps_to(
                rebuilt,
                fill,
            ),
            Object::LargePage(page) => out matches Object::LargePage(rebuilt) && page.maps_to(
                rebuilt,
                fill,
            ),
            Object::PT(obj) => out matches Object::PT(kept) && obj.same(kept),
            Object::PD(obj) => out matches Object::PD(kept) && obj.same(kept),
            Object::PUD(obj) => out matches Object::PUD(kept) && obj.same(kept),
            Object::PGD(obj) => out matches Object::PGD(kept) && obj.same(kept),
            Object::ASIDPool(obj) => out == Object::<F1>::ASIDPool(obj),
            Object::ArmIRQ(obj) => out matches Object::ArmIRQ(kept) && obj.same(kept),
        }
    }

    fn traverse_ref<F1, E, G: Fn(usize, &F) -> Result<F1, E>>(&self, f: &G) -> (r: Result<
        Object<F1>,
        E,
    >)
        requires
            fill_accepted(self.fill(), |len: usize, data: F| f.requires((len, &data))),
        ensures
            match r {
                Ok(out) => self.maps_to(out, fill_rel(*f)),
                Err(e) => fill_fails_with(self.fill(), e, fill_rel(*f)),
            },
    {
        Ok(
            match self {
                Object::Untyped(obj) => Object::Untyped(*obj),
                Object::Endpoint => Object::Endpoint,
                Object::Notification => Object::Notification,
                Object::CNode(obj) => Object::CNode(obj.clone()),
                Object::TCB(obj) => Object::TCB(obj.clone()),
                Object::IRQ(obj) => Object::IRQ(obj.clone()),
                Object::VCPU => Object::VCPU,
                Object::SmallPage(obj) => match obj.traverse_ref(f) {
                    Ok(page) => Object::SmallPage(page),
                    Err(e) => {
                        return Err(e);
                    },
                },
                Object::LargePage(obj) => match obj.traverse_ref(f) {
                    Ok(page) => Object::LargePage(page),
                    Err(e) => {
                        return Err(e);
                    },
                },
                Object::PT(obj) => Object::PT(obj.clone()),
                Object::PD(obj) => Object::PD(obj.clone()),
                Object::PUD(obj) => Object::PUD(obj.clone()),
                Object::PGD(obj) => Object::PGD(obj.clone()),
                Object::ASIDPool(obj) => Object::ASIDPool(*obj),
                Object::ArmIRQ(obj) => Object::ArmIRQ(obj.clone()),
            },
        )
    }

    /// Rebuilds the object. A page has `f` called on the data of each of its
    /// fill entries; any other object is kept as it is.
    pub fn traverse<F1, E>(&self, f: impl Fn(usize, &F) -> Result<F1, E>) -> (r: Result<
        Object<F1>,
        E,
    >)
        requires
            fill_accepted(self.fill(), |len: usize, data: F| f.requires((len, &data))),
        ensures
            match r {
                Ok(out) => self.maps_to(out, fill_rel(f)),
                Err(e) => fill_fails_with(self.fill(), e, fill_rel(f)),
            },
    {
        self.traverse_ref(&f)
    }
}

impl<N, F> NamedObject<N, F> {
    /// `out` is this object with its name replaced by an answer of `name`, and
    /// its fill entries rebuilt.
    pub open spec fn maps_to<N1, F1, E>(
        self,
        out: NamedObject<N1, F1>,
        name: NameRel<N, N1, E>,
        fill: FillRel<F, F1, E>,
    ) -> bool {
        name(self.name, Ok(out.name)) && self.object.maps_to(out.object, fill)
    }

    /// The traversal of this object may fail with `e`: on the name, or, after
    /// the name has been answered, on the fill entries.
    pub open spec fn fails_with<N1, F1, E>(
        self,
        e: E,
        name: NameRel<N, N1, E>,
        fill: FillRel<F, F1, E>,
    ) -> bool {
        ||| name(self.name, Err(e))
        ||| (exists|answer: N1| name(self.name, Ok(answer))) && fill_fails_with(
            self.object.fill(),
            e,
            fill,
        )
    }

    /// The traversal of this object may succeed.
    pub open spec fn passes<N1, F1, E>(
        self,
        name: NameRel<N, N1, E>,
        fill: FillRel<F, F1, E>,
    ) -> bool {
        exists|out: NamedObject<N1, F1>| self.maps_to(out, name, fill)
    }

    /// The caller's functions may be called on the name and on the data of
    /// each fill entry, and the fill entries are well formed.
    pub open spec fn accepted(
        self,
        name_ok: spec_fn(N) -> bool,
        fill_ok: spec_fn(usize, F) -> bool,
    ) -> bool {
        name_ok(self.name) && fill_accepted(self.object.fill(), fill_ok)
    }

    fn traverse_ref<N1, F1, E, FN: Fn(&N) -> Result<N1, E>, G: Fn(usize, &F) -> Result<F1, E>>(
        &self,
        f: &FN,
        g: &G,
    ) -> (r: Result<NamedObject<N1, F1>, E>)
        requires
            self.accepted(
                |name: N| f.requires((&name,)),
                |len: usize, data: F| g.requires((len, &data)),
            ),
        ensures
            match r {
                Ok(out) => self.maps_to(out, name_rel(*f), fill_rel(*g)),
                Err(e) => self.fails_with(e, name_rel(*f), fill_rel(*g)),
            },
    {
        let name = match f(&self.name) {
            Ok(name) => name,
            Err(e) => {
                return Err(e);
            },
        };
        match self.object.traverse_ref(g) {
            Ok(object) => Ok(NamedObject { name, object }),
            Err(e) => {
                assert(name_rel(*f)(self.name, Ok(name)));
                Err(e)
            },
        }
    }

    /// Rebuilds the object: the name is what `f` answers for it, and the data
    /// of each fill entry is what `g` answers for it. The name comes first.
    pub fn traverse<N1, F1, E>(
        &self,
        f: impl Fn(&N) -> Result<N1, E>,
        g: impl Fn(usize, &F) -> Result<F1, E>,
    ) -> (r: Result<NamedObject<N1, F1>, E>)
        requires
            self.accepted(
                |name: N| f.requires((&name,)),
                |len: usize, data: F| g.requires((len, &data)),
            ),
        ensures
            match r {
                Ok(out) => self.maps_to(out, name_rel(f), fill_rel(g)),
                Err(e) => self.fails_with(e, name_rel(f), fill_rel(g)),
            },
    {
        self.traverse_ref(&f, &g)
    }
}

/// `f` may succeed on `item`.
pub open spec fn may_succeed<T, T1, E, H: Fn(&T) -> Result<T1, E>>(f: H, item: T) -> bool {
    exists|answer: T1| f.ensures((&item,), Ok(answer))
}

/// Calls `f` on each of `items`, in order, and collects the answers. Stops at
/// the first failure.
fn traverse_each<T, T1, E, H: Fn(&T) -> Result<T1, E>>(items: &Vec<T>, f: &H) -> (r: Result<
    Vec<T1>,
    E,
>)
    requires
        forall|i: int| 0 <= i < items@.len() ==> f.requires((&#[trigger] items@[i],)),
    ensures
        match r {
            Ok(out) => out@.len() == items@.len() && forall|i: int|
                0 <= i < items@.len() ==> f.ensures((&#[trigger] items@[i],), Ok(out@[i])),
            Err(e) => exists|i: int|
                0 <= i < items@.len() && f.ensures((&#[trigger] items@[i],), Err(e)) && forall|
                    j: int,
                |
                    0 <= j < i ==> may_succeed(*f, #[trigger] items@[j]),
        },
{
    let mut out: Vec<T1> = Vec::new();
    let mut i: usize = 0;
    while i < items.len()
        invariant
            i <= items.len(),
            out@.len() == i,
            forall|k: int| 0 <= k < items@.len() ==> f.requires((&#[trigger] items@[k],)),
            forall|k: int| 0 <= k < i ==> f.ensures((&#[trigger] items@[k],), Ok(out@[k])),
        decreases items.len() - i,
    {
        match f(&items[i]) {
            Ok(answer) => {
                out.push(answer);
            },
            Err(e) => {
                proof {
                    assert(f.ensures((&items@[i as int],), Err(e)));
                    assert forall|j: int| 0 <= j < i implies may_succeed(
                        *f,
                        #[trigger] items@[j],
                    ) by {
                        assert(f.ensures((&items@[j],), Ok(out@[j])));
                    }
                }
                return Err(e);
            },
        }
        i = i + 1;
    }
    Ok(out)
}

impl<N, F> Spec<N, F> {
    /// `out` is this description with each object rebuilt, and everything
    /// else kept.
    pub open spec fn maps_to<N1, F1, E>(
        self,
        out: Spec<N1, F1>,
        name: NameRel<N, N1, E>,
        fill: FillRel<F, F1, E>,
    ) -> bool {
        &&& out.irqs@ == self.irqs@
        &&& out.asid_slots@ == self.asid_slots@
        &&& out.objects@.len() == self.objects@.len()
        &&& forall|i: int|
            0 <= i < self.objects@.len() ==> (#[trigger] self.objects@[i]).maps_to(
                out.objects@[i],
                name,
                fill,
            )
    }

    /// The traversal may fail with `e` on one of the objects after it has
    /// succeeded on all the objects before that one.
    pub open spec fn fails_with<N1, F1, E>(
        self,
        e: E,
        name: NameRel<N, N1, E>,
        fill: FillRel<F, F1, E>,
    ) -> bool {
        exists|i: int|
            0 <= i < self.objects@.len() && (#[trigger] self.objects@[i]).fails_with(e, name, fill)
                && forall|j: int| 0 <= j < i ==> (#[trigger] self.objects@[j]).passes(name, fill)
    }

    /// The caller's functions may be called on every name and on the data of
    /// every fill entry, and the fill entries are well formed.
    pub open spec fn accepted(
        self,
        name_ok: spec_fn(N) -> bool,
        fill_ok: spec_fn(usize, F) -> bool,
    ) -> bool {
        forall|i: int|
            0 <= i < self.objects@.len() ==> (#[trigger] self.objects@[i]).accepted(name_ok, fill_ok)
    }

    fn traverse_ref<N1, F1, E, FN: Fn(&N) -> Result<N1, E>, G: Fn(usize, &F) -> Result<F1, E>>(
        &self,
        f: &FN,
        g: &G,
    ) -> (r: Result<Spec<N1, F1>, E>)
        requires
            self.accepted(
                |name: N| f.requires((&name,)),
                |len: usize, data: F| g.requires((len, &data)),
            ),
        ensures
            match r {
                Ok(out) => self.maps_to(out, name_rel(*f), fill_rel(*g)),
                Err(e) => self.fails_with(e, name_rel(*f), fill_rel(*g)),
            },
    {
        let each = |named_object: &NamedObject<N, F>| -> (r: Result<NamedObject<N1, F1>, E>)
            requires
                named_object.accepted(
                    |name: N| f.requires((&name,)),
                    |len: usize, data: F| g.requires((len, &data)),
                ),
            ensures
                match r {
                    Ok(out) => named_object.maps_to(out, name_rel(*f), fill_rel(*g)),
                    Err(e) => named_object.fails_with(e, name_rel(*f), fill_rel(*g)),
                },
            { named_object.traverse_ref(f, g) };
        match traverse_each(&self.objects, &each) {
            Ok(objects) => Ok(
                Spec {
                    objects,
                    irqs: copy_vec(&self.irqs),
                    asid_slots: copy_vec(&self.asid_slots),
                },
            ),
            Err(e) => {
                proof {
                    let i = choose|i: int|
                        0 <= i < self.objects@.len() && each.ensures(
                            (&#[trigger] self.objects@[i],),
                            Err(e),
                        ) && forall|j: int|
                            0 <= j < i ==> may_succeed(each, #[trigger] self.objects@[j]);
                    assert(self.objects@[i].fails_with(e, name_rel(*f), fill_rel(*g)));
                    assert forall|j: int| 0 <= j < i implies (#[trigger] self.objects@[j]).passes(
                        name_rel(*f),
                        fill_rel(*g),
                    ) by {
                        assert(may_succeed(each, self.objects@[j]));
                        let answer = choose|answer: NamedObject<N1, F1>|
                            each.ensures((&self.objects@[j],), Ok(answer));
                        assert(self.objects@[j].maps_to(answer, name_rel(*f), fill_rel(*g)));
                    }
                }
                Err(e)
            },
        }
    }

    /// Rebuilds the description: every name is what `f` answers for it, and
    /// the data of every fill entry is what `g` answers for it and the number
    /// of bytes that the entry fills. Objects are visited in order, and the
    /// first failure ends the traversal.
    pub fn traverse<N1, F1, E>(
        &self,
        f: impl Fn(&N) -> Result<N1, E>,
        g: impl Fn(usize, &F) -> Result<F1, E>,
    ) -> (r: Result<Spec<N1, F1>, E>)
        requires
            self.accepted(
                |name: N| f.requires((&name,)),
                |len: usize, data: F| g.requires((len, &data)),
            ),
        ensures
            match r {
                Ok(out) => self.maps_to(out, name_rel(f), fill_rel(g)),
                Err(e) => self.fails_with(e, name_rel(f), fill_rel(g)),
            },
    {
        self.traverse_ref(&f, &g)
    }
}

/// Every answer that `narrow` allows, `wide` allows too.
pub open spec fn name_rel_within<N, N1, E>(
    narrow: NameRel<N, N1, E>,
    wide: NameRel<N, N1, E>,
) -> bool {
    forall|name: N, r: Result<N1, E>| #[trigger] narrow(name, r) ==> wide(name, r)
}

/// Every answer that `narrow` allows, `wide` allows too.
pub open spec fn fill_rel_within<F, F1, E>(
    narrow: FillRel<F, F1, E>,
    wide: FillRel<F, F1, E>,
) -> bool {
    forall|len: usize, data: F, r: Result<F1, E>| #[trigger]
        narrow(len, data, r) ==> wide(len, data, r)
}

/// What holds of the traversal of fill entries under a relation holds under
/// every wider relation.
pub proof fn lemma_fill_widens<F, F1, E>(
    entries: Seq<FillEntry<F>>,
    narrow: FillRel<F, F1, E>,
    wide: FillRel<F, F1, E>,
)
    requires
        fill_rel_within(narrow, wide),
    ensures
        forall|out: Seq<FillEntry<F1>>| #[trigger]
            fill_maps_to(entries, out, narrow) ==> fill_maps_to(entries, out, wide),
        forall|e: E| #[trigger]
            fill_fails_with(entries, e, narrow) ==> fill_fails_with(entries, e, wide),
{
    assert forall|out: Seq<FillEntry<F1>>| #[trigger]
        fill_maps_to(entries, out, narrow) implies fill_maps_to(entries, out, wide) by {
        assert forall|i: int| 0 <= i < entries.len() implies (#[trigger] entries[i]).maps_to(
            out[i],
            wide,
        ) by {
            assert(entries[i].maps_to(out[i], narrow));
        }
    }
    assert forall|e: E| #[trigger]
        fill_fails_with(entries, e, narrow) implies fill_fails_with(entries, e, wide) by {
        let i = choose|i: int|
            0 <= i < entries.len() && (#[trigger] entries[i]).fails_with(e, narrow) && forall|
                j: int,
            |
                0 <= j < i ==> (#[trigger] entries[j]).passes(narrow);
        assert(entries[i].fails_with(e, wide));
        assert forall|j: int| 0 <= j < i implies (#[trigger] entries[j]).passes(wide) by {
            assert(entries[j].passes(narrow));
            let out = choose|out: FillEntry<F1>| entries[j].maps_to(out, narrow);
            assert(entries[j].maps_to(out, wide));
        }
    }
}

/// What holds of the traversal of an object under two relations holds under
/// every two wider relations.
pub proof fn lemma_named_object_widens<N, F, N1, F1, E>(
    object: NamedObject<N, F>,
    narrow_name: NameRel<N, N1, E>,
    narrow_fill: FillRel<F, F1, E>,
    wide_name: NameRel<N, N1, E>,
    wide_fill: FillRel<F, F1, E>,
)
    requires
        name_rel_within(narrow_name, wide_name),
        fill_rel_within(narrow_fill, wide_fill),
    ensures
        forall|out: NamedObject<N1, F1>| #[trigger]
            object.maps_to(out, narrow_name, narrow_fill) ==> object.maps_to(
                out,
                wide_name,
                wide_fill,
            ),
        forall|e: E| #[trigger]
            object.fails_with(e, narrow_name, narrow_fill) ==> object.fails_with(
                e,
                wide_name,
                wide_fill,
            ),
        object.passes(narrow_name, narrow_fill) ==> object.passes(wide_name, wide_fill),
{
    lemma_fill_widens(object.object.fill(), narrow_fill, wide_fill);
    assert forall|out: NamedObject<N1, F1>| #[trigger]
        object.maps_to(out, narrow_name, narrow_fill) implies object.maps_to(
        out,
        wide_name,
        wide_fill,
    ) by {
        assert(narrow_name(object.name, Ok(out.name)));
        match object.object {
            Object::SmallPage(page) => {
                assert(fill_maps_to(page.fill@, out.object->SmallPage_0.fill@, narrow_fill));
            },
            Object::LargePage(page) => {
                assert(fill_maps_to(page.fill@, out.object->LargePage_0.fill@, narrow_fill));
            },
            _ => {},
        }
    }
    assert forall|e: E| #[trigger]
        object.fails_with(e, narrow_name, narrow_fill) implies object.fails_with(
        e,
        wide_name,
        wide_fill,
    ) by {
        if narrow_name(object.name, Err(e)) {
        } else {
            let answer = choose|answer: N1| narrow_name(object.name, Ok(answer));
            assert(wide_name(object.name, Ok(answer)));
            assert(fill_fails_with(object.object.fill(), e, narrow_fill));
        }
    }
    if object.passes(narrow_name, narrow_fill) {
        let out = choose|out: NamedObject<N1, F1>| object.maps_to(out, narrow_name, narrow_fill);
        assert(object.maps_to(out, wide_name, wide_fill));
    }
}

/// What holds of the traversal of a description under two relations holds
/// under every two wider relations.
pub proof fn lemma_spec_widens<N, F, N1, F1, E>(
    spec: Spec<N, F>,
    narrow_name: NameRel<N, N1, E>,
    narrow_fill: FillRel<F, F1, E>,
    wide_name: NameRel<N, N1, E>,
    wide_fill: FillRel<F, F1, E>,
)
    requires
        name_rel_within(narrow_name, wide_name),
        fill_rel_within(narrow_fill, wide_fill),
    ensures
        forall|out: Spec<N1, F1>| #[trigger]
            spec.maps_to(out, narrow_name, narrow_fill) ==> spec.maps_to(out, wide_name, wide_fill),
        forall|e: E| #[trigger]
            spec.fails_with(e, narrow_name, narrow_fill) ==> spec.fails_with(
                e,
                wide_name,
                wide_fill,
            ),
{
    assert forall|i: int| 0 <= i < spec.objects@.len() implies (forall|out: NamedObject<N1, F1>| #[trigger]
        spec.objects@[i].maps_to(out, narrow_name, narrow_fill) ==> spec.objects@[i].maps_to(
            out,
            wide_name,
            wide_fill,
        )) && (forall|e: E| #[trigger]
        spec.objects@[i].fails_with(e, narrow_name, narrow_fill) ==> spec.objects@[i].fails_with(
            e,
            wide_name,
            wide_fill,
        )) && (spec.objects@[i].passes(narrow_name, narrow_fill) ==> spec.objects@[i].passes(
        wide_name,
        wide_fill,
    )) by {
        lemma_named_object_widens(
            spec.objects@[i],
            narrow_name,
            narrow_fill,
            wide_name,
            wide_fill,
        );
    }
    assert forall|out: Spec<N1, F1>| #[trigger]
        spec.maps_to(out, narrow_name, narrow_fill) implies spec.maps_to(
        out,
        wide_name,
        wide_fill,
    ) by {
        assert forall|i: int| 0 <= i < spec.objects@.len() implies (#[trigger] spec.objects@[i]).maps_to(
            out.objects@[i],
            wide_name,
            wide_fill,
        ) by {
            assert(spec.objects@[i].maps_to(out.objects@[i], narrow_name, narrow_fill));
        }
    }
    assert forall|e: E| #[trigger]
        spec.fails_with(e, narrow_name, narrow_fill) implies spec.fails_with(
        e,
        wide_name,
        wide_fill,
    ) by {
        let i = choose|i: int|
            0 <= i < spec.objects@.len() && (#[trigger] spec.objects@[i]).fails_with(
                e,
                narrow_name,
                narrow_fill,
            ) && forall|j: int|
                0 <= j < i ==> (#[trigger] spec.objects@[j]).passes(narrow_name, narrow_fill);
        assert(spec.objects@[i].fails_with(e, wide_name, wide_fill));
        assert forall|j: int| 0 <= j < i implies (#[trigger] spec.objects@[j]).passes(
            wide_name,
            wide_fill,
        ) by {
            assert(spec.objects@[j].passes(narrow_name, narrow_fill));
        }
    }
}

impl<N: Clone, F> Spec<N, F> {
    /// Rebuilds the fill data and keeps the names: the data of every fill
    /// entry is what `f` answers for it and the number of bytes that the entry
    /// fills, and every name is a clone.
    pub fn traverse_fill_with_context<F1, E>(
        &self,
        f: impl Fn(usize, &F) -> Result<F1, E>,
    ) -> (r: Result<Spec<N, F1>, E>)
        requires
            self.accepted(|name: N| true, |len: usize, data: F| f.requires((len, &data))),
        ensures
            match r {
                Ok(out) => self.maps_to(out, clone_name_rel::<N, E>(), fill_rel(f)),
                Err(e) => self.fails_with(e, clone_name_rel::<N, E>(), fill_rel(f)),
            },
    {
        let keep = |name: &N| -> (r: Result<N, E>)
            ensures
                r matches Ok(copy) && cloned(*name, copy),
            { Ok(name.clone()) };
        proof {
            assert forall|i: int| 0 <= i < self.objects@.len() implies (#[trigger] self.objects@[i]).accepted(
                |name: N| keep.requires((&name,)),
                |len: usize, data: F| f.requires((len, &data)),
            ) by {
                assert(self.objects@[i].accepted(
                    |name: N| true,
                    |len: usize, data: F| f.requires((len, &data)),
                ));
            }
            lemma_spec_widens(
                *self,
                name_rel(keep),
                fill_rel(f),
                clone_name_rel::<N, E>(),
                fill_rel(f),
            );
        }
        self.traverse_ref(&keep, &f)
    }

    /// Rebuilds the fill data and keeps the names: the data of every fill
    /// entry is what `f` answers for it, and every name is a clone.
    pub fn traverse_fill<F1, E>(&self, f: impl Fn(&F) -> Result<F1, E>) -> (r: Result<
        Spec<N, F1>,
        E,
    >)
        requires
            self.accepted(|name: N| true, |len: usize, data: F| f.requires((&data,))),
        ensures
            match r {
                Ok(out) => self.maps_to(out, clone_name_rel::<N, E>(), plain_fill_rel(f)),
                Err(e) => self.fails_with(e, clone_name_rel::<N, E>(), plain_fill_rel(f)),
            },
    {
        let plain = &f;
        let with_len = |len: usize, entry: &F| -> (r: Result<F1, E>)
            requires
                plain.requires((entry,)),
            ensures
                plain.ensures((entry,), r),
            { plain(entry) };
        proof {
            assert forall|i: int| 0 <= i < self.objects@.len() implies (#[trigger] self.objects@[i]).accepted(
                |name: N| true,
                |len: usize, data: F| with_len.requires((len, &data)),
            ) by {
                assert(self.objects@[i].accepted(
                    |name: N| true,
                    |len: usize, data: F| f.requires((&data,)),
                ));
            }
            lemma_spec_widens(
                *self,
                clone_name_rel::<N, E>(),
                fill_rel(with_len),
                clone_name_rel::<N, E>(),
                plain_fill_rel(f),
            );
        }
        self.traverse_fill_with_context(with_len)
    }
}

impl<N, F: Clone> Spec<N, F> {
    /// Rebuilds the names and keeps the fill data: every name is what `f`
    /// answers for it, and the data of every fill entry is a clone.
    pub fn traverse_names<N1, E>(&self, f: impl Fn(&N) -> Result<N1, E>) -> (r: Result<
        Spec<N1, F>,
        E,
    >)
        requires
            self.accepted(|name: N| f.requires((&name,)), |len: usize, data: F| true),
        ensures
            match r {
                Ok(out) => self.maps_to(out, name_rel(f), clone_fill_rel::<F, E>()),
                Err(e) => self.fails_with(e, name_rel(f), clone_fill_rel::<F, E>()),
            },
    {
        let keep = |len: usize, entry: &F| -> (r: Result<F, E>)
            ensures
                r matches Ok(copy) && cloned(*entry, copy),
            { Ok(entry.clone()) };
        proof {
            assert forall|i: int| 0 <= i < self.objects@.len() implies (#[trigger] self.objects@[i]).accepted(
                |name: N| f.requires((&name,)),
                |len: usize, data: F| keep.requires((len, &data)),
            ) by {
                assert(self.objects@[i].accepted(
                    |name: N| f.requires((&name,)),
                    |len: usize, data: F| true,
                ));
            }
            lemma_spec_widens(
                *self,
                name_rel(f),
                fill_rel(keep),
                name_rel(f),
                clone_fill_rel::<F, E>(),
            );
        }
        self.traverse_ref(&f, &keep)
    }
}

} // verus!
