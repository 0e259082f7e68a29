use sel4_bookkeeping::capdl::object::{
    ASIDPool, ArmIRQ, CNode, LargePage, SmallPage, TCBExtraInfo, Untyped, IRQ, PD, PGD, PT, PUD,
    TCB,
};
use sel4_bookkeeping::capdl::{
    copy_vec, Cap, FillEntry, FillEntryContent, FillEntryContentBootInfo,
    FillEntryContentBootInfoId, IRQEntry, NamedObject, Object, Rights, Spec,
};
use std::cell::RefCell;

fn data(start: usize, end: usize, content: &str) -> FillEntry<String> {
    FillEntry { range: start..end, content: FillEntryContent::Data(String::from(content)) }
}

fn boot_info(start: usize, end: usize, offset: usize) -> FillEntry<String> {
    FillEntry {
        range: start..end,
        content: FillEntryContent::BootInfo(FillEntryContentBootInfo {
            id: FillEntryContentBootInfoId::Fdt,
            offset,
        }),
    }
}

fn slots() -> Vec<(usize, Cap)> {
    vec![
        (0, Cap::Endpoint {
            object: 1,
            badge: 5,
            rights: Rights { read: true, write: true, grant: false, grant_reply: true },
        }),
        (3, Cap::CNode { object: 2, guard: 0, guard_size: 4 }),
    ]
}

fn tcb() -> TCB {
    TCB {
        slots: slots(),
        fault_ep: 9,
        extra_info: TCBExtraInfo {
            ipc_buffer_addr: 0x1000,
            affinity: 1,
            prio: 10,
            max_prio: 20,
            resume: true,
            ip: 0x40_0000,
            sp: 0x80_0000,
            spsr: 0,
            gprs: vec![1, 2, 3],
            master_fault_ep: 0,
        },
    }
}

fn named(name: &str, object: Object<String>) -> NamedObject<String, String> {
    NamedObject { name: String::from(name), object }
}

fn sample() -> Spec<String, String> {
    Spec {
        objects: vec![
            named("untyped", Object::Untyped(Untyped { size_bits: 12, paddr: Some(0x8000) })),
            named("ep", Object::Endpoint),
            named(
                "small",
                Object::SmallPage(SmallPage {
                    paddr: None,
                    fill: vec![data(0, 16, "a"), boot_info(16, 32, 4), data(32, 4096, "b")],
                }),
            ),
            named("cnode", Object::CNode(CNode { size_bits: 4, slots: slots() })),
            named("tcb", Object::TCB(tcb())),
            named(
                "large",
                Object::LargePage(LargePage { paddr: Some(0x20_0000), fill: vec![data(8, 8, "c")] }),
            ),
            named("ntfn", Object::Notification),
            named("irq", Object::IRQ(IRQ { slots: slots() })),
            named("vcpu", Object::VCPU),
            named("pt", Object::PT(PT { slots: slots() })),
            named("pd", Object::PD(PD { slots: Vec::new() })),
            named("pud", Object::PUD(PUD { slots: slots() })),
            named("pgd", Object::PGD(PGD { slots: slots() })),
            named("asid", Object::ASIDPool(ASIDPool { high: 3 })),
            named("armirq", Object::ArmIRQ(ArmIRQ { slots: slots(), trigger: 1, target: 2 })),
        ],
        irqs: vec![IRQEntry { irq: 33, handler: 7 }, IRQEntry { irq: 34, handler: 14 }],
        asid_slots: vec![13],
    }
}

#[test]
fn traverse_rebuilds_names_and_fill_data() {
    let spec = sample();
    let out: Spec<usize, (usize, String)> = spec
        .traverse(
            |name: &String| Ok::<usize, ()>(name.len()),
            |len: usize, d: &String| Ok::<(usize, String), ()>((len, d.to_uppercase())),
        )
        .unwrap();
    assert_eq!(out.objects.len(), 15);
    assert_eq!(out.irqs, spec.irqs);
    assert_eq!(out.asid_slots, spec.asid_slots);
    let names: Vec<usize> = out.objects.iter().map(|o| o.name).collect();
    assert_eq!(names, vec![7, 2, 5, 5, 3, 5, 4, 3, 4, 2, 2, 3, 3, 4, 6]);
    assert_eq!(
        out.objects[0].object,
        Object::Untyped(Untyped { size_bits: 12, paddr: Some(0x8000) })
    );
    assert_eq!(out.objects[1].object, Object::Endpoint);
    assert_eq!(
        out.objects[2].object,
        Object::SmallPage(SmallPage {
            paddr: None,
            fill: vec![
                FillEntry {
                    range: 0..16,
                    content: FillEntryContent::Data((16, String::from("A")))
                },
                FillEntry {
                    range: 16..32,
                    content: FillEntryContent::BootInfo(FillEntryContentBootInfo {
                        id: FillEntryContentBootInfoId::Fdt,
                        offset: 4
                    })
                },
                FillEntry {
                    range: 32..4096,
                    content: FillEntryContent::Data((4064, String::from("B")))
                },
            ],
        })
    );
    assert_eq!(out.objects[3].object, Object::CNode(CNode { size_bits: 4, slots: slots() }));
    assert_eq!(out.objects[4].object, Object::TCB(tcb()));
    assert_eq!(
        out.objects[5].object,
        Object::LargePage(LargePage {
            paddr: Some(0x20_0000),
            fill: vec![FillEntry {
                range: 8..8,
                content: FillEntryContent::Data((0, String::from("C")))
            }],
        })
    );
    assert_eq!(out.objects[6].object, Object::Notification);
    assert_eq!(out.objects[7].object, Object::IRQ(IRQ { slots: slots() }));
    assert_eq!(out.objects[8].object, Object::VCPU);
    assert_eq!(out.objects[9].object, Object::PT(PT { slots: slots() }));
    assert_eq!(out.objects[10].object, Object::PD(PD { slots: Vec::new() }));
    assert_eq!(out.objects[11].object, Object::PUD(PUD { slots: slots() }));
    assert_eq!(out.objects[12].object, Object::PGD(PGD { slots: slots() }));
    assert_eq!(out.objects[13].object, Object::ASIDPool(ASIDPool { high: 3 }));
    assert_eq!(
        out.objects[14].object,
        Object::ArmIRQ(ArmIRQ { slots: slots(), trigger: 1, target: 2 })
    );
}

#[test]
fn traverse_visits_in_order_name_first() {
    let spec = sample();
    let log: RefCell<Vec<String>> = RefCell::new(Vec::new());
    let r: Result<Spec<(), ()>, ()> = spec.traverse(
        |name: &String| {
            log.borrow_mut().push(format!("name {}", name));
            Ok(())
        },
        |len: usize, d: &String| {
            log.borrow_mut().push(format!("fill {} {}", len, d));
            Ok(())
        },
    );
    assert!(r.is_ok());
    assert_eq!(
        log.into_inner(),
        vec![
            "name untyped",
            "name ep",
            "name small",
            "fill 16 a",
            "fill 4064 b",
            "name cnode",
            "name tcb",
            "name large",
            "fill 0 c",
            "name ntfn",
            "name irq",
            "name vcpu",
            "name pt",
            "name pd",
            "name pud",
            "name pgd",
            "name asid",
            "name armirq",
        ]
    );
}

#[test]
fn traverse_stops_at_the_first_failing_name() {
    let spec = sample();
    let calls: RefCell<Vec<String>> = RefCell::new(Vec::new());
    let r: Result<Spec<(), ()>, String> = spec.traverse(
        |name: &String| {
            calls.borrow_mut().push(name.clone());
            if name.starts_with('c') || name.starts_with('t') {
                Err(format!("bad name {}", name))
            } else {
                Ok(())
            }
        },
        |_len: usize, d: &String| {
            calls.borrow_mut().push(d.clone());
            Ok(())
        },
    );
    assert_eq!(r, Err(String::from("bad name cnode")));
    assert_eq!(calls.into_inner(), vec!["untyped", "ep", "small", "a", "b", "cnode"]);
}

#[test]
fn traverse_stops_at_the_first_failing_fill() {
    let spec = sample();
    let calls: RefCell<Vec<String>> = RefCell::new(Vec::new());
    let r: Result<Spec<(), ()>, usize> = spec.traverse(
        |name: &String| {
            calls.borrow_mut().push(name.clone());
            Ok(())
        },
        |len: usize, d: &String| {
            calls.borrow_mut().push(d.clone());
            if len > 100 || len == 0 {
                Err(len)
            } else {
                Ok(())
            }
        },
    );
    assert_eq!(r, Err(4064));
    assert_eq!(calls.into_inner(), vec!["untyped", "ep", "small", "a", "b"]);
}

#[test]
fn traverse_of_an_empty_spec() {
    let spec: Spec<String, String> =
        Spec { objects: Vec::new(), irqs: Vec::new(), asid_slots: Vec::new() };
    let out: Spec<u8, u8> = spec
        .traverse(|_: &String| Err::<u8, ()>(()), |_: usize, _: &String| Err::<u8, ()>(()))
        .unwrap();
    assert_eq!(out, Spec { objects: Vec::new(), irqs: Vec::new(), asid_slots: Vec::new() });
}

#[test]
fn traverse_fill_with_context_keeps_the_names() {
    let spec = sample();
    let out: Spec<String, usize> = spec
        .traverse_fill_with_context(|len: usize, d: &String| Ok::<usize, ()>(len + d.len()))
        .unwrap();
    assert_eq!(out.objects.len(), spec.objects.len());
    for (a, b) in spec.objects.iter().zip(out.objects.iter()) {
        assert_eq!(a.name, b.name);
    }
    assert_eq!(
        out.objects[2].object,
        Object::SmallPage(SmallPage {
            paddr: None,
            fill: vec![
                FillEntry { range: 0..16, content: FillEntryContent::Data(17) },
                FillEntry {
                    range: 16..32,
                    content: FillEntryContent::BootInfo(FillEntryContentBootInfo {
                        id: FillEntryContentBootInfoId::Fdt,
                        offset: 4
                    })
                },
                FillEntry { range: 32..4096, content: FillEntryContent::Data(4065) },
            ],
        })
    );
    assert_eq!(out.irqs, spec.irqs);
    let failed: Result<Spec<String, ()>, usize> =
        spec.traverse_fill_with_context(|len: usize, _: &String| Err(len));
    assert_eq!(failed, Err(16));
}

#[test]
fn traverse_fill_is_not_told_the_length() {
    let spec = sample();
    let out: Spec<String, char> = spec
        .traverse_fill(|d: &String| d.chars().next().ok_or(()))
        .unwrap();
    assert_eq!(
        out.objects[5].object,
        Object::LargePage(LargePage {
            paddr: Some(0x20_0000),
            fill: vec![FillEntry { range: 8..8, content: FillEntryContent::Data('c') }],
        })
    );
    assert_eq!(out.objects[5].name, "large");
    assert_eq!(out.objects[4].object, Object::TCB(tcb()));
    let failed: Result<Spec<String, ()>, String> =
        spec.traverse_fill(|d: &String| if d == "b" { Err(d.clone()) } else { Ok(()) });
    assert_eq!(failed, Err(String::from("b")));
}

#[test]
fn traverse_names_keeps_the_fill_data() {
    let spec = sample();
    let out: Spec<usize, String> =
        spec.traverse_names(|name: &String| Ok::<usize, ()>(name.len())).unwrap();
    assert_eq!(out.objects[2].name, 5);
    assert_eq!(out.objects[2].object, spec.objects[2].object);
    assert_eq!(out.objects[5].object, spec.objects[5].object);
    assert_eq!(out.objects[14].object, spec.objects[14].object);
    assert_eq!(out.asid_slots, vec![13]);
    let failed: Result<Spec<(), String>, usize> =
        spec.traverse_names(|name: &String| if name == "vcpu" { Err(8) } else { Ok(()) });
    assert_eq!(failed, Err(8));
}

#[test]
fn one_object_is_traversed_alone() {
    let page = named(
        "page",
        Object::SmallPage(SmallPage { paddr: Some(4096), fill: vec![data(4, 10, "xyz")] }),
    );
    let out: NamedObject<bool, usize> = page
        .traverse(
            |name: &String| Ok::<bool, ()>(name == "page"),
            |len: usize, d: &String| Ok::<usize, ()>(len * d.len()),
        )
        .unwrap();
    assert_eq!(
        out,
        NamedObject {
            name: true,
            object: Object::SmallPage(SmallPage {
                paddr: Some(4096),
                fill: vec![FillEntry { range: 4..10, content: FillEntryContent::Data(18) }],
            }),
        }
    );
    let object: Object<String> = Object::CNode(CNode { size_bits: 2, slots: slots() });
    let kept: Object<u8> = object.traverse(|_: usize, _: &String| Err::<u8, ()>(())).unwrap();
    assert_eq!(kept, Object::CNode(CNode { size_bits: 2, slots: slots() }));
    let name_fails: Result<NamedObject<(), ()>, u8> =
        page.traverse(|_: &String| Err(1), |_: usize, _: &String| Err(2));
    assert_eq!(name_fails, Err(1));
    let fill_fails: Result<NamedObject<(), ()>, u8> =
        page.traverse(|_: &String| Ok(()), |_: usize, _: &String| Err(2));
    assert_eq!(fill_fails, Err(2));
}

#[test]
fn pages_are_traversed_alone() {
    let small = SmallPage { paddr: None, fill: vec![data(0, 1, "p"), data(1, 3, "q")] };
    let out: SmallPage<usize> = small.traverse(|len: usize, _: &String| Ok::<usize, ()>(len)).unwrap();
    assert_eq!(
        out,
        SmallPage {
            paddr: None,
            fill: vec![
                FillEntry { range: 0..1, content: FillEntryContent::Data(1) },
                FillEntry { range: 1..3, content: FillEntryContent::Data(2) },
            ],
        }
    );
    let large = LargePage { paddr: Some(1), fill: vec![boot_info(0, 8, 0), data(8, 9, "q")] };
    let failed: Result<LargePage<()>, String> = large.traverse(|_: usize, d: &String| Err(d.clone()));
    assert_eq!(failed, Err(String::from("q")));
    let empty: LargePage<String> = LargePage { paddr: Some(1), fill: Vec::new() };
    let kept: LargePage<()> = empty.traverse(|_: usize, _: &String| Err::<(), ()>(())).unwrap();
    assert_eq!(kept, LargePage { paddr: Some(1), fill: Vec::new() });
}

#[test]
fn clones_hold_the_same_values() {
    assert_eq!(tcb().clone(), tcb());
    let cnode = CNode { size_bits: 7, slots: slots() };
    assert_eq!(cnode.clone(), cnode);
    let irq = ArmIRQ { slots: slots(), trigger: 0, target: 3 };
    assert_eq!(irq.clone(), irq);
    assert_eq!(copy_vec(&slots()), slots());
    assert_eq!(copy_vec(&Vec::<u64>::new()), Vec::<u64>::new());
}
