//! The simulation driver: one tick of a device hierarchy in two strict phases, and ticking
//! until the network settles.

pub mod laws;
pub mod model;
pub mod render;
pub mod settling;

use crate::circuit::Circuit;
use crate::device::children_transistors;
use crate::device::container_transistors;
use crate::device::devices_transistors;
use crate::device::lemma_children_transistors_prefix;
use crate::device::lemma_devices_transistors_prefix;
use crate::device::all_in;
use crate::device::AnyDevice;
use crate::device::DeviceContainer;
use crate::primitive::transistor::Transistor;
use crate::simulation::laws::lemma_after_pins_concat;
use crate::simulation::laws::lemma_after_tick;
use crate::simulation::laws::lemma_after_transistors;
use crate::simulation::laws::lemma_after_transistors_concat;
use crate::simulation::laws::lemma_all_in_prefix;
use crate::simulation::laws::lemma_ready_prefix;
use crate::simulation::settling::lemma_settled_stays_settled;
use vstd::prelude::*;

verus! {

/// Moves the network forward in time until a tick changes nothing, and returns the number of
/// ticks that changed something. The network is then at rest: a further tick would change
/// nothing. A network that does not come to rest is given up after `usize::MAX` ticks, all of
/// which changed something: the result is then `usize::MAX`, which no network at rest gives.
pub fn settle(circuit: &mut Circuit, device: &AnyDevice) -> (ticks: usize)
    requires
        old(circuit)@.wf(),
        old(circuit)@.ready(device.transistors()),
    ensures
        old(circuit)@.unsettled_for(device.transistors(), ticks as nat),
        ticks < usize::MAX ==> !old(circuit)@.after_ticks(
            device.transistors(),
            ticks as nat,
        ).tick_changed(device.transistors()),
        final(circuit)@ == old(circuit)@.after_ticks(
            device.transistors(),
            if ticks < usize::MAX {
                (ticks + 1) as nat
            } else {
                ticks as nat
            },
        ),
        ticks < usize::MAX ==> !final(circuit)@.tick_changed(device.transistors()),
        ticks < usize::MAX ==> final(circuit)@.after_tick(device.transistors())
            == final(circuit)@,
        final(circuit)@.wf(),
        final(circuit)@.ready(device.transistors()),
        final(circuit)@.pins.len() == old(circuit)@.pins.len(),
        final(circuit)@.transistors.len() == old(circuit)@.transistors.len(),
        old(circuit)@.quiet() ==> final(circuit)@.quiet(),
{
    let ghost start = circuit@;
    let ghost transistors = device.transistors();
    let mut ticks: usize = 0;
    let mut settled = false;
    while !settled && ticks < usize::MAX
        invariant
            transistors == device.transistors(),
            start.unsettled_for(transistors, ticks as nat),
            settled ==> ticks < usize::MAX && !start.after_ticks(
                transistors,
                ticks as nat,
            ).tick_changed(transistors),
            settled ==> !circuit@.tick_changed(transistors) && circuit@.after_tick(transistors)
                == circuit@,
            circuit@ == start.after_ticks(
                transistors,
                if settled {
                    (ticks + 1) as nat
                } else {
                    ticks as nat
                },
            ),
            circuit@.wf(),
            circuit@.ready(transistors),
            circuit@.pins.len() == start.pins.len(),
            circuit@.transistors.len() == start.transistors.len(),
            start.quiet() ==> circuit@.quiet(),
        decreases (usize::MAX - ticks) + (if settled {
            0int
        } else {
            1int
        }),
    {
        let ghost before = circuit@;
        if tick(circuit, device) {
            ticks += 1;
        } else {
            settled = true;
            proof {
                lemma_settled_stays_settled(before, transistors);
            }
        }
    }
    ticks
}

/// Moves the network forward one time step, in two phases. First every transistor of the
/// hierarchy decides, from the readings it finds, what its drain drives next; none of this
/// shows yet. Then the pins of every transistor are ticked, and all that was decided shows
/// at once. Returns whether anything changed.
pub fn tick(circuit: &mut Circuit, device: &AnyDevice) -> (changed: bool)
    requires
        old(circuit)@.wf(),
        old(circuit)@.ready(device.transistors()),
    ensures
        final(circuit)@ == old(circuit)@.after_tick(device.transistors()),
        changed == old(circuit)@.tick_changed(device.transistors()),
        final(circuit)@.wf(),
        final(circuit)@.ready(device.transistors()),
        final(circuit)@.pins.len() == old(circuit)@.pins.len(),
        final(circuit)@.transistors.len() == old(circuit)@.transistors.len(),
        old(circuit)@.quiet() ==> final(circuit)@.quiet(),
{
    let mut changed = false;
    let step = tick_transistors(circuit, device);
    changed = changed || step;
    proof {
        lemma_after_transistors(old(circuit)@, device.transistors());
    }
    let step = tick_pins(circuit, device);
    changed = changed || step;
    proof {
        lemma_after_tick(old(circuit)@, device.transistors());
    }
    changed
}

/// Walks the hierarchy depth first and ticks the three pins of every transistor: drain, gate,
/// source. Returns whether a pin changed its drive.
pub fn tick_pins(circuit: &mut Circuit, device: &AnyDevice) -> (changed: bool)
    requires
        old(circuit)@.wf(),
        all_in(device.transistors(), old(circuit)@),
    ensures
        final(circuit)@ == old(circuit)@.after_pins(device.transistors()),
        changed == old(circuit)@.pins_changed(device.transistors()),
        final(circuit)@.wf(),
    decreases device,
{
    let ghost start = circuit@;
    let ghost all = device.transistors();
    let ghost own: Seq<Transistor> = match device.transistor {
        Some(transistor) => seq![transistor],
        None => Seq::empty(),
    };
    let mut changed = false;

    if let Some(transistor) = device.transistor {
        proof {
            assert(all[0] == transistor);
            assert(own.drop_last() =~= Seq::<Transistor>::empty());
            assert(start.after_pins(own.drop_last()) == start);
            assert(!start.pins_changed(own.drop_last()));
        }
        proof {
            assert(start.transistor_wf(transistor.index as int));
        }
        let drain = transistor.get_drain(circuit);
        let step = drain.tick(circuit);
        changed = changed || step;
        proof {
            assert(circuit@.transistor_wf(transistor.index as int));
        }
        let gate = transistor.get_gate(circuit);
        let step = gate.tick(circuit);
        changed = changed || step;
        proof {
            assert(circuit@.transistor_wf(transistor.index as int));
        }
        let source = transistor.get_source(circuit);
        let step = source.tick(circuit);
        changed = changed || step;
    }
    proof {
        assert(device.children@.subrange(0, 0) =~= Seq::empty());
        assert(own + Seq::<Transistor>::empty() =~= own);
    }

    let mut i: usize = 0;
    while i < device.children.len()
        invariant
            i <= device.children.len(),
            start.wf(),
            all_in(all, start),
            all == device.transistors(),
            all == own + children_transistors(device.children@),
            circuit@ == start.after_pins(
                own + children_transistors(device.children@.subrange(0, i as int)),
            ),
            changed == start.pins_changed(
                own + children_transistors(device.children@.subrange(0, i as int)),
            ),
            circuit@.wf(),
        decreases device.children.len() - i,
    {
        let ghost done = own + children_transistors(device.children@.subrange(0, i as int));
        let ghost next = container_transistors(device.children@[i as int].1);
        proof {
            lemma_children_transistors_prefix(device.children@, i as int);
            lemma_children_transistors_prefix(device.children@, i + 1);
            assert(done + next =~= own + children_transistors(
                device.children@.subrange(0, i + 1),
            ));
            lemma_all_in_prefix(start, done, next, all);
            lemma_after_pins_concat(start, done, next);
        }
        match &device.children[i].1 {
            DeviceContainer::Single(child) => {
                let step = tick_pins(circuit, child);
                changed = changed || step;
            },
            DeviceContainer::Multiple(children) => {
                let step = tick_pins_of_each(circuit, children);
                changed = changed || step;
            },
        }
        i += 1;
    }
    proof {
        assert(device.children@.subrange(0, i as int) =~= device.children@);
    }
    changed
}

/// Ticks the pins of the transistors of each device of a list, one device after the other.
fn tick_pins_of_each(circuit: &mut Circuit, devices: &Vec<AnyDevice>) -> (changed: bool)
    requires
        old(circuit)@.wf(),
        all_in(devices_transistors(devices@), old(circuit)@),
    ensures
        final(circuit)@ == old(circuit)@.after_pins(devices_transistors(devices@)),
        changed == old(circuit)@.pins_changed(devices_transistors(devices@)),
        final(circuit)@.wf(),
    decreases devices,
{
    let ghost start = circuit@;
    let ghost all = devices_transistors(devices@);
    let mut changed = false;
    proof {
        assert(devices@.subrange(0, 0) =~= Seq::empty());
    }
    let mut j: usize = 0;
    while j < devices.len()
        invariant
            j <= devices.len(),
            start.wf(),
            all_in(all, start),
            all == devices_transistors(devices@),
            circuit@ == start.after_pins(devices_transistors(devices@.subrange(0, j as int))),
            changed == start.pins_changed(devices_transistors(devices@.subrange(0, j as int))),
            circuit@.wf(),
        decreases devices.len() - j,
    {
        let ghost done = devices_transistors(devices@.subrange(0, j as int));
        let ghost next = devices@[j as int].transistors();
        proof {
            lemma_devices_transistors_prefix(devices@, j as int);
            lemma_devices_transistors_prefix(devices@, j + 1);
            lemma_all_in_prefix(start, done, next, all);
            lemma_after_pins_concat(start, done, next);
        }
        let step = tick_pins(circuit, &devices[j]);
        changed = changed || step;
        j += 1;
    }
    proof {
        assert(devices@.subrange(0, j as int) =~= devices@);
    }
    changed
}

/// Walks the hierarchy depth first and lets every transistor decide what its drain drives
/// next. Returns whether a transistor reported a change.
pub fn tick_transistors(circuit: &mut Circuit, device: &AnyDevice) -> (changed: bool)
    requires
        old(circuit)@.wf(),
        old(circuit)@.ready(device.transistors()),
    ensures
        final(circuit)@ == old(circuit)@.after_transistors(device.transistors()),
        changed == old(circuit)@.transistors_changed(device.transistors()),
        final(circuit)@.wf(),
    decreases device,
{
    let ghost start = circuit@;
    let ghost all = device.transistors();
    let ghost own: Seq<Transistor> = match device.transistor {
        Some(transistor) => seq![transistor],
        None => Seq::empty(),
    };
    let mut changed = false;

    if let Some(transistor) = device.transistor {
        proof {
            assert(all[0] == transistor);
            assert(own.drop_last() =~= Seq::<Transistor>::empty());
            assert(start.after_transistors(own.drop_last()) == start);
            assert(!start.transistors_changed(own.drop_last()));
        }
        let step = transistor.tick(circuit);
        changed = changed || step;
    }
    proof {
        assert(device.children@.subrange(0, 0) =~= Seq::empty());
        assert(own + Seq::<Transistor>::empty() =~= own);
    }

    let mut i: usize = 0;
    while i < device.children.len()
        invariant
            i <= device.children.len(),
            start.wf(),
            start.ready(all),
            all == device.transistors(),
            all == own + children_transistors(device.children@),
            circuit@ == start.after_transistors(
                own + children_transistors(device.children@.subrange(0, i as int)),
            ),
            changed == start.transistors_changed(
                own + children_transistors(device.children@.subrange(0, i as int)),
            ),
            circuit@.wf(),
        decreases device.children.len() - i,
    {
        let ghost done = own + children_transistors(device.children@.subrange(0, i as int));
        let ghost next = container_transistors(device.children@[i as int].1);
        proof {
            lemma_children_transistors_prefix(device.children@, i as int);
            lemma_children_transistors_prefix(device.children@, i + 1);
            assert(done + next =~= own + children_transistors(
                device.children@.subrange(0, i + 1),
            ));
            lemma_ready_prefix(start, done, next, all);
            lemma_after_transistors_concat(start, done, next);
        }
        match &device.children[i].1 {
            DeviceContainer::Single(child) => {
                let step = tick_transistors(circuit, child);
                changed = changed || step;
            },
            DeviceContainer::Multiple(children) => {
                let step = tick_transistors_of_each(circuit, children);
                changed = changed || step;
            },
        }
        i += 1;
    }
    proof {
        assert(device.children@.subrange(0, i as int) =~= device.children@);
    }
    changed
}

/// Lets the transistors of each device of a list decide, one device after the other.
fn tick_transistors_of_each(circuit: &mut Circuit, devices: &Vec<AnyDevice>) -> (changed: bool)
    requires
        old(circuit)@.wf(),
        old(circuit)@.ready(devices_transistors(devices@)),
    ensures
        final(circuit)@ == old(circuit)@.after_transistors(devices_transistors(devices@)),
        changed == old(circuit)@.transistors_changed(devices_transistors(devices@)),
        final(circuit)@.wf(),
    decreases devices,
{
    let ghost start = circuit@;
    let ghost all = devices_transistors(devices@);
    let mut changed = false;
    proof {
        assert(devices@.subrange(0, 0) =~= Seq::empty());
    }
    let mut j: usize = 0;
    while j < devices.len()
        invariant
            j <= devices.len(),
            start.wf(),
            start.ready(all),
            all == devices_transistors(devices@),
            circuit@ == start.after_transistors(devices_transistors(devices@.subrange(0,
                j as int))),
            changed == start.transistors_changed(devices_transistors(devices@.subrange(0,
                j as int))),
            circuit@.wf(),
        decreases devices.len() - j,
    {
        let ghost done = devices_transistors(devices@.subrange(0, j as int));
        let ghost next = devices@[j as int].transistors();
        proof {
            lemma_devices_transistors_prefix(devices@, j as int);
            lemma_devices_transistors_prefix(devices@, j + 1);
            lemma_ready_prefix(start, done, next, all);
            lemma_after_transistors_concat(start, done, next);
        }
        let step = tick_transistors(circuit, &devices[j]);
        changed = changed || step;
        j += 1;
    }
    proof {
        assert(devices@.subrange(0, j as int) =~= devices@);
    }
    changed
}

} // verus!
