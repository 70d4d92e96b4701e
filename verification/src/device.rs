//! The device contract. A device is anything that owns pins and child devices; every device can
//! be described as an [`AnyDevice`], the form in which the simulation and the printer walk a
//! hierarchy whatever the types of the devices in it.
//!
//! The devices of this crate implement [`Device`], which says of each which transistors it
//! holds and that its parts are parts of the circuit. A device of another kind describes
//! itself with [`AnyDevice::composite`], from its named pins and the descriptions of its
//! children.

use crate::circuit::pin::Pin;
use crate::circuit::Circuit;
use crate::circuit::CircuitView;
use crate::primitive::transistor::Transistor;
use vstd::prelude::*;

verus! {

/// Holds one item or several, so that a field with a single pin or child is told apart from a
/// list that happens to have one entry.
pub enum DeviceContainer<T> {
    /// A single item.
    Single(T),
    /// Several items, in order.
    Multiple(Vec<T>),
}

/// A device of any type, reduced to what a walk over a hierarchy needs: the name of its type,
/// its named pins, its named children in their order, and the transistor it is, if it is one.
pub struct AnyDevice {
    /// The name of the device's type.
    pub device_type: String,
    /// The pins the device owns, by field name.
    pub pins: Vec<(String, DeviceContainer<Pin>)>,
    /// The child devices the device owns, by field name.
    pub children: Vec<(String, DeviceContainer<AnyDevice>)>,
    /// The transistor that this device is; `None` for every other device.
    pub transistor: Option<Transistor>,
}

/// The transistors of the devices `devices`, each walked depth first, one device after the
/// other.
pub open spec fn devices_transistors(devices: Seq<AnyDevice>) -> Seq<Transistor>
    decreases devices,
{
    if devices.len() == 0 {
        Seq::empty()
    } else {
        devices_transistors(devices.drop_last()) + devices.last().transistors()
    }
}

/// The transistors of what a container of devices holds.
pub open spec fn container_transistors(container: DeviceContainer<AnyDevice>) -> Seq<Transistor>
    decreases container,
{
    match container {
        DeviceContainer::Single(device) => device.transistors(),
        DeviceContainer::Multiple(devices) => devices_transistors(devices@),
    }
}

/// The transistors of the named children `children`, each walked depth first, one child
/// after the other.
pub open spec fn children_transistors(children: Seq<(String, DeviceContainer<AnyDevice>)>) -> Seq<
    Transistor,
>
    decreases children,
{
    if children.len() == 0 {
        Seq::empty()
    } else {
        children_transistors(children.drop_last()) + container_transistors(children.last().1)
    }
}

/// Whether every pin that the container holds is a pin of `circuit`.
pub open spec fn container_pins_in(container: DeviceContainer<Pin>, circuit: CircuitView) -> bool {
    match container {
        DeviceContainer::Single(pin) => circuit.has_pin(pin),
        DeviceContainer::Multiple(pins) => forall|j: int|
            0 <= j < pins.len() ==> circuit.has_pin(#[trigger] pins[j]),
    }
}

/// Whether every pin and every transistor of what the container holds is one of `circuit`.
pub open spec fn container_wf(container: DeviceContainer<AnyDevice>, circuit: CircuitView) -> bool {
    match container {
        DeviceContainer::Single(device) => device.wf(circuit),
        DeviceContainer::Multiple(devices) => forall|j: int|
            0 <= j < devices.len() ==> (#[trigger] devices[j]).wf(circuit),
    }
}

/// Whether every transistor of `transistors` is a transistor of `circuit`.
pub open spec fn all_in(transistors: Seq<Transistor>, circuit: CircuitView) -> bool {
    forall|i: int| 0 <= i < transistors.len() ==> (#[trigger] transistors[i]).is_in(circuit)
}

/// The `count` transistors with the indices from `first` on, in rising order.
pub open spec fn transistor_range(first: nat, count: nat) -> Seq<Transistor> {
    Seq::new(count, |i: int| Transistor { index: (first + i) as usize })
}

impl AnyDevice {
    /// The transistors of the hierarchy below and including this device, in the order of a
    /// depth-first walk: the device itself first, then its children in their order.
    pub open spec fn transistors(&self) -> Seq<Transistor>
        decreases self,
    {
        (match self.transistor {
            Some(transistor) => seq![transistor],
            None => Seq::empty(),
        }) + children_transistors(self.children@)
    }

    /// Whether every pin and every transistor of the hierarchy is one of `circuit`.
    pub open spec fn wf(&self, circuit: CircuitView) -> bool
        decreases self,
    {
        &&& forall|i: int|
            0 <= i < self.pins.len() ==> container_pins_in((#[trigger] self.pins[i]).1, circuit)
        &&& match self.transistor {
            Some(transistor) => transistor.is_in(circuit),
            None => true,
        }
        &&& forall|i: int|
            0 <= i < self.children.len() ==> match (#[trigger] self.children[i]).1 {
                DeviceContainer::Single(device) => device.wf(circuit),
                DeviceContainer::Multiple(devices) => forall|j: int|
                    0 <= j < devices.len() ==> (#[trigger] devices[j]).wf(circuit),
            }
    }

    /// Describes a device that is made of pins and child devices and is no transistor
    /// itself.
    pub fn composite(
        device_type: String,
        pins: Vec<(String, DeviceContainer<Pin>)>,
        children: Vec<(String, DeviceContainer<AnyDevice>)>,
    ) -> (device: AnyDevice)
        ensures
            device.device_type == device_type,
            device.pins == pins,
            device.children == children,
            device.transistor is None,
            device.transistors() == children_transistors(children@),
    {
        let device = AnyDevice { device_type, pins, children, transistor: None };
        assert(device.transistors() =~= children_transistors(children@));
        device
    }

    /// Tells whether every pin and every transistor of the hierarchy is one of `circuit`.
    pub fn is_of(&self, circuit: &Circuit) -> (ok: bool)
        ensures
            ok == self.wf(circuit@),
        decreases self,
    {
        let mut i: usize = 0;
        while i < self.pins.len()
            invariant
                i <= self.pins.len(),
                forall|k: int|
                    0 <= k < i ==> container_pins_in((#[trigger] self.pins[k]).1, circuit@),
            decreases self.pins.len() - i,
        {
            let listed = match &self.pins[i].1 {
                DeviceContainer::Single(pin) => pin.id < circuit.num_pins(),
                DeviceContainer::Multiple(pins) => pins_are_of(pins, circuit),
            };
            if !listed {
                assert(!container_pins_in(self.pins[i as int].1, circuit@));
                return false;
            }
            i += 1;
        }
        if let Some(transistor) = self.transistor {
            if transistor.index >= circuit.num_transistors() {
                return false;
            }
        }
        let mut i: usize = 0;
        while i < self.children.len()
            invariant
                i <= self.children.len(),
                forall|k: int| 0 <= k < i
                    ==> container_wf((#[trigger] self.children[k]).1, circuit@),
            decreases self.children.len() - i,
        {
            let listed = match &self.children[i].1 {
                DeviceContainer::Single(device) => device.is_of(circuit),
                DeviceContainer::Multiple(devices) => devices_are_of(devices, circuit),
            };
            if !listed {
                assert(!container_wf(self.children[i as int].1, circuit@));
                return false;
            }
            i += 1;
        }
        proof {
            assert forall|k: int| 0 <= k < self.children.len() implies match (
            #[trigger] self.children[k]).1 {
                DeviceContainer::Single(device) => device.wf(circuit@),
                DeviceContainer::Multiple(devices) => forall|j: int|
                    0 <= j < devices.len() ==> (#[trigger] devices[j]).wf(circuit@),
            } by {
                assert(container_wf(self.children[k].1, circuit@));
            }
        }
        true
    }

    /// A composite is of a circuit if its pins and its children are.
    pub proof fn lemma_composite_wf(&self, circuit: CircuitView)
        requires
            self.transistor is None,
            forall|i: int|
                0 <= i < self.pins.len()
                    ==> container_pins_in((#[trigger] self.pins[i]).1, circuit),
            forall|i: int|
                0 <= i < self.children.len() ==> container_wf(
                    (#[trigger] self.children[i]).1,
                    circuit,
                ),
        ensures
            self.wf(circuit),
    {
        assert forall|i: int| 0 <= i < self.children.len() implies match (
        #[trigger] self.children[i]).1 {
            DeviceContainer::Single(device) => device.wf(circuit),
            DeviceContainer::Multiple(devices) => forall|j: int|
                0 <= j < devices.len() ==> (#[trigger] devices[j]).wf(circuit),
        } by {
            assert(container_wf(self.children[i].1, circuit));
        }
    }
}

/// The transistors of the devices `devices`, one device after the other.
pub open spec fn each_transistors<D: Device>(devices: Seq<D>) -> Seq<Transistor>
    decreases devices.len(),
{
    if devices.len() == 0 {
        Seq::empty()
    } else {
        each_transistors(devices.drop_last()) + devices.last().transistors()
    }
}

/// Any composite that owns pins and child devices. The accessors give the device's parts
/// under the names of its fields, in a fixed order.
pub trait Device {
    /// The transistors of the hierarchy below and including this device, in the order of a
    /// depth-first walk.
    spec fn transistors(&self) -> Seq<Transistor>;

    /// Whether the pins and transistors of the device and of the devices below it are
    /// those of `circuit`.
    spec fn wf(&self, circuit: CircuitView) -> bool;

    /// A device of a circuit is a device of every circuit grown from it.
    proof fn lemma_wf_grows(&self, before: CircuitView, after: CircuitView)
        requires
            self.wf(before),
            before.pins.len() <= after.pins.len(),
            before.transistors.len() <= after.transistors.len(),
        ensures
            self.wf(after),
    ;

    /// The name of the device's type, as it is written.
    spec fn type_text(&self) -> Seq<char>;

    /// The name of the device's type.
    fn device_type(&self) -> (name: String)
        ensures
            name@ == self.type_text(),
    ;

    /// The pins the device owns, by field name.
    fn pins(&self, circuit: &Circuit) -> (pins: Vec<(String, DeviceContainer<Pin>)>)
        requires
            circuit@.wf(),
            self.wf(circuit@),
        ensures
            forall|i: int| 0 <= i < pins.len()
                ==> container_pins_in((#[trigger] pins[i]).1, circuit@),
    ;

    /// The child devices the device owns, by field name.
    fn children(&self, circuit: &Circuit) -> (children: Vec<(String, DeviceContainer<AnyDevice>)>)
        requires
            circuit@.wf(),
            self.wf(circuit@),
        ensures
            forall|i: int|
                0 <= i < children.len() ==> container_wf((#[trigger] children[i]).1, circuit@),
    ;

    /// The device in the form in which a hierarchy is walked.
    fn as_any(&self, circuit: &Circuit) -> (device: AnyDevice)
        requires
            circuit@.wf(),
            self.wf(circuit@),
        ensures
            device.device_type@ == self.type_text(),
            device.transistors() == self.transistors(),
            device.wf(circuit@),
    ;
}

/// Tells whether every pin of a list is a pin of `circuit`.
fn pins_are_of(pins: &Vec<Pin>, circuit: &Circuit) -> (ok: bool)
    ensures
        ok == forall|j: int| 0 <= j < pins.len() ==> circuit@.has_pin(#[trigger] pins[j]),
{
    let mut j: usize = 0;
    while j < pins.len()
        invariant
            j <= pins.len(),
            forall|k: int| 0 <= k < j ==> circuit@.has_pin(#[trigger] pins[k]),
        decreases pins.len() - j,
    {
        if pins[j].id >= circuit.num_pins() {
            assert(!circuit@.has_pin(pins[j as int]));
            return false;
        }
        j += 1;
    }
    true
}

/// Tells whether every pin and every transistor of the devices of a list is one of `circuit`.
fn devices_are_of(devices: &Vec<AnyDevice>, circuit: &Circuit) -> (ok: bool)
    ensures
        ok == forall|j: int| 0 <= j < devices.len() ==> (#[trigger] devices[j]).wf(circuit@),
    decreases devices,
{
    let mut j: usize = 0;
    while j < devices.len()
        invariant
            j <= devices.len(),
            forall|k: int| 0 <= k < j ==> (#[trigger] devices[k]).wf(circuit@),
        decreases devices.len() - j,
    {
        if !devices[j].is_of(circuit) {
            assert(!devices[j as int].wf(circuit@));
            return false;
        }
        j += 1;
    }
    true
}

/// Puts one more named child behind those listed.
pub fn add_child(
    children: &mut Vec<(String, DeviceContainer<AnyDevice>)>,
    entry: (String, DeviceContainer<AnyDevice>),
)
    ensures
        final(children)@ == old(children)@.push(entry),
        children_transistors(final(children)@) == children_transistors(old(children)@)
            + container_transistors(entry.1),
{
    children.push(entry);
    assert(children@.drop_last() =~= old(children)@);
}

/// A range of transistors followed by the range that starts where it ends is one range.
pub proof fn lemma_transistor_range_concat(first: nat, count: nat, more: nat)
    ensures
        transistor_range(first, count) + transistor_range(first + count, more)
            =~= transistor_range(first, count + more),
{
}

/// A single transistor is the range of one transistor from its index; no transistor is the
/// range of none.
pub proof fn lemma_transistor_range_single(transistor: Transistor)
    ensures
        seq![transistor] =~= transistor_range(transistor.index as nat, 1),
        Seq::<Transistor>::empty() =~= transistor_range(transistor.index as nat, 0),
{
}

/// Whether `entry` lists, under the name `name`, the single device `child` as
/// [`Device::as_any`] describes it in `circuit`.
pub open spec fn names_child<D: Device>(
    entry: (String, DeviceContainer<AnyDevice>),
    name: Seq<char>,
    child: &D,
    circuit: &Circuit,
) -> bool {
    &&& entry.0@ == name
    &&& entry.1 matches DeviceContainer::Single(device) && call_ensures(
        D::as_any,
        (child, circuit),
        device,
    )
}

/// Whether `entry` lists, under the name `name`, the devices `children`, each as
/// [`Device::as_any`] describes it in `circuit`, in their order.
pub open spec fn names_children<D: Device>(
    entry: (String, DeviceContainer<AnyDevice>),
    name: Seq<char>,
    children: Seq<D>,
    circuit: &Circuit,
) -> bool {
    &&& entry.0@ == name
    &&& entry.1 matches DeviceContainer::Multiple(listed) && listed.len() == children.len()
        && forall|i: int|
        0 <= i < listed.len() ==> call_ensures(
            D::as_any,
            (&children[i], circuit),
            #[trigger] listed[i],
        )
}

/// Names a single pin of a device.
pub fn single_pin(name: &str, pin: Pin) -> (entry: (String, DeviceContainer<Pin>))
    ensures
        entry.0@ == name@,
        entry.1 == DeviceContainer::Single(pin),
{
    (name.to_string(), DeviceContainer::Single(pin))
}

/// Copies a list of pins.
pub fn copy_pins(pins: &Vec<Pin>) -> (copy: Vec<Pin>)
    ensures
        copy@ == pins@,
{
    let mut copy: Vec<Pin> = Vec::new();
    let mut i: usize = 0;
    while i < pins.len()
        invariant
            i <= pins.len(),
            copy@ == pins@.subrange(0, i as int),
        decreases pins.len() - i,
    {
        copy.push(pins[i]);
        i += 1;
        assert(copy@ =~= pins@.subrange(0, i as int));
    }
    assert(copy@ =~= pins@);
    copy
}

/// Names a list of pins of a device.
pub fn multiple_pins(name: &str, pins: &Vec<Pin>) -> (entry: (String, DeviceContainer<Pin>))
    ensures
        entry.0@ == name@,
        entry.1 matches DeviceContainer::Multiple(listed) && listed@ == pins@,
{
    (name.to_string(), DeviceContainer::Multiple(copy_pins(pins)))
}

/// Names a single child of a device.
pub fn single_child<D: Device>(name: &str, child: &D, circuit: &Circuit) -> (entry: (
    String,
    DeviceContainer<AnyDevice>,
))
    requires
        circuit@.wf(),
        child.wf(circuit@),
    ensures
        names_child(entry, name@, child, circuit),
        container_transistors(entry.1) == child.transistors(),
        container_wf(entry.1, circuit@),
{
    (name.to_string(), DeviceContainer::Single(child.as_any(circuit)))
}

/// Names a list of children of a device.
pub fn multiple_children<D: Device>(name: &str, children: &Vec<D>, circuit: &Circuit) -> (entry: (
    String,
    DeviceContainer<AnyDevice>,
))
    requires
        circuit@.wf(),
        forall|i: int| 0 <= i < children.len() ==> (#[trigger] children[i]).wf(circuit@),
    ensures
        names_children(entry, name@, children@, circuit),
        container_transistors(entry.1) == each_transistors(children@),
        container_wf(entry.1, circuit@),
{
    let mut listed: Vec<AnyDevice> = Vec::new();
    let mut i: usize = 0;
    proof {
        assert(children@.subrange(0, 0) =~= Seq::empty());
    }
    while i < children.len()
        invariant
            i <= children.len(),
            circuit@.wf(),
            forall|k: int| 0 <= k < children.len() ==> (#[trigger] children[k]).wf(circuit@),
            listed.len() == i,
            devices_transistors(listed@) == each_transistors(children@.subrange(0, i as int)),
            forall|k: int| 0 <= k < listed.len() ==> (#[trigger] listed[k]).wf(circuit@),
            forall|k: int|
                0 <= k < listed.len() ==> call_ensures(
                    D::as_any,
                    (&children@[k], circuit),
                    #[trigger] listed[k],
                ),
        decreases children.len() - i,
    {
        let ghost before = listed@;
        listed.push(children[i].as_any(circuit));
        proof {
            assert(listed@.drop_last() =~= before);
            assert(children@.subrange(0, i + 1).drop_last() =~= children@.subrange(0, i as int));
            assert(children@.subrange(0, i + 1).last() == children@[i as int]);
        }
        i += 1;
    }
    assert(children@.subrange(0, i as int) =~= children@);
    (name.to_string(), DeviceContainer::Multiple(listed))
}

/// The transistors of the first children of a list are the first transistors of the list.
pub proof fn lemma_children_transistors_prefix(
    children: Seq<(String, DeviceContainer<AnyDevice>)>,
    count: int,
)
    requires
        0 <= count <= children.len(),
    ensures
        children_transistors(children.subrange(0, count)).is_prefix_of(
            children_transistors(children),
        ),
        count < children.len() ==> children_transistors(children.subrange(0, count + 1))
            == children_transistors(children.subrange(0, count)) + container_transistors(
            children[count].1,
        ),
    decreases children.len(),
{
    if count < children.len() {
        assert(children.subrange(0, count + 1).drop_last() =~= children.subrange(0, count));
        assert(children.subrange(0, count + 1).last() == children[count]);
        lemma_children_transistors_prefix(children.drop_last(), count);
        assert(children.drop_last().subrange(0, count) =~= children.subrange(0, count));
    } else {
        assert(children.subrange(0, count) =~= children);
    }
}

/// The transistors of the first devices of a list are the first transistors of the list.
pub proof fn lemma_devices_transistors_prefix(devices: Seq<AnyDevice>, count: int)
    requires
        0 <= count <= devices.len(),
    ensures
        devices_transistors(devices.subrange(0, count)).is_prefix_of(devices_transistors(devices)),
        count < devices.len() ==> devices_transistors(devices.subrange(0, count + 1))
            == devices_transistors(devices.subrange(0, count)) + devices[count].transistors(),
    decreases devices.len(),
{
    if count < devices.len() {
        assert(devices.subrange(0, count + 1).drop_last() =~= devices.subrange(0, count));
        assert(devices.subrange(0, count + 1).last() == devices[count]);
        lemma_devices_transistors_prefix(devices.drop_last(), count);
        assert(devices.drop_last().subrange(0, count) =~= devices.subrange(0, count));
    } else {
        assert(devices.subrange(0, count) =~= devices);
    }
}

} // verus!
