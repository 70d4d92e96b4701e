//! The dump of a device hierarchy as text, in the shape of YAML.

use crate::circuit::laws::lemma_connected_contains_self;
use crate::device::container_pins_in;
use crate::circuit::pin::Pin;
use crate::circuit::Circuit;
use crate::circuit::CircuitView;
use crate::device::AnyDevice;
use crate::device::DeviceContainer;
use vstd::prelude::*;
use vstd::string::StringExecFns;

verus! {

/// `count` spaces.
pub open spec fn spaces(count: nat) -> Seq<char> {
    Seq::new(count, |i: int| ' ')
}

/// The decimal digit `digit`, written out.
pub open spec fn digit_text(digit: nat) -> Seq<char> {
    if digit == 0 {
        "0"@
    } else if digit == 1 {
        "1"@
    } else if digit == 2 {
        "2"@
    } else if digit == 3 {
        "3"@
    } else if digit == 4 {
        "4"@
    } else if digit == 5 {
        "5"@
    } else if digit == 6 {
        "6"@
    } else if digit == 7 {
        "7"@
    } else if digit == 8 {
        "8"@
    } else {
        "9"@
    }
}

/// The number `number`, written in decimal without leading zeros.
pub open spec fn decimal_text(number: nat) -> Seq<char>
    decreases number,
{
    if number < 10 {
        digit_text(number)
    } else {
        decimal_text(number / 10) + digit_text(number % 10)
    }
}

/// The list of the pins connected to a pin: one line for each, indented by `indent`, with
/// the pin's id.
pub open spec fn connected_text(pins: Seq<Pin>, indent: Seq<char>) -> Seq<char>
    decreases pins.len(),
{
    if pins.len() == 0 {
        Seq::empty()
    } else {
        connected_text(pins.drop_last(), indent) + (indent + "  - "@ + decimal_text(
            pins.last().id as nat,
        ) + "\n"@)
    }
}

/// What is written for one pin: what it drives, what it reads, its id, and the ids of the
/// pins connected to it, each line indented by `indent`.
pub open spec fn pin_text(circuit: CircuitView, pin: Pin, indent: Seq<char>) -> Seq<char> {
    (indent + "drive: "@ + circuit.drive(pin).text() + "\n"@) + (indent + "read: "@
        + circuit.read(pin).text() + "\n"@) + (indent + "id: "@ + decimal_text(pin.id as nat)
        + "\n"@) + (indent + "connected:"@ + "\n"@) + connected_text(
        circuit.connected(pin),
        indent,
    )
}

/// What is written for a list of pins: each pin, one after the other.
pub open spec fn pins_text(circuit: CircuitView, pins: Seq<Pin>, indent: Seq<char>) -> Seq<char>
    decreases pins.len(),
{
    if pins.len() == 0 {
        Seq::empty()
    } else {
        pins_text(circuit, pins.drop_last(), indent) + pin_text(circuit, pins.last(), indent)
    }
}

/// What is written for the named pins of a device: for each name a line with the name, then
/// its pin or pins. The lines of the device itself are indented by `body`.
pub open spec fn pin_entries_text(
    circuit: CircuitView,
    entries: Seq<(String, DeviceContainer<Pin>)>,
    body: Seq<char>,
) -> Seq<char>
    decreases entries.len(),
{
    if entries.len() == 0 {
        Seq::empty()
    } else {
        pin_entries_text(circuit, entries.drop_last(), body) + (body + "  "@ + entries.last().0@
            + ":"@ + "\n"@) + (match entries.last().1 {
            DeviceContainer::Single(pin) => pin_text(circuit, pin, body + "    "@),
            DeviceContainer::Multiple(pins) => pins_text(circuit, pins@, body + "    "@),
        })
    }
}

/// What is written for a list of devices that stand under one name: each as a member of
/// a sequence.
pub open spec fn devices_text(circuit: CircuitView, devices: Seq<AnyDevice>, body: Seq<char>)
    -> Seq<
    char,
>
    decreases devices,
{
    if devices.len() == 0 {
        Seq::empty()
    } else {
        devices_text(circuit, devices.drop_last(), body) + device_text(
            circuit,
            devices.last(),
            body + "    - "@,
            body + "      "@,
        )
    }
}

/// What is written for the named children of a device: for each name a line with the name,
/// then the child or children, indented further.
pub open spec fn children_text(
    circuit: CircuitView,
    children: Seq<(String, DeviceContainer<AnyDevice>)>,
    body: Seq<char>,
) -> Seq<char>
    decreases children,
{
    if children.len() == 0 {
        Seq::empty()
    } else {
        children_text(circuit, children.drop_last(), body) + (body + "  "@ + children.last().0@
            + ":"@ + "\n"@) + (match children.last().1 {
            DeviceContainer::Single(device) => device_text(
                circuit,
                device,
                body + "    "@,
                body + "    "@,
            ),
            DeviceContainer::Multiple(devices) => devices_text(circuit, devices@, body),
        })
    }
}

/// What is written for a device and all below it. The first line, with the type, starts with
/// `header`; every other line of the device itself is indented by `body`.
pub open spec fn device_text(
    circuit: CircuitView,
    device: AnyDevice,
    header: Seq<char>,
    body: Seq<char>,
) -> Seq<char>
    decreases device,
{
    (header + "type: "@ + device.device_type@ + "\n"@) + (if device.pins.len() > 0 {
        body + "pins:"@ + "\n"@
    } else {
        Seq::empty()
    }) + pin_entries_text(circuit, device.pins@, body) + (if device.children.len() > 0 {
        body + "children:"@ + "\n"@
    } else {
        Seq::empty()
    }) + children_text(circuit, device.children@, body)
}

/// The dump of a device as [`render`] writes it: the device at the indentation `level`, or,
/// as a member of a sequence, with a dash two columns before it.
pub open spec fn rendered(
    circuit: CircuitView,
    device: AnyDevice,
    level: nat,
    is_array_member: bool,
) -> Seq<char> {
    device_text(
        circuit,
        device,
        if is_array_member {
            spaces((level - 2) as nat) + "- "@
        } else {
            spaces(level)
        },
        spaces(level),
    )
}

/// Writes `count` spaces.
fn indentation(count: usize) -> (text: String)
    ensures
        text@ == spaces(count as nat),
{
    let mut text = String::new();
    let mut i: usize = 0;
    proof {
        reveal_strlit(" ");
    }
    while i < count
        invariant
            i <= count,
            text@ == spaces(i as nat),
            " "@ == seq![' '],
        decreases count - i,
    {
        text.append(" ");
        i += 1;
        assert(text@ =~= spaces(i as nat));
    }
    text
}

/// Writes a decimal digit behind `text`.
fn push_digit(text: &mut String, digit: usize)
    requires
        digit < 10,
    ensures
        final(text)@ == old(text)@ + digit_text(digit as nat),
{
    if digit == 0 {
        text.append("0");
    } else if digit == 1 {
        text.append("1");
    } else if digit == 2 {
        text.append("2");
    } else if digit == 3 {
        text.append("3");
    } else if digit == 4 {
        text.append("4");
    } else if digit == 5 {
        text.append("5");
    } else if digit == 6 {
        text.append("6");
    } else if digit == 7 {
        text.append("7");
    } else if digit == 8 {
        text.append("8");
    } else {
        text.append("9");
    }
}

/// Writes a number in decimal behind `text`.
fn push_decimal(text: &mut String, number: usize)
    ensures
        final(text)@ == old(text)@ + decimal_text(number as nat),
    decreases number,
{
    if number >= 10 {
        push_decimal(text, number / 10);
    }
    push_digit(text, number % 10);
    assert(text@ =~= old(text)@ + decimal_text(number as nat));
}

/// Writes one line behind `text`: the indentation, a label, what is labelled, and the end
/// of the line.
fn push_line(text: &mut String, indent: &str, label: &str, content: &str)
    ensures
        final(text)@ == old(text)@ + (indent@ + label@ + content@ + "\n"@),
{
    text.append(indent);
    text.append(label);
    text.append(content);
    text.append("\n");
    assert(text@ =~= old(text)@ + (indent@ + label@ + content@ + "\n"@));
}

/// Writes one line behind `text`: the indentation, a label, a number, and the end of the
/// line.
fn push_number_line(text: &mut String, indent: &str, label: &str, number: usize)
    ensures
        final(text)@ == old(text)@ + (indent@ + label@ + decimal_text(number as nat) + "\n"@),
{
    text.append(indent);
    text.append(label);
    push_decimal(text, number);
    text.append("\n");
    assert(text@ =~= old(text)@ + (indent@ + label@ + decimal_text(number as nat) + "\n"@));
}

/// Writes one line behind `text`: the indentation and a label.
fn push_label(text: &mut String, indent: &str, label: &str)
    ensures
        final(text)@ == old(text)@ + (indent@ + label@ + "\n"@),
{
    text.append(indent);
    text.append(label);
    text.append("\n");
    assert(text@ =~= old(text)@ + (indent@ + label@ + "\n"@));
}

/// Writes behind `text` the line that names a pin or a child of a device.
fn push_name(text: &mut String, body: &str, name: &str)
    ensures
        final(text)@ == old(text)@ + (body@ + "  "@ + name@ + ":"@ + "\n"@),
{
    text.append(body);
    text.append("  ");
    text.append(name);
    text.append(":");
    text.append("\n");
    assert(text@ =~= old(text)@ + (body@ + "  "@ + name@ + ":"@ + "\n"@));
}

/// Writes behind `text` what the dump shows for one pin.
fn push_pin(text: &mut String, circuit: &Circuit, pin: Pin, indent: &str)
    requires
        circuit@.wf(),
        circuit@.has_pin(pin),
    ensures
        final(text)@ == old(text)@ + pin_text(circuit@, pin, indent@),
{
    proof {
        lemma_connected_contains_self(circuit@, pin);
    }
    push_line(text, indent, "drive: ", pin.get_drive(circuit).as_str());
    push_line(text, indent, "read: ", pin.read(circuit).as_str());
    push_number_line(text, indent, "id: ", pin.id);
    push_label(text, indent, "connected:");
    let ghost lines = text@;
    let connected = pin.get_connected_pins(circuit);
    let mut i: usize = 0;
    proof {
        assert(connected@.subrange(0, 0) =~= Seq::empty());
        assert(lines + Seq::<char>::empty() =~= lines);
    }
    while i < connected.len()
        invariant
            i <= connected.len(),
            text@ == lines + connected_text(connected@.subrange(0, i as int), indent@),
        decreases connected.len() - i,
    {
        let ghost before = text@;
        push_number_line(text, indent, "  - ", connected[i].id);
        proof {
            let more = connected@.subrange(0, i + 1);
            assert(more.drop_last() =~= connected@.subrange(0, i as int));
            assert(more.last() == connected@[i as int]);
            assert(text@ =~= lines + connected_text(more, indent@));
        }
        i += 1;
    }
    proof {
        assert(connected@.subrange(0, i as int) =~= connected@);
        assert(text@ =~= old(text)@ + pin_text(circuit@, pin, indent@));
    }
}

/// Writes behind `text` what the dump shows for the named pins of a device.
fn push_pin_entries(
    text: &mut String,
    circuit: &Circuit,
    entries: &Vec<(String, DeviceContainer<Pin>)>,
    body: &str,
)
    requires
        circuit@.wf(),
        forall|i: int|
            0 <= i < entries.len() ==> container_pins_in(
                (#[trigger] entries[i]).1,
                circuit@,
            ),
    ensures
        final(text)@ == old(text)@ + pin_entries_text(circuit@, entries@, body@),
{
    let mut inner = String::from_str(body);
    inner.append("    ");
    let mut i: usize = 0;
    proof {
        assert(entries@.subrange(0, 0) =~= Seq::empty());
        assert(old(text)@ + Seq::<char>::empty() =~= old(text)@);
    }
    while i < entries.len()
        invariant
            i <= entries.len(),
            circuit@.wf(),
            inner@ == body@ + "    "@,
            forall|k: int|
                0 <= k < entries.len() ==> container_pins_in(
                    (#[trigger] entries[k]).1,
                    circuit@,
                ),
            text@ == old(text)@ + pin_entries_text(
                circuit@,
                entries@.subrange(0, i as int),
                body@,
            ),
        decreases entries.len() - i,
    {
        let ghost before = text@;
        let ghost done = pin_entries_text(circuit@, entries@.subrange(0, i as int), body@);
        proof {
            assert(container_pins_in(entries[i as int].1, circuit@));
        }
        push_name(text, body, entries[i].0.as_str());
        let ghost named = text@;
        match &entries[i].1 {
            DeviceContainer::Single(pin) => {
                push_pin(text, circuit, *pin, inner.as_str());
            },
            DeviceContainer::Multiple(pins) => {
                let mut j: usize = 0;
                proof {
                    assert(pins@.subrange(0, 0) =~= Seq::empty());
                    assert(named + Seq::<char>::empty() =~= named);
                }
                while j < pins.len()
                    invariant
                        j <= pins.len(),
                        circuit@.wf(),
                        forall|k: int| 0 <= k < pins.len() ==> circuit@.has_pin(#[trigger] pins[k]),
                        text@ == named + pins_text(circuit@, pins@.subrange(0, j as int), inner@),
                    decreases pins.len() - j,
                {
                    push_pin(text, circuit, pins[j], inner.as_str());
                    proof {
                        let more = pins@.subrange(0, j + 1);
                        assert(more.drop_last() =~= pins@.subrange(0, j as int));
                        assert(more.last() == pins@[j as int]);
                        assert(text@ =~= named + pins_text(circuit@, more, inner@));
                    }
                    j += 1;
                }
                proof {
                    assert(pins@.subrange(0, j as int) =~= pins@);
                }
            },
        }
        proof {
            let more = entries@.subrange(0, i + 1);
            assert(more.drop_last() =~= entries@.subrange(0, i as int));
            assert(more.last() == entries@[i as int]);
            assert(text@ =~= old(text)@ + pin_entries_text(circuit@, more, body@));
        }
        i += 1;
    }
    proof {
        assert(entries@.subrange(0, i as int) =~= entries@);
    }
}

/// Writes behind `text` what the dump shows for a device and all below it.
fn push_device(text: &mut String, circuit: &Circuit, device: &AnyDevice, header: &str, body: &str)
    requires
        circuit@.wf(),
        device.wf(circuit@),
    ensures
        final(text)@ == old(text)@ + device_text(circuit@, *device, header@, body@),
    decreases device,
{
    push_line(text, header, "type: ", device.device_type.as_str());
    if device.pins.len() > 0 {
        push_label(text, body, "pins:");
    }
    push_pin_entries(text, circuit, &device.pins, body);
    if device.children.len() > 0 {
        push_label(text, body, "children:");
    }
    let ghost own = text@;
    proof {
        assert(own =~= old(text)@ + ((header@ + "type: "@ + device.device_type@ + "\n"@) + (
        if device.pins.len() > 0 {
            body@ + "pins:"@ + "\n"@
        } else {
            Seq::empty()
        }) + pin_entries_text(circuit@, device.pins@, body@) + (if device.children.len() > 0 {
            body@ + "children:"@ + "\n"@
        } else {
            Seq::empty()
        })));
    }

    let mut inner = String::from_str(body);
    inner.append("    ");
    let mut i: usize = 0;
    proof {
        assert(device.children@.subrange(0, 0) =~= Seq::empty());
        assert(own + Seq::<char>::empty() =~= own);
    }
    while i < device.children.len()
        invariant
            i <= device.children.len(),
            circuit@.wf(),
            device.wf(circuit@),
            inner@ == body@ + "    "@,
            text@ == own + children_text(circuit@, device.children@.subrange(0, i as int), body@),
        decreases device.children.len() - i,
    {
        push_name(text, body, device.children[i].0.as_str());
        let ghost named = text@;
        match &device.children[i].1 {
            DeviceContainer::Single(child) => {
                push_device(text, circuit, child, inner.as_str(), inner.as_str());
            },
            DeviceContainer::Multiple(children) => {
                push_devices(text, circuit, children, body);
            },
        }
        proof {
            let more = device.children@.subrange(0, i + 1);
            assert(more.drop_last() =~= device.children@.subrange(0, i as int));
            assert(more.last() == device.children@[i as int]);
            assert(text@ =~= own + children_text(circuit@, more, body@));
        }
        i += 1;
    }
    proof {
        assert(device.children@.subrange(0, i as int) =~= device.children@);
        assert(text@ =~= old(text)@ + device_text(circuit@, *device, header@, body@));
    }
}

/// Writes behind `text` what the dump shows for the devices of a list, each as a member of a
/// sequence.
fn push_devices(text: &mut String, circuit: &Circuit, devices: &Vec<AnyDevice>, body: &str)
    requires
        circuit@.wf(),
        forall|j: int| 0 <= j < devices.len() ==> (#[trigger] devices[j]).wf(circuit@),
    ensures
        final(text)@ == old(text)@ + devices_text(circuit@, devices@, body@),
    decreases devices,
{
    let mut member_header = String::from_str(body);
    member_header.append("    - ");
    let mut member_body = String::from_str(body);
    member_body.append("      ");
    let mut j: usize = 0;
    proof {
        assert(devices@.subrange(0, 0) =~= Seq::empty());
        assert(old(text)@ + Seq::<char>::empty() =~= old(text)@);
    }
    while j < devices.len()
        invariant
            j <= devices.len(),
            circuit@.wf(),
            forall|k: int| 0 <= k < devices.len() ==> (#[trigger] devices[k]).wf(circuit@),
            member_header@ == body@ + "    - "@,
            member_body@ == body@ + "      "@,
            text@ == old(text)@ + devices_text(circuit@, devices@.subrange(0, j as int), body@),
        decreases devices.len() - j,
    {
        push_device(text, circuit, &devices[j], member_header.as_str(), member_body.as_str());
        proof {
            let more = devices@.subrange(0, j + 1);
            assert(more.drop_last() =~= devices@.subrange(0, j as int));
            assert(more.last() == devices@[j as int]);
            assert(text@ =~= old(text)@ + devices_text(circuit@, more, body@));
        }
        j += 1;
    }
    proof {
        assert(devices@.subrange(0, j as int) =~= devices@);
    }
}

/// Writes a detailed dump of a device and of all below it, in the shape of YAML: for each
/// device its type, its pins with what each drives and reads and is connected to, and its
/// children. The dump starts at the indentation `level`; a device that is a member of a
/// sequence gets a dash two columns before it, so that `level` must then be two or more.
pub fn render(circuit: &Circuit, device: &AnyDevice, level: usize, is_array_member: bool) -> (text:
    String)
    requires
        circuit@.wf(),
        device.wf(circuit@),
        is_array_member ==> level >= 2,
    ensures
        text@ == rendered(circuit@, *device, level as nat, is_array_member),
{
    let body = indentation(level);
    let header = if is_array_member {
        let mut header = indentation(level - 2);
        header.append("- ");
        header
    } else {
        indentation(level)
    };
    let mut text = String::new();
    push_device(&mut text, circuit, device, header.as_str(), body.as_str());
    assert(Seq::<char>::empty() + rendered(circuit@, *device, level as nat, is_array_member)
        =~= rendered(circuit@, *device, level as nat, is_array_member));
    text
}

} // verus!
