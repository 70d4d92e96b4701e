//! Facts about tallies: how the count of the drives of a list of pins follows the list and
//! the drives.

use crate::circuit::model::drives_of;
use crate::circuit::model::resolve_drives;
use crate::circuit::model::tally_of;
use crate::circuit::pin::Pin;
use crate::circuit::PinState;
use crate::value::drive_value::DriveValue;
use vstd::prelude::*;

verus! {

/// A tally counts no more pins than it was taken over.
pub proof fn lemma_tally_total(pins: Seq<PinState>, members: Seq<Pin>)
    ensures
        tally_of(pins, members).total() <= members.len(),
    decreases members.len(),
{
    if members.len() > 0 {
        lemma_tally_total(pins, members.drop_last());
    }
}

/// A tally depends only on the drives of the pins it is taken over.
pub proof fn lemma_tally_frame(before: Seq<PinState>, after: Seq<PinState>, members: Seq<Pin>)
    requires
        forall|i: int|
            0 <= i < members.len() ==> before[(#[trigger] members[i]).id as int].current_drive
                == after[members[i].id as int].current_drive,
    ensures
        tally_of(before, members) == tally_of(after, members),
    decreases members.len(),
{
    if members.len() > 0 {
        let rest = members.drop_last();
        assert forall|i: int| 0 <= i < rest.len() implies
            before[(#[trigger] rest[i]).id as int].current_drive
            == after[rest[i].id as int].current_drive by {
            assert(rest[i] == members[i]);
        }
        lemma_tally_frame(before, after, rest);
        assert(members.last() == members[members.len() - 1]);
    }
}

/// The tally over two lists of pins, one behind the other, is the sum of their tallies.
pub proof fn lemma_tally_concat(pins: Seq<PinState>, first: Seq<Pin>, second: Seq<Pin>)
    ensures
        tally_of(pins, first + second) == tally_of(pins, first).add(tally_of(pins, second)),
    decreases second.len(),
{
    if second.len() == 0 {
        assert(first + second =~= first);
    } else {
        lemma_tally_concat(pins, first, second.drop_last());
        assert((first + second).drop_last() =~= first + second.drop_last());
        assert((first + second).last() == second.last());
    }
}

/// When one pin of a list without repetition changes its drive, the tally over the list
/// moves one count from the old drive to the new one; the old drive was counted.
pub proof fn lemma_tally_change(
    before: Seq<PinState>,
    after: Seq<PinState>,
    members: Seq<Pin>,
    k: int,
)
    requires
        members.no_duplicates(),
        0 <= k < members.len(),
        forall|i: int|
            0 <= i < members.len() && i != k
                ==> before[(#[trigger] members[i]).id as int].current_drive
                == after[members[i].id as int].current_drive,
    ensures
        before[members[k].id as int].current_drive != DriveValue::HighImpedance ==> tally_of(
            before,
            members,
        ).count(before[members[k].id as int].current_drive) > 0,
        tally_of(after, members) == tally_of(before, members).update(
            before[members[k].id as int].current_drive,
            after[members[k].id as int].current_drive,
        ),
    decreases members.len(),
{
    let rest = members.drop_last();
    let last = members.last();
    assert(last == members[members.len() - 1]);
    if k == members.len() - 1 {
        assert forall|i: int| 0 <= i < rest.len() implies
            before[(#[trigger] rest[i]).id as int].current_drive
            == after[rest[i].id as int].current_drive by {
            assert(rest[i] == members[i]);
        }
        lemma_tally_frame(before, after, rest);
    } else {
        assert(rest[k] == members[k]);
        assert forall|i: int| 0 <= i < rest.len() && i != k implies
            before[(#[trigger] rest[i]).id as int].current_drive
            == after[rest[i].id as int].current_drive by {
            assert(rest[i] == members[i]);
        }
        assert(rest.no_duplicates()) by {
            assert forall|i: int, j: int| 0 <= i < rest.len() && 0 <= j < rest.len()
                && i != j implies rest[i]
                != rest[j] by {
                assert(rest[i] == members[i]);
                assert(rest[j] == members[j]);
            }
        }
        lemma_tally_change(before, after, rest, k);
    }
}

/// A driving state is counted in a tally exactly if one of the pins drives it.
pub proof fn lemma_tally_presence(pins: Seq<PinState>, members: Seq<Pin>, drive: DriveValue)
    requires
        drive != DriveValue::HighImpedance,
    ensures
        tally_of(pins, members).count(drive) > 0 <==> drives_of(pins, members).contains(drive),
    decreases members.len(),
{
    let drives = drives_of(pins, members);
    if members.len() > 0 {
        let rest = members.drop_last();
        let rest_drives = drives_of(pins, rest);
        lemma_tally_presence(pins, rest, drive);
        assert(members.last() == members[members.len() - 1]);
        if rest_drives.contains(drive) {
            let i = choose|i: int| 0 <= i < rest_drives.len() && rest_drives[i] == drive;
            assert(rest[i] == members[i]);
            assert(drives[i] == drive);
        }
        if drives.contains(drive) {
            let i = choose|i: int| 0 <= i < drives.len() && drives[i] == drive;
            if i < rest.len() {
                assert(rest[i] == members[i]);
                assert(rest_drives[i] == drive);
            }
        }
        if pins[members.last().id as int].current_drive == drive {
            assert(drives[members.len() - 1] == drive);
        }
    }
}

/// What a tally resolves to is what the drives it was taken over resolve to.
pub proof fn lemma_tally_resolves(pins: Seq<PinState>, members: Seq<Pin>)
    ensures
        tally_of(pins, members).resolve() == resolve_drives(drives_of(pins, members)),
{
    lemma_tally_presence(pins, members, DriveValue::Strong(true));
    lemma_tally_presence(pins, members, DriveValue::Strong(false));
    lemma_tally_presence(pins, members, DriveValue::Weak(true));
    lemma_tally_presence(pins, members, DriveValue::Weak(false));
    lemma_tally_presence(pins, members, DriveValue::Error);
}

} // verus!
