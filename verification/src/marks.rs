//! The marks on the fields of a device struct. A code generator that writes the accessors of
//! a device sorts the fields of the struct by the attribute that marks each: `pin`, `pins`,
//! `child` or `children`.

use vstd::prelude::*;
use vstd::string::StringExecFns;

verus! {

/// A field of a struct, with the names of the attributes that mark it.
pub struct MarkedField {
    /// The name of the field.
    pub name: String,
    /// The names of the attributes on the field.
    pub marks: Vec<String>,
}

/// Whether one of `marks` is named `mark`.
pub open spec fn has_mark(marks: Seq<String>, mark: Seq<char>) -> bool {
    exists|j: int| 0 <= j < marks.len() && (#[trigger] marks[j])@ == mark
}

/// The positions of the fields that carry the mark `mark`, in the order of the fields.
pub open spec fn fields_with_mark(fields: Seq<MarkedField>, mark: Seq<char>) -> Seq<usize>
    decreases fields.len(),
{
    if fields.len() == 0 {
        Seq::empty()
    } else if has_mark(fields.last().marks@, mark) {
        fields_with_mark(fields.drop_last(), mark).push((fields.len() - 1) as usize)
    } else {
        fields_with_mark(fields.drop_last(), mark)
    }
}

/// Tells whether one of `marks` is named `ident`.
fn is_marked(marks: &Vec<String>, ident: &String) -> (found: bool)
    ensures
        found == has_mark(marks@, ident@),
{
    let mut j: usize = 0;
    while j < marks.len()
        invariant
            j <= marks.len(),
            forall|k: int| 0 <= k < j ==> (#[trigger] marks[k])@ != ident@,
        decreases marks.len() - j,
    {
        if marks[j] == *ident {
            return true;
        }
        j += 1;
    }
    false
}

/// Gets the positions of the fields that have an attribute with the given name, in the order
/// of the fields.
pub fn get_fields_with_attribute(fields: &Vec<MarkedField>, ident: &str) -> (found: Vec<usize>)
    ensures
        found@ == fields_with_mark(fields@, ident@),
{
    let wanted = String::from_str(ident);
    let mut found: Vec<usize> = Vec::new();
    let mut i: usize = 0;
    proof {
        assert(fields@.subrange(0, 0) =~= Seq::empty());
    }
    while i < fields.len()
        invariant
            i <= fields.len(),
            wanted@ == ident@,
            found@ == fields_with_mark(fields@.subrange(0, i as int), ident@),
        decreases fields.len() - i,
    {
        proof {
            let more = fields@.subrange(0, i + 1);
            assert(more.drop_last() =~= fields@.subrange(0, i as int));
            assert(more.last() == fields@[i as int]);
        }
        if is_marked(&fields[i].marks, &wanted) {
            found.push(i);
        }
        i += 1;
    }
    proof {
        assert(fields@.subrange(0, i as int) =~= fields@);
    }
    found
}

} // verus!
