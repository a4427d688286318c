//! Moving data from the legacy layout, where entries were filed under year
//! and month directories, to the object store filed by hash.

use vstd::prelude::*;
use crate::layout::{hash_splittable, relative_path_for_hash, relative_path_spec};
use crate::model::{add_line, RecordView, SearchIndexRecord};
use crate::text::chars_of;

verus! {

/// A directory name of the legacy layout's top level: four ASCII digits.
pub open spec fn legacy_year_name(name: Seq<char>) -> bool {
    name.len() == 4 && forall|i: int| 0 <= i < 4 ==> '0' <= #[trigger] name[i] <= '9'
}

/// Whether a directory name is a legacy year directory.
pub fn is_legacy_year_dir(name: &str) -> (r: bool)
    ensures
        r == legacy_year_name(name@),
{
    let cs = chars_of(name);
    if cs.len() != 4 {
        return false;
    }
    let mut i: usize = 0;
    while i < 4
        invariant
            cs@ == name@,
            cs.len() == 4,
            i <= 4,
            forall|j: int| 0 <= j < i ==> '0' <= #[trigger] cs@[j] <= '9',
        decreases 4 - i,
    {
        if !('0' <= cs[i] && cs[i] <= '9') {
            return false;
        }
        i = i + 1;
    }
    true
}

/// The record a migrated entry has in the new index: the legacy record,
/// filed under its hash's place in the object store.
pub open spec fn migrated_view(r: RecordView) -> RecordView {
    RecordView { relative_path: relative_path_spec(r.hash), ..r }
}

/// The record of a migrated entry, as replaying its journal line gives it.
pub fn migrated_record(record: &SearchIndexRecord) -> (r: SearchIndexRecord)
    requires
        hash_splittable(record.hash@),
    ensures
        r@ == migrated_view(record@),
        Some(r@) == add_line(record@).record(),
{
    let mut r = record.duplicate();
    r.relative_path = relative_path_for_hash(record.hash.as_str());
    r
}

} // verus!
