use vstd::prelude::*;
use crate::state::{EntryView, FileEntry, State, merged, views};

verus! {

/// What an Add did: how many entries it appended, and whether the state
/// must be written back.
pub struct AddReport {
    pub added: usize,
    pub save: bool,
}

/// Adds the files a walk found. The state is to be written back exactly
/// when at least one entry was appended, which is exactly when it changed.
pub fn handle_add(state: &mut State, found: &Vec<FileEntry>) -> (r: AddReport)
    requires
        old(state).wf(),
    ensures
        final(state)@ == merged(old(state)@, views(found@)),
        final(state).wf(),
        final(state).spec_path() == old(state).spec_path(),
        r.added == final(state)@.len() - old(state)@.len(),
        r.save == (r.added > 0),
        r.save <==> final(state)@ != old(state)@,
{
    let added = state.add_entries(found);
    AddReport { added, save: added > 0 }
}

/// Empties the state. The emptied state is always to be written back, also
/// when it was empty already.
pub fn handle_clear(state: &mut State) -> (save: bool)
    ensures
        final(state)@ == Seq::<EntryView>::empty(),
        final(state).wf(),
        final(state).spec_path() == old(state).spec_path(),
        save,
{
    state.clear();
    true
}

} // verus!
