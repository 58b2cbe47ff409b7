use vstd::prelude::*;
use crate::state::{EntryView, has_absolute, merged, unique_absolute};

verus! {

/// Merging never drops or moves what was there, and afterwards every
/// candidate's canonical path is present.
pub proof fn lemma_merged_covers(existing: Seq<EntryView>, candidates: Seq<EntryView>)
    ensures
        merged(existing, candidates).len() >= existing.len(),
        forall|i: int| 0 <= i < existing.len() ==> #[trigger] merged(existing, candidates)[i] == existing[i],
        forall|k: int|
            0 <= k < candidates.len() ==> has_absolute(
                merged(existing, candidates),
                #[trigger] candidates[k].absolute,
            ),
    decreases candidates.len(),
{
    if candidates.len() > 0 {
        let rest = candidates.drop_last();
        lemma_merged_covers(existing, rest);
        let before = merged(existing, rest);
        let after = merged(existing, candidates);
        assert forall|k: int| 0 <= k < candidates.len() implies has_absolute(
            after,
            #[trigger] candidates[k].absolute,
        ) by {
            if k < rest.len() {
                assert(rest[k] == candidates[k]);
                let j = choose|j: int| 0 <= j < before.len() && #[trigger] before[j].absolute == rest[k].absolute;
                assert(after[j] == before[j]);
            } else if !has_absolute(before, candidates.last().absolute) {
                assert(after[before.len() as int] == candidates.last());
            }
        }
    }
}

/// Merging candidates whose canonical paths are all present changes nothing.
pub proof fn lemma_merged_present(existing: Seq<EntryView>, candidates: Seq<EntryView>)
    requires
        forall|k: int| 0 <= k < candidates.len() ==> has_absolute(existing, #[trigger] candidates[k].absolute),
    ensures
        merged(existing, candidates) == existing,
    decreases candidates.len(),
{
    if candidates.len() > 0 {
        let rest = candidates.drop_last();
        assert forall|k: int| 0 <= k < rest.len() implies has_absolute(existing, #[trigger] rest[k].absolute) by {
            assert(rest[k] == candidates[k]);
        }
        lemma_merged_present(existing, rest);
        assert(has_absolute(existing, candidates[candidates.len() - 1].absolute));
    }
}

/// Adding the same candidates a second time adds nothing: the second merge
/// gives back what the first produced.
pub proof fn lemma_add_idempotent(existing: Seq<EntryView>, candidates: Seq<EntryView>)
    ensures
        merged(merged(existing, candidates), candidates) == merged(existing, candidates),
{
    lemma_merged_covers(existing, candidates);
    lemma_merged_present(merged(existing, candidates), candidates);
}

/// Whatever is merged into entries with distinct canonical paths, the
/// canonical paths stay distinct.
pub proof fn lemma_merge_keeps_unique(existing: Seq<EntryView>, candidates: Seq<EntryView>)
    requires
        unique_absolute(existing),
    ensures
        unique_absolute(merged(existing, candidates)),
    decreases candidates.len(),
{
    if candidates.len() > 0 {
        let rest = candidates.drop_last();
        lemma_merge_keeps_unique(existing, rest);
        let before = merged(existing, rest);
        if !has_absolute(before, candidates.last().absolute) {
            let after = before.push(candidates.last());
            assert forall|i: int, j: int|
                0 <= i < after.len() && 0 <= j < after.len() && i != j implies
                #[trigger] after[i].absolute != #[trigger] after[j].absolute by {
                if i == before.len() {
                    assert(after[j] == before[j]);
                } else if j == before.len() {
                    assert(after[i] == before[i]);
                } else {
                    assert(after[i] == before[i] && after[j] == before[j]);
                }
            }
        }
    }
}

/// Entries with distinct canonical paths, merged into nothing, come back
/// as they were, in the same order: a saved state loads as itself.
pub proof fn lemma_reload_keeps_entries(entries: Seq<EntryView>)
    requires
        unique_absolute(entries),
    ensures
        merged(Seq::empty(), entries) == entries,
    decreases entries.len(),
{
    if entries.len() > 0 {
        let rest = entries.drop_last();
        assert forall|i: int, j: int|
            0 <= i < rest.len() && 0 <= j < rest.len() && i != j implies
            #[trigger] rest[i].absolute != #[trigger] rest[j].absolute by {
            assert(rest[i] == entries[i] && rest[j] == entries[j]);
        }
        lemma_reload_keeps_entries(rest);
        if has_absolute(rest, entries.last().absolute) {
            let j = choose|j: int| 0 <= j < rest.len() && #[trigger] rest[j].absolute == entries.last().absolute;
            assert(entries[j] == rest[j]);
            assert(false);
        }
        assert(rest.push(entries.last()) =~= entries);
    }
}

} // verus!
