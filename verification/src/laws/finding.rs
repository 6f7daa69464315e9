//! What is found by identity, by alias and by commit id.

use vstd::prelude::*;

use crate::error::{ManifestConflictDetailsModel, ManifestErrorKind, OmniErrorModel};
use crate::identity::TableIdentity;
use crate::lineage::GraphLineageRowModel;
use crate::lookup::{
    aliases, find_by_alias, find_by_identity, first_place, identities, lemma_has_first_place,
    Aliased, Identified,
};
use crate::outcome::{commit_ids, find_commit};
use crate::snapshot::{bound_entry, SnapshotEntry, SnapshotModel};

verus! {

/// Whether `i` is the first place at which something holds.
pub open spec fn at_first(len: nat, holds: spec_fn(int) -> bool, i: int) -> bool {
    0 <= i < len && holds(i) && forall|j: int| 0 <= j < i ==> !(#[trigger] holds(j))
}

/// By its identity, the first record with that identity is found, wherever there is
/// one.
pub proof fn lemma_found_by_identity<T: Identified>(
    models: Seq<T::V>,
    identity: TableIdentity,
)
    ensures
        ({
            let found = find_by_identity::<T>(models, identity);
            let fits = |j: int| T::identity_of(models[j]) == identity;
            &&& found is Some <==> exists|i: int| #[trigger] at_first(models.len(), fits, i)
            &&& forall|i: int| #[trigger]
                at_first(models.len(), fits, i) ==> found == Some(models[i])
        }),
{
    let list = identities::<T>(models);
    let fits = |j: int| T::identity_of(models[j]) == identity;
    if list.contains(identity) {
        lemma_has_first_place(list, identity);
        let i = first_place(list, identity);
        assert forall|j: int| 0 <= j < i implies !(#[trigger] fits(j)) by {
            assert(list[j] != identity);
        }
        assert(fits(i));
        assert(at_first(models.len(), fits, i));
    }
    assert forall|i: int| #[trigger] at_first(models.len(), fits, i) implies find_by_identity::<T>(
        models,
        identity,
    ) == Some(models[i]) by {
        assert(fits(i));
        assert(list[i] == identity);
        lemma_has_first_place(list, identity);
        let k = first_place(list, identity);
        assert(list[k] == identity);
        assert(fits(k));
        if k < i {
            assert(!fits(k));
        } else if i < k {
            assert(list[i] != identity);
        }
    }
}

/// By its alias, the first record with that alias is found, wherever there is one.
pub proof fn lemma_found_by_alias<T: Aliased>(models: Seq<T::V>, alias: Seq<char>)
    ensures
        ({
            let found = find_by_alias::<T>(models, alias);
            let fits = |j: int| T::alias_of(models[j]) == alias;
            &&& found is Some <==> exists|i: int| #[trigger] at_first(models.len(), fits, i)
            &&& forall|i: int| #[trigger]
                at_first(models.len(), fits, i) ==> found == Some(models[i])
        }),
{
    let list = aliases::<T>(models);
    let fits = |j: int| T::alias_of(models[j]) == alias;
    if list.contains(alias) {
        lemma_has_first_place(list, alias);
        let i = first_place(list, alias);
        assert forall|j: int| 0 <= j < i implies !(#[trigger] fits(j)) by {
            assert(list[j] != alias);
        }
        assert(fits(i));
        assert(at_first(models.len(), fits, i));
    }
    assert forall|i: int| #[trigger] at_first(models.len(), fits, i) implies find_by_alias::<T>(
        models,
        alias,
    ) == Some(models[i]) by {
        assert(fits(i));
        assert(list[i] == alias);
        lemma_has_first_place(list, alias);
        let k = first_place(list, alias);
        assert(list[k] == alias);
        assert(fits(k));
        if k < i {
            assert(!fits(k));
        } else if i < k {
            assert(list[i] != alias);
        }
    }
}

/// By its id, the first commit with that id is found, wherever there is one.
pub proof fn lemma_found_by_commit_id(commits: Seq<GraphLineageRowModel>, id: Seq<char>)
    ensures
        ({
            let found = find_commit(commits, id);
            let fits = |j: int| commits[j].graph_commit_id == id;
            &&& found is Some <==> exists|i: int| #[trigger] at_first(commits.len(), fits, i)
            &&& forall|i: int| #[trigger]
                at_first(commits.len(), fits, i) ==> found == Some(commits[i])
        }),
{
    let list = commit_ids(commits);
    let fits = |j: int| commits[j].graph_commit_id == id;
    if list.contains(id) {
        lemma_has_first_place(list, id);
        let i = first_place(list, id);
        assert forall|j: int| 0 <= j < i implies !(#[trigger] fits(j)) by {
            assert(list[j] != id);
        }
        assert(fits(i));
        assert(at_first(commits.len(), fits, i));
    }
    assert forall|i: int| #[trigger] at_first(commits.len(), fits, i) implies find_commit(
        commits,
        id,
    ) == Some(commits[i]) by {
        assert(fits(i));
        assert(list[i] == id);
        lemma_has_first_place(list, id);
        let k = first_place(list, id);
        assert(list[k] == id);
        assert(fits(k));
        if k < i {
            assert(!fits(k));
        } else if i < k {
            assert(list[i] != id);
        }
    }
}

/// Whether a table has an identity.
pub open spec fn has_identity_of(snapshot: SnapshotModel, identity: TableIdentity) -> bool {
    exists|i: int|
        0 <= i < snapshot.entries.len() && (#[trigger] snapshot.entries[i]).identity == identity
}

/// Whether a table has an alias.
pub open spec fn has_alias_of(snapshot: SnapshotModel, alias: Seq<char>) -> bool {
    exists|i: int|
        0 <= i < snapshot.entries.len() && (#[trigger] snapshot.entries[i]).table.table_key
            == alias
}

/// What was expected and what was found, where what an attempt read changed.
pub open spec fn changed_values(error: OmniErrorModel) -> (Option<Seq<char>>, Option<Seq<char>>) {
    match error {
        OmniErrorModel::Manifest {
            details: Some(
                ManifestConflictDetailsModel::ReadSetChanged { expected_value, actual_value, .. },
            ),
            ..
        } => (expected_value, actual_value),
        _ => (None, None),
    }
}

/// A pin binds to a table of the manifest by its identity and its alias at once: to the
/// table that has both, to none where the manifest has neither, and otherwise it fails,
/// because what the attempt read changed.
pub proof fn lemma_a_pin_binds_by_both(
    snapshot: SnapshotModel,
    identity: TableIdentity,
    alias: Seq<char>,
)
    ensures
        ({
            let result = bound_entry(snapshot, identity, alias);
            let named = has_alias_of(snapshot, alias);
            let known = has_identity_of(snapshot, identity);
            &&& result is Ok && result->Ok_0 is None <==> !known && !named
            &&& result is Ok && result->Ok_0 is Some ==> {
                &&& snapshot.entries.contains(result->Ok_0->0)
                &&& result->Ok_0->0.identity == identity
                &&& result->Ok_0->0.table.table_key == alias
            }
            &&& known && (forall|i: int|
                0 <= i < snapshot.entries.len() && (#[trigger] snapshot.entries[i]).identity
                    == identity ==> snapshot.entries[i].table.table_key == alias) ==> result is Ok
            &&& result is Err ==> {
                &&& result->Err_0 matches OmniErrorModel::Manifest {
                    kind: ManifestErrorKind::Conflict,
                    details: Some(ManifestConflictDetailsModel::ReadSetChanged { .. }),
                    ..
                }
            }
            &&& result is Err && known ==> {
                let entry = snapshot.by_identity(identity)->0;
                changed_values(result->Err_0) == (Some(alias), Some(entry.table.table_key))
            }
            &&& result is Err && !known ==> {
                let entry = snapshot.by_alias(alias)->0;
                changed_values(result->Err_0) == (Some(identity.text()), Some(entry.identity.text()))
            }
        }),
{
    lemma_found_by_identity::<SnapshotEntry>(snapshot.entries, identity);
    lemma_found_by_alias::<SnapshotEntry>(snapshot.entries, alias);
    let by_id = |j: int| SnapshotEntry::identity_of(snapshot.entries[j]) == identity;
    let by_alias = |j: int| SnapshotEntry::alias_of(snapshot.entries[j]) == alias;
    let entries = snapshot.entries;
    if has_identity_of(snapshot, identity) {
        let i = choose|i: int|
            0 <= i < entries.len() && (#[trigger] entries[i]).identity == identity;
        let list = identities::<SnapshotEntry>(entries);
        assert(list[i] == identity);
        assert(list.contains(identity));
    }
    if has_alias_of(snapshot, alias) {
        let i = choose|i: int|
            0 <= i < entries.len() && (#[trigger] entries[i]).table.table_key == alias;
        let list = aliases::<SnapshotEntry>(entries);
        assert(list[i] == alias);
        assert(list.contains(alias));
    }
    if snapshot.by_identity(identity) is Some {
        let i = choose|i: int| #[trigger] at_first(entries.len(), by_id, i);
        assert(by_id(i));
        assert(entries[i].identity == identity);
        assert(entries.contains(entries[i]));
    }
    if snapshot.by_alias(alias) is Some {
        let i = choose|i: int| #[trigger] at_first(entries.len(), by_alias, i);
        assert(by_alias(i));
        assert(entries[i].table.table_key == alias);
    }
}

} // verus!
