//! How sidecars, manifests and lineages are read back.

use vstd::prelude::*;

use crate::db::{is_lock_branch, MutationOpKind};
use crate::error::OmniErrorModel;
use crate::identity::{path_of, TableIdentity};
use crate::laws::classifying::lemma_reported_is_the_first;
use crate::laws::ending::branch_in_lineage;
use crate::laws::restoring::{lemma_places, picks, places};
use crate::laws::ruling::pinned_as;
use crate::lineage::{
    commit_le, commit_metadata, commit_part, head_branch, head_object_id, head_part, is_head,
    last_value, part_row, with_lineage_rows, GraphLineageModel, GraphLineageRowModel,
    LineageMetadata,
};
use crate::order::{text_le, text_lt, Ranked};
use crate::rows::ManifestRowModel;
use crate::shape::defect::first_defect;
use crate::shape::validate::{ownership_fault, shape_fault};
use crate::sidecar::{RecoverySidecar, RecoverySidecarModel, SidecarKind, SidecarTablePinModel};
use crate::snapshot::{SubTableEntry, SubTableEntryModel};
use crate::state::{
    is_live, located, table_row, undescribed, version_row, with_rows, ManifestScanModel,
    RowMetadata,
};
use crate::store::{
    admitted, coordination_keys, parsed, readable, reread, stamped, unreadable, uri_of, write_fault,
    SidecarBodyModel, StoredSidecarModel,
};
use crate::sweep::{
    is_durable, left_count, reconciles_schema, schema_apply_serial_queue_key, sweep_target,
    unresolved_intent, HealEvent, SweepTarget, TableQueueKey, UnresolvedRecoveryIntent,
};
use crate::text::{ends_with, integer_of, number, starts_with, trimmed_end, trimmed_start};
use crate::value::views;

verus! {

/// A sidecar lies in the recovery directory of its graph, under the name of its attempt.
pub proof fn lemma_where_a_sidecar_lies(root: Seq<char>, operation_id: Seq<char>)
    ensures
        uri_of(root, operation_id) == trimmed_end(root) + "/"@ + "__recovery"@ + "/"@ + operation_id
            + ".json"@,
{
}

/// A table lies in the directory of its kind, under its identity: nodes and edges apart. An
/// alias of another kind has no place.
pub proof fn lemma_where_a_table_lies(alias: Seq<char>, identity: TableIdentity)
    ensures
        ({
            let name = crate::text::decimal(identity.stable_table_id as nat) + "-"@
                + crate::text::decimal(identity.table_incarnation_id as nat);
            let path = path_of(alias, identity);
            &&& path is Some <==> starts_with(alias, "node:"@) || starts_with(alias, "edge:"@)
            &&& starts_with(alias, "node:"@) ==> path->0 == "nodes/"@ + name
            &&& starts_with(alias, "edge:"@) ==> path->0 == "edges/"@ + name
        }),
{
    reveal_strlit("node:");
    reveal_strlit("edge:");
    reveal_strlit("nodes");
    reveal_strlit("edges");
    reveal_strlit("nodes/");
    reveal_strlit("edges/");
    reveal_strlit("/");
    reveal_strlit("-");
    let first = crate::text::decimal(identity.stable_table_id as nat);
    let second = crate::text::decimal(identity.table_incarnation_id as nat);
    if starts_with(alias, "node:"@) {
        assert(alias.subrange(0, 5)[0] == 'n');
        if starts_with(alias, "edge:"@) {
            assert(alias.subrange(0, 5)[0] == 'e');
        }
        assert("nodes"@ + "/"@ + first + "-"@ + second =~= "nodes/"@ + (first + "-"@ + second));
    } else if starts_with(alias, "edge:"@) {
        assert("edges"@ + "/"@ + first + "-"@ + second =~= "edges/"@ + (first + "-"@ + second));
    }
}

/// A record is read as the sidecar that it holds exactly where it says its generation, the
/// generation is known, the sidecar can be decoded and keeps the rules; a sweep takes it
/// only where its tables lie in the graph too.
pub proof fn lemma_when_a_record_is_read(root: Seq<char>, uri: Seq<char>, body: SidecarBodyModel)
    ensures
        ({
            let fit = {
                &&& body.schema_version is Ok
                &&& body.schema_version->Ok_0 <= 9
                &&& body.sidecar is Ok
                &&& shape_fault(uri, body.sidecar->Ok_0) is None
            };
            let here = ownership_fault(root, uri, body.sidecar->Ok_0) is None;
            &&& parsed(uri, body) is Ok <==> fit
            &&& parsed(uri, body) is Ok ==> parsed(uri, body)->Ok_0 == body.sidecar->Ok_0
            &&& admitted(root, uri, body) is Ok <==> fit && here
            &&& admitted(root, uri, body) is Ok ==> admitted(root, uri, body)->Ok_0
                == body.sidecar->Ok_0
        }),
{
}

/// A sidecar may be stored exactly where it keeps the rules and its tables lie in the
/// graph.
pub proof fn lemma_when_a_sidecar_is_stored(root: Seq<char>, sidecar: RecoverySidecarModel)
    ensures
        ({
            let uri = uri_of(root, sidecar.operation_id);
            write_fault(root, sidecar) is None <==> shape_fault(uri, sidecar) is None
                && ownership_fault(root, uri, sidecar) is None
        }),
{
}

/// Of the stored records, a read-only open sees every one that can be read, in order, and
/// is told of every other, in order, by its place.
pub proof fn lemma_what_a_read_only_open_sees(
    root: Seq<char>,
    stored: Seq<StoredSidecarModel>,
) -> (tables: (Seq<int>, Seq<int>))
    ensures
        picks(
            tables.0,
            stored.len() as int,
            |i: int| admitted(root, stored[i].uri, stored[i].body) is Ok,
        ),
        picks(
            tables.1,
            stored.len() as int,
            |i: int| admitted(root, stored[i].uri, stored[i].body) is Err,
        ),
        ({
            let seen = readable(root, stored, stored.len() as int);
            let told = unreadable(root, stored, stored.len() as int);
            &&& seen.len() == tables.0.len()
            &&& forall|k: int|
                0 <= k < seen.len() ==> Ok::<RecoverySidecarModel, OmniErrorModel>(
                    #[trigger] seen[k],
                ) == admitted(root, stored[tables.0[k]].uri, stored[tables.0[k]].body)
            &&& told.len() == tables.1.len()
            &&& forall|k: int|
                0 <= k < told.len() ==> (#[trigger] told[k]).0 == stored[tables.1[k]].uri
        }),
{
    let good = |i: int| admitted(root, stored[i].uri, stored[i].body) is Ok;
    let bad = |i: int| admitted(root, stored[i].uri, stored[i].body) is Err;
    let n = stored.len() as int;
    lemma_places(n, good);
    lemma_places(n, bad);
    lemma_seen(root, stored, n);
    (places(n, good), places(n, bad))
}

proof fn lemma_seen(root: Seq<char>, stored: Seq<StoredSidecarModel>, n: int)
    requires
        0 <= n <= stored.len(),
    ensures
        ({
            let good = places(n, |i: int| admitted(root, stored[i].uri, stored[i].body) is Ok);
            let bad = places(n, |i: int| admitted(root, stored[i].uri, stored[i].body) is Err);
            let seen = readable(root, stored, n);
            let told = unreadable(root, stored, n);
            &&& seen.len() == good.len()
            &&& forall|k: int|
                0 <= k < seen.len() ==> Ok::<RecoverySidecarModel, OmniErrorModel>(
                    #[trigger] seen[k],
                ) == admitted(root, stored[good[k]].uri, stored[good[k]].body)
            &&& told.len() == bad.len()
            &&& forall|k: int|
                0 <= k < told.len() ==> (#[trigger] told[k]).0 == stored[bad[k]].uri
        }),
    decreases n,
{
    if n > 0 {
        lemma_seen(root, stored, n - 1);
    }
}

/// Whether two sidecars coordinate alike: the same attempt of the same writer on the same
/// branch, with the same tables at the same places, in order. Versions may differ.
pub open spec fn coordinate_alike(
    left: RecoverySidecarModel,
    right: RecoverySidecarModel,
) -> bool {
    &&& left.operation_id == right.operation_id
    &&& left.writer_kind == right.writer_kind
    &&& left.branch == right.branch
    &&& left.tables.len() == right.tables.len()
    &&& forall|i: int|
        0 <= i < left.tables.len() ==> {
            &&& (#[trigger] left.tables[i]).identity == right.tables[i].identity
            &&& left.tables[i].table_key == right.tables[i].table_key
            &&& left.tables[i].table_path == right.tables[i].table_path
            &&& left.tables[i].table_branch == right.tables[i].table_branch
        }
}

/// Under its gates a sidecar is read again as it is now, exactly where it can be read and
/// coordinates as the one that was listed.
pub proof fn lemma_when_a_sidecar_is_read_again(
    root: Seq<char>,
    listed: RecoverySidecarModel,
    body: SidecarBodyModel,
)
    ensures
        ({
            let result = reread(root, listed, body);
            let current = admitted(root, uri_of(root, listed.operation_id), body);
            &&& result is Ok <==> current is Ok && coordinate_alike(current->Ok_0, listed)
            &&& result is Ok ==> result->Ok_0 == current->Ok_0
        }),
{
    let current = admitted(root, uri_of(root, listed.operation_id), body)->Ok_0;
    let left = coordination_keys(current);
    let right = coordination_keys(listed);
    if left == right {
        assert(left.len() == current.tables.len() && right.len() == listed.tables.len());
        assert forall|i: int| 0 <= i < current.tables.len() implies {
            &&& (#[trigger] current.tables[i]).identity == listed.tables[i].identity
            &&& current.tables[i].table_key == listed.tables[i].table_key
            &&& current.tables[i].table_path == listed.tables[i].table_path
            &&& current.tables[i].table_branch == listed.tables[i].table_branch
        } by {
            assert(left[i] == right[i]);
        }
    }
    if coordinate_alike(current, listed) {
        assert forall|i: int| 0 <= i < left.len() implies left[i] == right[i] by {
            let pin = current.tables[i];
        }
        assert(left =~= right);
    }
}

/// A pin that is stamped has the version that was reached for its table, and is otherwise
/// as it was.
pub proof fn lemma_what_a_stamped_pin_is(
    pin: SidecarTablePinModel,
    reached: Map<TableIdentity, u64>,
)
    ensures
        ({
            let after = stamped(pin, reached);
            &&& after.confirmed_version == Some(reached[pin.identity])
            &&& after.identity == pin.identity
            &&& after.table_key == pin.table_key
            &&& after.table_path == pin.table_path
            &&& after.expected_version == pin.expected_version
            &&& after.post_commit_pin == pin.post_commit_pin
            &&& after.table_branch == pin.table_branch
        }),
{
}

/// A sweep recovers a sidecar against the branch of its attempt, and discards one whose
/// branch is gone; main is never gone. The schema is reconciled for schema applies alone,
/// which share one queue of no branch.
pub proof fn lemma_what_a_sweep_works_on(
    sidecar: &RecoverySidecar,
    branches: &Vec<String>,
    target: SweepTarget,
    reconciles: bool,
    queue: TableQueueKey,
)
    requires
        call_ensures(sweep_target, (sidecar, branches), target),
        call_ensures(reconciles_schema, (sidecar,), reconciles),
        call_ensures(schema_apply_serial_queue_key, (), queue),
    ensures
        target is Main <==> sidecar@.branch is None,
        target is Branch <==> sidecar@.branch is Some && views(branches@).contains(
            sidecar@.branch->0,
        ),
        target is Branch ==> target->Branch_0@ == sidecar@.branch->0,
        target is Orphaned <==> sidecar@.branch is Some && !views(branches@).contains(
            sidecar@.branch->0,
        ),
        reconciles <==> sidecar.writer_kind == SidecarKind::SchemaApply,
        queue.0@ == "__schema_apply__"@,
        queue.1 is None,
{
}

/// The number of sidecars that healing left in place is the number of times that it did so.
pub proof fn lemma_how_many_are_left(events: Seq<HealEvent>, n: int) -> (left: Seq<int>)
    requires
        0 <= n <= events.len(),
    ensures
        picks(left, n, |i: int| events[i] is LeftInPlace),
        left_count(events, n) == left.len(),
{
    let keep = |i: int| events[i] is LeftInPlace;
    lemma_places(n, keep);
    lemma_left(events, n);
    places(n, keep)
}

proof fn lemma_left(events: Seq<HealEvent>, n: int)
    requires
        0 <= n <= events.len(),
    ensures
        left_count(events, n) == places(n, |i: int| events[i] is LeftInPlace).len(),
    decreases n,
{
    if n > 0 {
        lemma_left(events, n - 1);
    }
}

/// Whether a row can be read as what it is: a table has a place, a version its number, its
/// count and its metadata, a removal its number, and a commit, where lineage is read, its
/// number and its metadata.
pub open spec fn row_readable(row: ManifestRowModel, metadata: RowMetadata, lineage: bool) -> bool {
    &&& row.object_type == "table"@ ==> row.location is Some
    &&& row.object_type == "table_version"@ ==> {
        &&& row.table_version is Some
        &&& row.row_count is Some
        &&& row.metadata is Some
        &&& metadata->Table_0 is Ok
    }
    &&& row.object_type == "table_tombstone"@ ==> row.table_version is Some
    &&& lineage && row.object_type == "graph_commit"@ ==> {
        &&& row.metadata is Some
        &&& metadata->Commit_0 is Ok
        &&& row.table_version is Some
    }
}

/// Whether an entry is the version that a row tells of.
pub open spec fn entry_of_row(
    entry: SubTableEntryModel,
    row: ManifestRowModel,
    metadata: RowMetadata,
) -> bool {
    &&& entry.table_key == row.table_key
    &&& Some(entry.table_version) == row.table_version
    &&& entry.table_branch == row.table_branch
    &&& Some(entry.row_count) == row.row_count
    &&& entry.version_metadata == (metadata->Table_0)->Ok_0@
}

/// Whether a commit is the one that a row tells of.
pub open spec fn commit_of(
    commit: GraphLineageRowModel,
    row: ManifestRowModel,
    metadata: crate::lineage::GraphCommitMetadataModel,
) -> bool {
    &&& commit.graph_commit_id == row.object_id
    &&& commit.manifest_branch == row.table_branch
    &&& Some(commit.manifest_version) == row.table_version
    &&& commit.parent_commit_id == metadata.parent_commit_id
    &&& commit.merged_parent_commit_id == metadata.merged_parent_commit_id
    &&& commit.actor_id == metadata.actor_id
    &&& commit.created_at == metadata.created_at
}

/// The rows of one type, in order.
pub open spec fn of_type(rows: Seq<ManifestRowModel>, n: int, name: Seq<char>) -> Seq<int> {
    places(n, |i: int| rows[i].object_type == name)
}

/// A scan of a manifest collects, each in the order of its rows, the places of its tables,
/// the versions, the removals and, where lineage is read, the commits, and nothing else. It
/// fails exactly where a row cannot be read as what it is.
pub proof fn lemma_what_a_scan_collects(
    rows: Seq<ManifestRowModel>,
    metadata: Seq<RowMetadata>,
    lineage: bool,
    n: int,
)
    requires
        0 <= n <= rows.len(),
    ensures
        ({
            let result = with_rows(ManifestScanModel::nothing(), rows, metadata, lineage, n);
            let scan = result->Ok_0;
            let tables = of_type(rows, n, "table"@);
            let versions = of_type(rows, n, "table_version"@);
            let removals = of_type(rows, n, "table_tombstone"@);
            let commits = of_type(rows, n, "graph_commit"@);
            &&& result is Ok <==> (forall|i: int|
                0 <= i < n ==> row_readable(#[trigger] rows[i], metadata[i], lineage))
            &&& result is Ok ==> {
                &&& scan.table_locations.len() == tables.len()
                &&& forall|k: int|
                    0 <= k < tables.len() ==> scan.table_locations[k].0 == rows[
                    #[trigger] tables[k]].table_key && Some(scan.table_locations[k].1)
                        == rows[tables[k]].location
                &&& scan.version_entries.len() == versions.len()
                &&& forall|k: int|
                    0 <= k < versions.len() ==> entry_of_row(
                        scan.version_entries[k],
                        rows[#[trigger] versions[k]],
                        metadata[versions[k]],
                    )
                &&& scan.tombstones.len() == removals.len()
                &&& forall|k: int|
                    0 <= k < removals.len() ==> scan.tombstones[k].0 == rows[
                    #[trigger] removals[k]].table_key && Some(scan.tombstones[k].1)
                        == rows[removals[k]].table_version
                &&& !lineage ==> scan.lineage_rows.len() == 0
                &&& lineage ==> scan.lineage_rows.len() == commits.len()
                &&& lineage ==> forall|k: int|
                    0 <= k < commits.len() ==> commit_of(
                        scan.lineage_rows[k],
                        rows[#[trigger] commits[k]],
                        (metadata[commits[k]]->Commit_0)->Ok_0@,
                    )
            }
        }),
    decreases n,
{
    reveal_strlit("table");
    reveal_strlit("table_version");
    reveal_strlit("table_tombstone");
    reveal_strlit("graph_commit");
    assert("table"@.len() == 5 && "table_version"@.len() == 13 && "table_tombstone"@.len() == 15
        && "graph_commit"@.len() == 12);
    if n > 0 {
        lemma_what_a_scan_collects(rows, metadata, lineage, n - 1);
        let before = with_rows(ManifestScanModel::nothing(), rows, metadata, lineage, n - 1);
        let result = with_rows(ManifestScanModel::nothing(), rows, metadata, lineage, n);
        assert(result is Ok <==> before is Ok && row_readable(
            rows[n - 1],
            metadata[n - 1],
            lineage,
        ));
        if before is Ok {
            assert forall|i: int| 0 <= i < n - 1 implies row_readable(
                #[trigger] rows[i],
                metadata[i],
                lineage,
            ) by {}
        }
    }
}

/// Whether a row of the lineage can be read as what it is.
pub open spec fn lineage_readable(row: ManifestRowModel, metadata: LineageMetadata) -> bool {
    &&& row.object_type == "graph_commit"@ ==> {
        &&& row.metadata is Some
        &&& metadata->Commit_0 is Ok
        &&& row.table_version is Some
    }
    &&& row.object_type == "graph_head"@ ==> row.metadata is Some && metadata->Head_0 is Ok
}

/// A lineage is read with every commit and every head of its rows, each in order; a head is
/// that of the branch that its name tells. It fails exactly where a row cannot be read as
/// what it is.
pub proof fn lemma_what_a_lineage_collects(
    rows: Seq<ManifestRowModel>,
    metadata: Seq<LineageMetadata>,
    n: int,
)
    requires
        0 <= n <= rows.len(),
    ensures
        ({
            let none = GraphLineageModel { commits: Seq::empty(), heads: Seq::empty() };
            let result = with_lineage_rows(none, rows, metadata, n);
            let lineage = result->Ok_0;
            let commits = of_type(rows, n, "graph_commit"@);
            let heads = of_type(rows, n, "graph_head"@);
            &&& result is Ok <==> (forall|i: int|
                0 <= i < n ==> lineage_readable(#[trigger] rows[i], metadata[i]))
            &&& result is Ok ==> {
                &&& lineage.commits.len() == commits.len()
                &&& forall|k: int|
                    0 <= k < commits.len() ==> commit_of(
                        lineage.commits[k],
                        rows[#[trigger] commits[k]],
                        (metadata[commits[k]]->Commit_0)->Ok_0@,
                    )
                &&& lineage.heads.len() == heads.len()
                &&& forall|k: int|
                    0 <= k < heads.len() ==> {
                        &&& lineage.heads[k].0 == head_branch(rows[#[trigger] heads[k]].object_id)
                        &&& lineage.heads[k].1
                            == (metadata[heads[k]]->Head_0)->Ok_0@.head_commit_id
                    }
            }
        }),
    decreases n,
{
    reveal_strlit("graph_head");
    reveal_strlit("graph_commit");
    assert("graph_head"@.len() == 10 && "graph_commit"@.len() == 12);
    if n > 0 {
        lemma_what_a_lineage_collects(rows, metadata, n - 1);
        let none = GraphLineageModel { commits: Seq::empty(), heads: Seq::empty() };
        let before = with_lineage_rows(none, rows, metadata, n - 1);
        let result = with_lineage_rows(none, rows, metadata, n);
        assert(result is Ok <==> before is Ok && lineage_readable(rows[n - 1], metadata[n - 1]));
        if before is Ok {
            assert forall|i: int| 0 <= i < n - 1 implies lineage_readable(
                #[trigger] rows[i],
                metadata[i],
            ) by {}
        }
    }
}

/// The head of a branch is kept under its name, and that of main under the name of main.
pub proof fn lemma_where_a_head_is_kept(branch: Seq<char>)
    ensures
        head_object_id(Some(branch)) == "graph_head:"@ + branch,
        head_object_id(None) == "graph_head:"@ + "main"@,
{
}

/// Of several commits the head is the one of the newest manifest version, of those the
/// youngest, of those the one with the last id, and of equal ones the last.
pub proof fn lemma_which_commit_is_the_head(rows: Seq<GraphLineageRowModel>, i: int, j: int)
    requires
        is_head(rows, i),
        0 <= j < rows.len(),
    ensures
        rows[j].manifest_version <= rows[i].manifest_version,
        rows[j].manifest_version == rows[i].manifest_version ==> rows[j].created_at
            <= rows[i].created_at,
        rows[j].manifest_version == rows[i].manifest_version && rows[j].created_at
            == rows[i].created_at ==> text_le(rows[j].graph_commit_id, rows[i].graph_commit_id),
        rows[j].manifest_version == rows[i].manifest_version && rows[j].created_at
            == rows[i].created_at && rows[j].graph_commit_id == rows[i].graph_commit_id ==> j <= i,
{
    assert(commit_le(rows[j], rows[i]));
    if j > i {
        assert(!commit_le(rows[i], rows[j]));
    }
}

/// Of several values under one key the last counts.
pub proof fn lemma_the_last_value_counts(pairs: Seq<(Seq<char>, Seq<char>)>, key: Seq<char>)
    ensures
        last_value(pairs, key) is None <==> (forall|i: int|
            0 <= i < pairs.len() ==> (#[trigger] pairs[i]).0 != key),
        last_value(pairs, key) is Some ==> exists|i: int|
            {
                &&& 0 <= i < pairs.len()
                &&& (#[trigger] pairs[i]).0 == key
                &&& last_value(pairs, key) == Some(pairs[i].1)
                &&& forall|j: int| i < j < pairs.len() ==> (#[trigger] pairs[j]).0 != key
            },
    decreases pairs.len(),
{
    if pairs.len() > 0 {
        let before = pairs.drop_last();
        let last = pairs.len() - 1;
        lemma_the_last_value_counts(before, key);
        assert(pairs.last() == pairs[last]);
        if pairs[last].0 != key {
            if last_value(before, key) is Some {
                let i = choose|i: int|
                    {
                        &&& 0 <= i < before.len()
                        &&& (#[trigger] before[i]).0 == key
                        &&& last_value(before, key) == Some(before[i].1)
                        &&& forall|j: int| i < j < before.len() ==> (#[trigger] before[j]).0 != key
                    };
                assert(pairs[i] == before[i]);
                assert forall|j: int| i < j < pairs.len() implies (#[trigger] pairs[j]).0 != key by {
                    if j < last {
                        assert(before[j] == pairs[j]);
                    }
                }
            } else {
                assert forall|i: int| 0 <= i < pairs.len() implies (#[trigger] pairs[i]).0
                    != key by {
                    if i < last {
                        assert(before[i] == pairs[i]);
                    }
                }
            }
        }
    }
}

/// A version of a table is live exactly where no other listed version of the table is newer,
/// it is the first of equal ones, and no removal of the table reaches it.
pub proof fn lemma_which_version_is_live(
    entries: Seq<SubTableEntryModel>,
    tombstones: Seq<(Seq<char>, u64)>,
    i: int,
)
    requires
        0 <= i < entries.len(),
    ensures
        is_live(entries, tombstones, i) <==> {
            &&& forall|j: int|
                0 <= j < entries.len() && (#[trigger] entries[j]).table_key
                    == entries[i].table_key ==> entries[j].table_version
                    <= entries[i].table_version
            &&& forall|j: int|
                0 <= j < i && (#[trigger] entries[j]).table_key == entries[i].table_key
                    ==> entries[j].table_version != entries[i].table_version
            &&& forall|k: int|
                0 <= k < tombstones.len() && (#[trigger] tombstones[k]).0 == entries[i].table_key
                    ==> tombstones[k].1 < entries[i].table_version
        },
{
    if is_live(entries, tombstones, i) {
        assert forall|k: int|
            0 <= k < tombstones.len() && (#[trigger] tombstones[k]).0
                == entries[i].table_key implies tombstones[k].1 < entries[i].table_version by {
            assert(!crate::state::sealed(
                tombstones,
                entries[i].table_key,
                entries[i].table_version,
            ));
        }
    }
}

/// A version gets the place of its table, and is otherwise as it was.
pub proof fn lemma_where_a_version_lies(
    entry: SubTableEntryModel,
    locations: Seq<(Seq<char>, Seq<char>)>,
)
    requires
        last_value(locations, entry.table_key) is Some,
    ensures
        ({
            let after = located(entry, locations);
            &&& Some(after.table_path) == last_value(locations, entry.table_key)
            &&& after.table_key == entry.table_key
            &&& after.table_version == entry.table_version
            &&& after.table_branch == entry.table_branch
            &&& after.row_count == entry.row_count
            &&& after.version_metadata == entry.version_metadata
        }),
{
}

/// A text starts with another exactly where the rest follows it, and ends with another
/// exactly where the rest stands before it.
pub proof fn lemma_starts_and_ends(text: Seq<char>, part: Seq<char>)
    ensures
        starts_with(text, part) <==> exists|rest: Seq<char>| text == #[trigger] (part + rest),
        ends_with(text, part) <==> exists|rest: Seq<char>| text == #[trigger] (rest + part),
{
    if starts_with(text, part) {
        let rest = text.subrange(part.len() as int, text.len() as int);
        assert(text =~= part + rest);
    }
    if exists|rest: Seq<char>| text == #[trigger] (part + rest) {
        let rest = choose|rest: Seq<char>| text == #[trigger] (part + rest);
        assert(text.subrange(0, part.len() as int) =~= part);
    }
    if ends_with(text, part) {
        let rest = text.subrange(0, text.len() - part.len());
        assert(text =~= rest + part);
    }
    if exists|rest: Seq<char>| text == #[trigger] (rest + part) {
        let rest = choose|rest: Seq<char>| text == #[trigger] (rest + part);
        assert(text.subrange(text.len() - part.len(), text.len() as int) =~= part);
    }
}

/// Trimming takes the slashes at one end of a text, all of them and nothing else.
pub proof fn lemma_trimming(text: Seq<char>)
    ensures
        ({
            let end = trimmed_end(text);
            &&& end.len() <= text.len()
            &&& forall|i: int| 0 <= i < end.len() ==> #[trigger] end[i] == text[i]
            &&& forall|i: int| end.len() <= i < text.len() ==> #[trigger] text[i] == '/'
            &&& end.len() > 0 ==> end.last() != '/'
        }),
        ({
            let start = trimmed_start(text);
            let gone = text.len() - start.len();
            &&& 0 <= gone
            &&& forall|i: int| 0 <= i < start.len() ==> #[trigger] start[i] == text[gone + i]
            &&& forall|i: int| 0 <= i < gone ==> #[trigger] text[i] == '/'
            &&& start.len() > 0 ==> start.first() != '/'
        }),
    decreases text.len(),
{
    if text.len() > 0 {
        lemma_trimming(text.drop_last());
        lemma_trimming(text.drop_first());
        let end = trimmed_end(text);
        if text.last() == '/' {
            assert forall|i: int| end.len() <= i < text.len() implies #[trigger] text[i]
                == '/' by {
                if i < text.len() - 1 {
                    assert(text.drop_last()[i] == '/');
                }
            }
            assert forall|i: int| 0 <= i < end.len() implies #[trigger] end[i] == text[i] by {
                assert(text.drop_last()[i] == text[i]);
            }
        }
        let start = trimmed_start(text);
        if text.first() == '/' {
            let rest = text.drop_first();
            let gone = text.len() - start.len();
            assert forall|i: int| 0 <= i < gone implies #[trigger] text[i] == '/' by {
                if i > 0 {
                    assert(rest[i - 1] == '/');
                }
            }
            assert forall|i: int| 0 <= i < start.len() implies #[trigger] start[i] == text[gone
                + i] by {
                assert(start[i] == rest[(gone - 1) + i]);
            }
        }
    }
}

/// Texts are ordered by the first character in which they differ; one that goes on where
/// the other ends comes later.
pub proof fn lemma_how_texts_are_ordered(a: Seq<char>, b: Seq<char>, k: int)
    requires
        0 <= k <= a.len(),
        k <= b.len(),
        forall|i: int| 0 <= i < k ==> #[trigger] a[i] == b[i],
        k < a.len() && k < b.len() ==> a[k] != b[k],
    ensures
        text_lt(a, b) <==> k < b.len() && (k == a.len() || (a[k] as int) < (b[k] as int)),
    decreases k,
{
    if k > 0 {
        assert(a[0] == b[0]);
        assert forall|i: int| 0 <= i < k - 1 implies #[trigger] a.drop_first()[i]
            == b.drop_first()[i] by {
            assert(a[i + 1] == b[i + 1]);
        }
        lemma_how_texts_are_ordered(a.drop_first(), b.drop_first(), k - 1);
    }
}

/// A text is an integer exactly where it is digits, one at least, behind a sign or none;
/// a minus makes it negative.
pub proof fn lemma_when_a_text_is_an_integer(digits: Seq<char>)
    requires
        digits.len() > 0 ==> digits[0] != '-' && digits[0] != '+',
    ensures
        ({
            let proper = digits.len() > 0 && forall|i: int|
                0 <= i < digits.len() ==> '0' <= #[trigger] digits[i] <= '9';
            &&& integer_of(digits) is Some <==> proper
            &&& integer_of(seq!['-'] + digits) is Some <==> proper
            &&& integer_of(seq!['+'] + digits) is Some <==> proper
            &&& proper ==> integer_of(digits)->0 == number(digits)
            &&& proper ==> integer_of(seq!['+'] + digits)->0 == number(digits)
            &&& proper ==> integer_of(seq!['-'] + digits)->0 == -number(digits)
        }),
{
    assert((seq!['-'] + digits).drop_first() =~= digits);
    assert((seq!['+'] + digits).drop_first() =~= digits);
    assert(crate::text::unsigned_part(digits) == digits);
    assert(crate::text::unsigned_part(seq!['-'] + digits) == digits);
    assert(crate::text::unsigned_part(seq!['+'] + digits) == digits);
    if crate::text::all_digits(digits) {
        assert forall|i: int| 0 <= i < digits.len() implies '0' <= #[trigger] digits[i] <= '9' by {
            assert(crate::text::is_digit(digits[i]));
        }
    }
}

/// The version of a table is checked before anything is staged for exactly what is computed
/// from what the table holds: inserting and merging rows is not.
pub proof fn lemma_when_a_version_is_checked(op: MutationOpKind, strict: bool)
    requires
        call_ensures(MutationOpKind::strict_pre_stage_version_check, (op,), strict),
    ensures
        op is Insert || op is Merge ==> !strict,
        op is Update || op is Delete || op is SchemaRewrite ==> strict,
{
}

/// The one branch that belongs to the system is the lock of a schema apply, with or without
/// slashes in front.
pub proof fn lemma_which_branch_is_a_lock(name: Seq<char>)
    ensures
        is_lock_branch(name) <==> trimmed_start(name) == "__schema_apply_lock__"@,
{
}

/// A table is written as two rows: one that says where it lies, and nothing else of it, and
/// one that says its version, in every field.
pub proof fn lemma_how_a_table_is_written(
    entry: SubTableEntryModel,
    object_id: Seq<char>,
    metadata: Seq<char>,
)
    ensures
        ({
            let table = table_row(entry);
            &&& table.object_id == entry.table_key
            &&& table.object_type == "table"@
            &&& table.location == Some(entry.table_path)
            &&& table.metadata is None
            &&& table.table_key == entry.table_key
            &&& table.table_version is None
            &&& table.table_branch is None
            &&& table.row_count is None
        }),
        ({
            let version = version_row(entry, object_id, metadata);
            &&& version.object_id == object_id
            &&& version.object_type == "table_version"@
            &&& version.location is None
            &&& version.metadata == Some(metadata)
            &&& version.table_key == entry.table_key
            &&& version.table_version == Some(entry.table_version)
            &&& version.table_branch == entry.table_branch
            &&& version.row_count == Some(entry.row_count)
        }),
{
}

/// A commit is written as a row of its own, under its id, with its manifest version and its
/// branch; the head of a branch as a row under the name of the branch, with its metadata
/// alone.
pub proof fn lemma_how_a_commit_is_written(commit: GraphLineageRowModel, metadata: Seq<char>)
    ensures
        ({
            let part = commit_part(commit, metadata);
            let row = part_row(part);
            &&& row.object_id == commit.graph_commit_id
            &&& row.object_type == "graph_commit"@
            &&& row.location is None
            &&& row.metadata == Some(metadata)
            &&& row.table_key.len() == 0
            &&& row.table_version == Some(commit.manifest_version)
            &&& row.table_branch == commit.manifest_branch
            &&& row.row_count is None
        }),
        ({
            let row = part_row(head_part(commit.manifest_branch, metadata));
            &&& row.object_id == head_object_id(commit.manifest_branch)
            &&& row.object_type == "graph_head"@
            &&& row.location is None
            &&& row.metadata == Some(metadata)
            &&& row.table_key.len() == 0
            &&& row.table_version is None
            &&& row.table_branch is None
            &&& row.row_count is None
        }),
        ({
            let told = commit_metadata(commit);
            &&& told.parent_commit_id == commit.parent_commit_id
            &&& told.merged_parent_commit_id == commit.merged_parent_commit_id
            &&& told.actor_id == commit.actor_id
            &&& told.created_at == commit.created_at
        }),
{
}

/// A sidecar that is left in place is told of by its attempt, its writer, its branch, where
/// main has no name, and the aliases of its tables: all of them and no other, each once, in
/// order.
pub proof fn lemma_how_a_left_sidecar_is_told(
    sidecar: &RecoverySidecar,
    intent: UnresolvedRecoveryIntent,
)
    requires
        call_ensures(unresolved_intent, (sidecar,), intent),
    ensures
        ({
            let keys = views(intent.table_keys@);
            &&& intent.operation_id@ == sidecar.operation_id@
            &&& intent.writer_kind == sidecar.writer_kind
            &&& intent@.branch == branch_in_lineage(sidecar@.branch)
            &&& forall|alias: Seq<char>| #[trigger]
                keys.contains(alias) <==> pinned_as(sidecar@.tables, alias)
            &&& forall|i: int, j: int|
                0 <= i < j < keys.len() ==> text_lt(#[trigger] keys[i], #[trigger] keys[j])
        }),
{
    let keys = views(intent.table_keys@);
    let pins = sidecar@.tables;
    assert forall|alias: Seq<char>| #[trigger] keys.contains(alias) <==> pinned_as(pins, alias) by {
        if keys.contains(alias) {
            let k = choose|k: int| 0 <= k < keys.len() && keys[k] == alias;
            assert(keys[k] == alias);
        }
        if pinned_as(pins, alias) {
            let i = choose|i: int| 0 <= i < pins.len() && (#[trigger] pins[i]).table_key == alias;
            assert(keys.contains(pins[i].table_key));
        }
    }
}

/// Commits are ordered by their manifest version, those of one version by their time, and
/// those of one time by their id.
pub proof fn lemma_how_commits_are_ordered(a: GraphLineageRowModel, b: GraphLineageRowModel)
    ensures
        commit_le(a, b) <==> {
            ||| a.manifest_version < b.manifest_version
            ||| a.manifest_version == b.manifest_version && a.created_at < b.created_at
            ||| a.manifest_version == b.manifest_version && a.created_at == b.created_at && (
            a.graph_commit_id == b.graph_commit_id || text_lt(
                a.graph_commit_id,
                b.graph_commit_id,
            ))
        },
{
}

/// The versions of a manifest are ordered by their alias, and those of one alias by their
/// number.
pub proof fn lemma_how_versions_are_ordered(a: SubTableEntryModel, b: SubTableEntryModel)
    ensures
        SubTableEntry::rank_le(a, b) <==> {
            ||| text_lt(a.table_key, b.table_key)
            ||| a.table_key == b.table_key && a.table_version <= b.table_version
        },
{
    lemma_text_irreflexive(a.table_key);
}

proof fn lemma_text_irreflexive(a: Seq<char>)
    ensures
        !text_lt(a, a),
    decreases a.len(),
{
    if a.len() > 0 {
        lemma_text_irreflexive(a.drop_first());
    }
}

/// Healing changed something durable exactly where it discarded or finished a sidecar: one
/// that was gone already or was left in place changes nothing.
pub proof fn lemma_what_healing_changes(event: HealEvent)
    ensures
        event is Discarded || event is Finished ==> is_durable(event),
        event is Gone || event is LeftInPlace ==> !is_durable(event),
{
}

/// A fresh manifest can be written exactly where every table has the metadata of its
/// version.
pub proof fn lemma_when_a_fresh_manifest_is_written(
    entries: Seq<SubTableEntryModel>,
    metadata: Seq<(Seq<char>, Seq<char>)>,
)
    ensures
        first_defect(undescribed(entries, metadata)) is None <==> (forall|i: int|
            0 <= i < entries.len() ==> last_value(
                metadata,
                (#[trigger] entries[i]).table_key,
            ) is Some),
{
    let findings = undescribed(entries, metadata);
    lemma_reported_is_the_first(findings);
    if first_defect(findings) is None {
        assert forall|i: int| 0 <= i < entries.len() implies last_value(
            metadata,
            (#[trigger] entries[i]).table_key,
        ) is Some by {
            assert(findings[i] is None);
        }
    } else {
        let i = choose|i: int|
            {
                &&& 0 <= i < findings.len()
                &&& #[trigger] findings[i] == first_defect(findings)
                &&& forall|j: int| 0 <= j < i ==> (#[trigger] findings[j]) is None
            };
        let entry = entries[i];
        assert(last_value(metadata, entry.table_key) is None);
    }
}

} // verus!
