//! What the rows of the manifest select.

use vstd::prelude::*;

use crate::error::OmniErrorModel;
use crate::lineage::{
    last_value, GraphLineageRowPartModel, OBJECT_TYPE_GRAPH_COMMIT, OBJECT_TYPE_GRAPH_HEAD,
    OBJECT_TYPE_TABLE, OBJECT_TYPE_TABLE_TOMBSTONE, OBJECT_TYPE_TABLE_VERSION,
};
use crate::order::{in_order, lemma_ranked, lemma_text_total, ranked};
use crate::rows::ManifestRowModel;
use crate::shape::defect::{first_defect, lemma_no_defect};
use crate::snapshot::{SubTableEntry, SubTableEntryModel};
use crate::state::{
    assembled, initial_rows, is_latest, is_live, live_entries, located_entries, part_rows, sealed,
    table_row, table_rows, unlocated, version_row, with_row, with_rows, ManifestScanModel,
    RowMetadata,
};

verus! {

/// Whether no two entries are of the same table.
pub open spec fn tables_distinct(entries: Seq<SubTableEntryModel>) -> bool {
    forall|i: int, j: int|
        0 <= i < entries.len() && 0 <= j < entries.len() && i != j ==> (
        #[trigger] entries[i]).table_key != (#[trigger] entries[j]).table_key
}

/// Whether an entry is one of the first `n`, and live.
pub open spec fn is_live_member(
    entries: Seq<SubTableEntryModel>,
    tombstones: Seq<(Seq<char>, u64)>,
    n: int,
    entry: SubTableEntryModel,
) -> bool {
    exists|i: int|
        0 <= i < n && is_live(entries, tombstones, i) && #[trigger] entries[i] == entry
}

/// The live entries among the first `n` are those, each once.
proof fn lemma_live_entries(
    entries: Seq<SubTableEntryModel>,
    tombstones: Seq<(Seq<char>, u64)>,
    n: int,
)
    requires
        0 <= n <= entries.len(),
    ensures
        tables_distinct(live_entries(entries, tombstones, n)),
        forall|k: int|
            0 <= k < live_entries(entries, tombstones, n).len() ==> is_live_member(
                entries,
                tombstones,
                n,
                #[trigger] live_entries(entries, tombstones, n)[k],
            ),
        forall|i: int|
            0 <= i < n && is_live(entries, tombstones, i) ==> live_entries(
                entries,
                tombstones,
                n,
            ).contains(#[trigger] entries[i]),
    decreases n,
{
    if n > 0 {
        lemma_live_entries(entries, tombstones, n - 1);
        let before = live_entries(entries, tombstones, n - 1);
        let all = live_entries(entries, tombstones, n);
        if is_live(entries, tombstones, n - 1) {
            assert forall|k: int| 0 <= k < before.len() implies (#[trigger] before[k]).table_key
                != entries[n - 1].table_key by {
                let i = choose|i: int|
                    0 <= i < n - 1 && is_live(entries, tombstones, i) && #[trigger] entries[i]
                        == before[k];
                if entries[i].table_key == entries[n - 1].table_key {
                    assert(is_latest(entries, i));
                    assert(is_latest(entries, n - 1));
                }
            }
            assert forall|i: int| 0 <= i < n && is_live(entries, tombstones, i) implies all.contains(
                #[trigger] entries[i],
            ) by {
                if i < n - 1 {
                    assert(before.contains(entries[i]));
                    let k = choose|k: int| 0 <= k < before.len() && before[k] == entries[i];
                    assert(all[k] == entries[i]);
                } else {
                    assert(all[before.len() as int] == entries[i]);
                }
            }
            assert forall|k: int| 0 <= k < all.len() implies is_live_member(
                entries,
                tombstones,
                n,
                #[trigger] all[k],
            ) by {
                if k < before.len() {
                    let i = choose|i: int|
                        0 <= i < n - 1 && is_live(entries, tombstones, i) && #[trigger] entries[i]
                            == before[k];
                    assert(entries[i] == all[k]);
                } else {
                    assert(entries[n - 1] == all[k]);
                }
            }
        } else {
            assert forall|k: int| 0 <= k < all.len() implies is_live_member(
                entries,
                tombstones,
                n,
                #[trigger] all[k],
            ) by {
                let i = choose|i: int|
                    0 <= i < n - 1 && is_live(entries, tombstones, i) && #[trigger] entries[i]
                        == before[k];
                assert(entries[i] == all[k]);
            }
        }
    }
}

/// Sorting keeps the members, and keeps different tables different.
proof fn lemma_ranked_entries(entries: Seq<SubTableEntryModel>)
    ensures
        in_order::<SubTableEntry>(ranked::<SubTableEntry>(entries)),
        forall|x: SubTableEntryModel|
            ranked::<SubTableEntry>(entries).contains(x) <==> entries.contains(x),
        tables_distinct(entries) ==> tables_distinct(ranked::<SubTableEntry>(entries)),
{
    broadcast use vstd::seq_lib::group_to_multiset_ensures;

    let sorted = ranked::<SubTableEntry>(entries);
    lemma_ranked::<SubTableEntry>(entries);
    assert forall|x: SubTableEntryModel| sorted.contains(x) <==> entries.contains(x) by {
        assert(sorted.contains(x) <==> sorted.to_multiset().count(x) > 0);
        assert(entries.contains(x) <==> entries.to_multiset().count(x) > 0);
    }
    if tables_distinct(entries) {
        assert(entries.no_duplicates());
        entries.lemma_multiset_has_no_duplicates();
        sorted.lemma_multiset_has_no_duplicates_conv();
        assert forall|i: int, j: int|
            0 <= i < sorted.len() && 0 <= j < sorted.len() && i != j implies (
        #[trigger] sorted[i]).table_key != (#[trigger] sorted[j]).table_key by {
            assert(sorted.contains(sorted[i]) && sorted.contains(sorted[j]));
            let a = choose|a: int| 0 <= a < entries.len() && entries[a] == sorted[i];
            let b = choose|b: int| 0 <= b < entries.len() && entries[b] == sorted[j];
            assert(sorted[i] != sorted[j]);
            assert(a != b);
        }
    }
}

/// The state that the manifest selects is in order, holds each table at most once,
/// and holds exactly the live entries: the latest of their tables, unless a removal
/// covers it.
pub proof fn lemma_state_is_live(
    entries: Seq<SubTableEntryModel>,
    tombstones: Seq<(Seq<char>, u64)>,
)
    ensures
        in_order::<SubTableEntry>(assembled(entries, tombstones)),
        tables_distinct(assembled(entries, tombstones)),
        forall|i: int|
            0 <= i < entries.len() && is_live(entries, tombstones, i) ==> assembled(
                entries,
                tombstones,
            ).contains(#[trigger] entries[i]),
        forall|k: int|
            0 <= k < assembled(entries, tombstones).len() ==> is_live_member(
                entries,
                tombstones,
                entries.len() as int,
                #[trigger] assembled(entries, tombstones)[k],
            ),
{
    let n = entries.len() as int;
    let live = live_entries(entries, tombstones, n);
    lemma_live_entries(entries, tombstones, n);
    lemma_ranked_entries(live);
    let state = assembled(entries, tombstones);
    assert forall|k: int| 0 <= k < state.len() implies is_live_member(
        entries,
        tombstones,
        n,
        #[trigger] state[k],
    ) by {
        assert(state.contains(state[k]));
        assert(live.contains(state[k]));
        let m = choose|m: int| 0 <= m < live.len() && live[m] == state[k];
        assert(is_live_member(entries, tombstones, n, live[m]));
    }
}

/// A removal covers every version of its table up to its own: none of them is
/// selected.
pub proof fn lemma_removed_is_not_selected(
    entries: Seq<SubTableEntryModel>,
    tombstones: Seq<(Seq<char>, u64)>,
    t: int,
    k: int,
)
    requires
        0 <= t < tombstones.len(),
        0 <= k < assembled(entries, tombstones).len(),
        assembled(entries, tombstones)[k].table_key == tombstones[t].0,
    ensures
        assembled(entries, tombstones)[k].table_version > tombstones[t].1,
{
    lemma_state_is_live(entries, tombstones);
    let entry = assembled(entries, tombstones)[k];
    let i = choose|i: int|
        0 <= i < entries.len() && is_live(entries, tombstones, i) && #[trigger] entries[i] == entry;
    assert(!sealed(tombstones, entries[i].table_key, entries[i].table_version));
    assert(tombstones[t].0 == entries[i].table_key);
}

/// What is in order stays as it is when it is sorted.
proof fn lemma_ranked_again(entries: Seq<SubTableEntryModel>)
    requires
        in_order::<SubTableEntry>(entries),
    ensures
        ranked::<SubTableEntry>(entries) == entries,
    decreases entries.len(),
{
    if entries.len() > 0 {
        let rest = entries.drop_last();
        lemma_ordered_front(entries);
        lemma_ranked_again(rest);
        if rest.len() > 0 {
            assert(<SubTableEntry as crate::order::Ranked>::rank_le(
                entries[rest.len() - 1],
                entries[entries.len() - 1],
            ));
        }
        assert(rest.push(entries.last()) =~= entries);
    }
}

/// Where every table has one entry and nothing was removed, all entries are live.
proof fn lemma_all_live(entries: Seq<SubTableEntryModel>, n: int)
    requires
        tables_distinct(entries),
        0 <= n <= entries.len(),
    ensures
        live_entries(entries, Seq::empty(), n) == entries.subrange(0, n),
    decreases n,
{
    if n > 0 {
        lemma_all_live(entries, n - 1);
        assert(is_latest(entries, n - 1)) by {
            assert forall|j: int|
                0 <= j < entries.len() && j != n - 1 && (#[trigger] entries[j]).table_key
                    == entries[n - 1].table_key implies false by {}
        }
        assert(entries.subrange(0, n) =~= entries.subrange(0, n - 1).push(entries[n - 1]));
    } else {
        assert(entries.subrange(0, 0) =~= Seq::empty());
    }
}

/// Selecting from a state gives the state back: assembling is idempotent.
pub proof fn lemma_state_is_stable(
    entries: Seq<SubTableEntryModel>,
    tombstones: Seq<(Seq<char>, u64)>,
)
    ensures
        assembled(assembled(entries, tombstones), Seq::empty()) == assembled(entries, tombstones),
{
    let state = assembled(entries, tombstones);
    lemma_state_is_live(entries, tombstones);
    lemma_all_live(state, state.len() as int);
    assert(state.subrange(0, state.len() as int) =~= state);
    lemma_ranked_again(state);
}

/// Whether no two entries are of the same version of a table.
pub open spec fn versions_distinct(entries: Seq<SubTableEntryModel>) -> bool {
    forall|i: int, j: int|
        0 <= i < entries.len() && 0 <= j < entries.len() && i != j && (
        #[trigger] entries[i]).table_key == (#[trigger] entries[j]).table_key
            ==> entries[i].table_version != entries[j].table_version
}

/// Two lists with the same elements as often hold the same.
proof fn lemma_same_members<A>(a: Seq<A>, b: Seq<A>)
    requires
        a.to_multiset() == b.to_multiset(),
    ensures
        forall|x: A| #[trigger] a.contains(x) <==> b.contains(x),
{
    broadcast use vstd::seq_lib::group_to_multiset_ensures;

    assert forall|x: A| #[trigger] a.contains(x) <==> b.contains(x) by {
        assert(a.contains(x) <==> a.to_multiset().count(x) > 0);
        assert(b.contains(x) <==> b.to_multiset().count(x) > 0);
    }
}

/// Two ordered lists of the same tables, each at most once, are the same.
proof fn lemma_one_order(a: Seq<SubTableEntryModel>, b: Seq<SubTableEntryModel>)
    requires
        in_order::<SubTableEntry>(a),
        in_order::<SubTableEntry>(b),
        tables_distinct(a),
        tables_distinct(b),
        forall|x: SubTableEntryModel| #[trigger] a.contains(x) <==> b.contains(x),
    ensures
        a == b,
    decreases a.len(),
{
    if a.len() == 0 {
        if b.len() > 0 {
            assert(b.contains(b[0]));
            assert(a.contains(b[0]));
        }
        assert(a =~= b);
    } else {
        let i = a.len() - 1;
        let j = b.len() - 1;
        assert(a.contains(a[i]));
        assert(b.contains(a[i]));
        assert(b.contains(b[j]));
        assert(a.contains(b[j]));
        let k = choose|k: int| 0 <= k < b.len() && b[k] == a[i];
        let m = choose|m: int| 0 <= m < a.len() && a[m] == b[j];
        assert(<SubTableEntry as crate::order::Ranked>::rank_le(b[k], b[j]));
        assert(<SubTableEntry as crate::order::Ranked>::rank_le(a[m], a[i]));
        lemma_text_total(a[i].table_key, b[j].table_key);
        lemma_text_total(b[j].table_key, a[i].table_key);
        assert(a[m].table_key == a[i].table_key);
        assert(a[i] == b[j]);
        let (x, y) = (a.drop_last(), b.drop_last());
        assert forall|e: SubTableEntryModel| #[trigger] x.contains(e) <==> y.contains(e) by {
            if x.contains(e) {
                let n = choose|n: int| 0 <= n < x.len() && x[n] == e;
                assert(a[n] == e && a[n].table_key != a[i].table_key);
                assert(a.contains(e));
                let n2 = choose|n2: int| 0 <= n2 < b.len() && b[n2] == e;
                assert(y[n2] == e);
            }
            if y.contains(e) {
                let n = choose|n: int| 0 <= n < y.len() && y[n] == e;
                assert(b[n] == e && b[n].table_key != b[j].table_key);
                assert(b.contains(e));
                assert(a.contains(e));
                let n2 = choose|n2: int| 0 <= n2 < a.len() && a[n2] == e;
                assert(x[n2] == e);
            }
        }
        lemma_ordered_front(a);
        lemma_ordered_front(b);
        lemma_one_order(x, y);
        assert(a =~= x.push(a[i]));
        assert(b =~= y.push(b[j]));
    }
}

/// What is in order stays so without its last entry.
proof fn lemma_ordered_front(entries: Seq<SubTableEntryModel>)
    requires
        in_order::<SubTableEntry>(entries),
        entries.len() > 0,
    ensures
        in_order::<SubTableEntry>(entries.drop_last()),
{
    let rest = entries.drop_last();
    assert forall|i: int, j: int| 0 <= i <= j < rest.len() implies
        <SubTableEntry as crate::order::Ranked>::rank_le(#[trigger] rest[i], #[trigger] rest[j]) by {
        assert(<SubTableEntry as crate::order::Ranked>::rank_le(entries[i], entries[j]));
    }
}

/// What one list of entries and removals selects, another with the same members
/// selects too.
proof fn lemma_selected_in_both(
    a: Seq<SubTableEntryModel>,
    b: Seq<SubTableEntryModel>,
    removed: Seq<(Seq<char>, u64)>,
    gone: Seq<(Seq<char>, u64)>,
    entry: SubTableEntryModel,
)
    requires
        versions_distinct(b),
        forall|x: SubTableEntryModel| #[trigger] a.contains(x) <==> b.contains(x),
        forall|x: (Seq<char>, u64)| #[trigger] removed.contains(x) <==> gone.contains(x),
        assembled(a, removed).contains(entry),
    ensures
        assembled(b, gone).contains(entry),
{
    lemma_state_is_live(a, removed);
    lemma_state_is_live(b, gone);
    let state = assembled(a, removed);
    let k = choose|k: int| 0 <= k < state.len() && state[k] == entry;
    assert(is_live_member(a, removed, a.len() as int, state[k]));
    let i = choose|i: int|
        0 <= i < a.len() && is_live(a, removed, i) && #[trigger] a[i] == entry;
    assert(a.contains(a[i]));
    let j = choose|j: int| 0 <= j < b.len() && b[j] == entry;
    assert forall|m: int|
        0 <= m < b.len() && m != j && (#[trigger] b[m]).table_key == b[j].table_key implies
        b[m].table_version < b[j].table_version by {
        assert(b.contains(b[m]));
        assert(a.contains(b[m]));
        let n = choose|n: int| 0 <= n < a.len() && a[n] == b[m];
        assert(is_latest(a, i));
    }
    assert(is_latest(b, j));
    if sealed(gone, entry.table_key, entry.table_version) {
        let m = choose|m: int|
            0 <= m < gone.len() && (#[trigger] gone[m]).0 == entry.table_key && gone[m].1
                >= entry.table_version;
        assert(gone.contains(gone[m]));
        assert(removed.contains(gone[m]));
        let n = choose|n: int| 0 <= n < removed.len() && removed[n] == gone[m];
        assert(removed[n].0 == entry.table_key);
    }
    assert(is_live(b, gone, j));
}

/// The state does not depend on the order in which the manifest lists its entries,
/// where no version of a table is listed twice, nor on the order and number of its
/// removals.
pub proof fn lemma_state_ignores_order(
    a: Seq<SubTableEntryModel>,
    b: Seq<SubTableEntryModel>,
    removed: Seq<(Seq<char>, u64)>,
    gone: Seq<(Seq<char>, u64)>,
)
    requires
        versions_distinct(a),
        a.to_multiset() == b.to_multiset(),
        forall|x: (Seq<char>, u64)| #[trigger] removed.contains(x) <==> gone.contains(x),
    ensures
        assembled(a, removed) == assembled(b, gone),
{
    lemma_same_members(a, b);
    assert(a.no_duplicates());
    a.lemma_multiset_has_no_duplicates();
    b.lemma_multiset_has_no_duplicates_conv();
    assert(versions_distinct(b)) by {
        assert forall|i: int, j: int|
            0 <= i < b.len() && 0 <= j < b.len() && i != j && (#[trigger] b[i]).table_key == (
            #[trigger] b[j]).table_key implies b[i].table_version != b[j].table_version by {
            assert(b.contains(b[i]) && b.contains(b[j]));
            assert(a.contains(b[i]) && a.contains(b[j]));
            let m = choose|m: int| 0 <= m < a.len() && a[m] == b[i];
            let n = choose|n: int| 0 <= n < a.len() && a[n] == b[j];
            assert(a[m] != a[n]);
        }
    }
    assert forall|x: SubTableEntryModel| #[trigger] assembled(a, removed).contains(x) <==> assembled(
        b,
        gone,
    ).contains(x) by {
        if assembled(a, removed).contains(x) {
            lemma_selected_in_both(a, b, removed, gone, x);
        }
        if assembled(b, gone).contains(x) {
            lemma_selected_in_both(b, a, gone, removed, x);
        }
    }
    lemma_state_is_live(a, removed);
    lemma_state_is_live(b, gone);
    lemma_one_order(assembled(a, removed), assembled(b, gone));
}

/// The two rows of a table in a fresh manifest.
proof fn lemma_table_rows(
    entries: Seq<SubTableEntryModel>,
    ids: Seq<Seq<char>>,
    metadata: Seq<(Seq<char>, Seq<char>)>,
    n: int,
)
    requires
        0 <= n <= entries.len(),
    ensures
        table_rows(entries, ids, metadata, n).len() == 2 * n,
        forall|i: int|
            0 <= i < n ==> table_rows(entries, ids, metadata, n)[2 * i] == table_row(
                #[trigger] entries[i],
            ) && table_rows(entries, ids, metadata, n)[2 * i + 1] == version_row(
                entries[i],
                ids[i],
                last_value(metadata, entries[i].table_key)->0,
            ),
    decreases n,
{
    if n > 0 {
        lemma_table_rows(entries, ids, metadata, n - 1);
        let before = table_rows(entries, ids, metadata, n - 1);
        let all = table_rows(entries, ids, metadata, n);
        assert forall|i: int| 0 <= i < n implies all[2 * i] == table_row(#[trigger] entries[i])
            && all[2 * i + 1] == version_row(
            entries[i],
            ids[i],
            last_value(metadata, entries[i].table_key)->0,
        ) by {
            if i < n - 1 {
                assert(all[2 * i] == before[2 * i]);
                assert(all[2 * i + 1] == before[2 * i + 1]);
            }
        }
    }
}

/// The types of rows are different.
proof fn lemma_types_differ()
    ensures
        OBJECT_TYPE_TABLE@ != OBJECT_TYPE_TABLE_VERSION@,
        OBJECT_TYPE_GRAPH_COMMIT@ != OBJECT_TYPE_TABLE@,
        OBJECT_TYPE_GRAPH_COMMIT@ != OBJECT_TYPE_TABLE_VERSION@,
        OBJECT_TYPE_GRAPH_COMMIT@ != OBJECT_TYPE_TABLE_TOMBSTONE@,
        OBJECT_TYPE_GRAPH_HEAD@ != OBJECT_TYPE_TABLE@,
        OBJECT_TYPE_GRAPH_HEAD@ != OBJECT_TYPE_TABLE_VERSION@,
        OBJECT_TYPE_GRAPH_HEAD@ != OBJECT_TYPE_TABLE_TOMBSTONE@,
{
    reveal_strlit("table");
    reveal_strlit("table_version");
    reveal_strlit("table_tombstone");
    reveal_strlit("graph_commit");
    reveal_strlit("graph_head");
    assert(OBJECT_TYPE_TABLE@.len() != OBJECT_TYPE_TABLE_VERSION@.len());
    assert(OBJECT_TYPE_GRAPH_COMMIT@[0] == 'g');
    assert(OBJECT_TYPE_GRAPH_HEAD@[0] == 'g');
    assert(OBJECT_TYPE_TABLE@[0] == 't');
    assert(OBJECT_TYPE_TABLE_VERSION@[0] == 't');
    assert(OBJECT_TYPE_TABLE_TOMBSTONE@[0] == 't');
}

/// An entry without its location.
pub open spec fn without_path(entry: SubTableEntryModel) -> SubTableEntryModel {
    SubTableEntryModel { table_path: Seq::empty(), ..entry }
}

/// What a scan has read after the first `n` tables of a fresh manifest.
pub open spec fn scanned(entries: Seq<SubTableEntryModel>, n: int) -> ManifestScanModel {
    ManifestScanModel {
        table_locations: Seq::new(
            n as nat,
            |i: int| (entries[i].table_key, entries[i].table_path),
        ),
        version_entries: Seq::new(n as nat, |i: int| without_path(entries[i])),
        tombstones: Seq::empty(),
        lineage_rows: Seq::empty(),
    }
}

/// Whether the metadata of the version rows of a fresh manifest was decoded to what
/// its tables had.
pub open spec fn decoded_as_written(
    entries: Seq<SubTableEntryModel>,
    decoded: Seq<RowMetadata>,
) -> bool {
    forall|i: int|
        0 <= i < entries.len() ==> (decoded[2 * i + 1] matches RowMetadata::Table(Ok(metadata))
            && metadata@ == (#[trigger] entries[i]).version_metadata)
}

/// Scanning the rows of the first `n` tables.
proof fn lemma_scan_tables(
    entries: Seq<SubTableEntryModel>,
    ids: Seq<Seq<char>>,
    metadata: Seq<(Seq<char>, Seq<char>)>,
    rows: Seq<ManifestRowModel>,
    decoded: Seq<RowMetadata>,
    n: int,
)
    requires
        0 <= n <= entries.len(),
        decoded_as_written(entries, decoded),
        forall|i: int|
            0 <= i < entries.len() ==> rows[2 * i] == table_row(#[trigger] entries[i]) && rows[2 * i
                + 1] == version_row(
                entries[i],
                ids[i],
                last_value(metadata, entries[i].table_key)->0,
            ),
    ensures
        with_rows(ManifestScanModel::nothing(), rows, decoded, false, 2 * n) == Ok::<
            ManifestScanModel,
            OmniErrorModel,
        >(scanned(entries, n)),
    decreases n,
{
    let start = ManifestScanModel::nothing();
    if n == 0 {
        assert(scanned(entries, 0).table_locations =~= start.table_locations);
        assert(scanned(entries, 0).version_entries =~= start.version_entries);
    } else {
        lemma_scan_tables(entries, ids, metadata, rows, decoded, n - 1);
        lemma_types_differ();
        let before = scanned(entries, n - 1);
        let entry = entries[n - 1];
        assert(rows[2 * (n - 1)] == table_row(entry));
        let first = with_row(
            before,
            rows[2 * (n - 1)],
            (2 * (n - 1)) as nat,
            decoded[2 * (n - 1)],
            false,
        );
        assert(with_rows(start, rows, decoded, false, 2 * n - 1) == first);
        let second = with_row(
            first->Ok_0,
            rows[2 * n - 1],
            (2 * n - 1) as nat,
            decoded[2 * n - 1],
            false,
        );
        assert(2 * n - 1 == 2 * (n - 1) + 1);
        assert(with_rows(start, rows, decoded, false, 2 * n) == second);
        let after = scanned(entries, n);
        assert(after.table_locations =~= before.table_locations.push(
            (entry.table_key, entry.table_path),
        ));
        assert(after.version_entries =~= before.version_entries.push(without_path(entry)));
    }
}

/// Rows of commits and heads are passed over where lineage is not wanted.
proof fn lemma_scan_parts(
    scan: ManifestScanModel,
    rows: Seq<ManifestRowModel>,
    decoded: Seq<RowMetadata>,
    from: int,
    n: int,
)
    requires
        0 <= from <= n <= rows.len(),
        with_rows(ManifestScanModel::nothing(), rows, decoded, false, from) == Ok::<
            ManifestScanModel,
            OmniErrorModel,
        >(scan),
        forall|k: int|
            from <= k < n ==> (#[trigger] rows[k]).object_type == OBJECT_TYPE_GRAPH_COMMIT@
                || rows[k].object_type == OBJECT_TYPE_GRAPH_HEAD@,
    ensures
        with_rows(ManifestScanModel::nothing(), rows, decoded, false, n) == Ok::<
            ManifestScanModel,
            OmniErrorModel,
        >(scan),
    decreases n - from,
{
    if n > from {
        lemma_scan_parts(scan, rows, decoded, from, n - 1);
        lemma_types_differ();
        assert(rows[n - 1].object_type == OBJECT_TYPE_GRAPH_COMMIT@ || rows[n - 1].object_type
            == OBJECT_TYPE_GRAPH_HEAD@);
    }
}

/// The location of a table in a list with one location for each.
proof fn lemma_own_location(entries: Seq<SubTableEntryModel>, n: int, i: int)
    requires
        tables_distinct(entries),
        0 <= i < n <= entries.len(),
    ensures
        last_value(scanned(entries, n).table_locations, entries[i].table_key) == Some(
            entries[i].table_path,
        ),
    decreases n,
{
    let pairs = scanned(entries, n).table_locations;
    if i < n - 1 {
        assert(pairs.drop_last() =~= scanned(entries, n - 1).table_locations);
        lemma_own_location(entries, n - 1, i);
        assert(pairs.last().0 == entries[n - 1].table_key);
    }
}

/// A fresh manifest is read back as it was written: its tables, by alias. The
/// tables have different aliases, and the metadata of their versions was decoded to
/// what it was encoded from; the rows of the first commit do not matter.
pub proof fn lemma_fresh_manifest_is_read_back(
    entries: Seq<SubTableEntryModel>,
    ids: Seq<Seq<char>>,
    metadata: Seq<(Seq<char>, Seq<char>)>,
    parts: Seq<GraphLineageRowPartModel>,
    decoded: Seq<RowMetadata>,
)
    requires
        tables_distinct(entries),
        decoded_as_written(entries, decoded),
        forall|k: int|
            0 <= k < parts.len() ==> (#[trigger] parts[k]).object_type == OBJECT_TYPE_GRAPH_COMMIT@
                || parts[k].object_type == OBJECT_TYPE_GRAPH_HEAD@,
    ensures
        ({
            let rows = initial_rows(entries, ids, metadata, parts);
            let scan = with_rows(
                ManifestScanModel::nothing(),
                rows,
                decoded,
                false,
                rows.len() as int,
            );
            &&& scan is Ok
            &&& first_defect(
                unlocated(scan->Ok_0.version_entries, scan->Ok_0.table_locations),
            ) is None
            &&& assembled(
                ranked::<SubTableEntry>(
                    located_entries(scan->Ok_0.version_entries, scan->Ok_0.table_locations),
                ),
                scan->Ok_0.tombstones,
            ) == ranked::<SubTableEntry>(entries)
        }),
{
    let n = entries.len() as int;
    let rows = initial_rows(entries, ids, metadata, parts);
    let tables = table_rows(entries, ids, metadata, n);
    lemma_table_rows(entries, ids, metadata, n);
    assert forall|i: int| 0 <= i < n implies rows[2 * i] == table_row(#[trigger] entries[i])
        && rows[2 * i + 1] == version_row(
        entries[i],
        ids[i],
        last_value(metadata, entries[i].table_key)->0,
    ) by {
        assert(rows[2 * i] == tables[2 * i]);
        assert(rows[2 * i + 1] == tables[2 * i + 1]);
    }
    lemma_scan_tables(entries, ids, metadata, rows, decoded, n);
    let scan = scanned(entries, n);
    assert forall|k: int| 2 * n <= k < rows.len() implies (#[trigger] rows[k]).object_type
        == OBJECT_TYPE_GRAPH_COMMIT@ || rows[k].object_type == OBJECT_TYPE_GRAPH_HEAD@ by {
        assert(rows[k] == part_rows(parts)[k - 2 * n]);
        assert(parts[k - 2 * n].object_type == OBJECT_TYPE_GRAPH_COMMIT@ || parts[k - 2
            * n].object_type == OBJECT_TYPE_GRAPH_HEAD@);
    }
    lemma_scan_parts(scan, rows, decoded, 2 * n, rows.len() as int);
    let faults = unlocated(scan.version_entries, scan.table_locations);
    assert forall|i: int| 0 <= i < faults.len() implies faults[i] is None by {
        lemma_own_location(entries, n, i);
    }
    lemma_no_defect(faults);
    let placed = located_entries(scan.version_entries, scan.table_locations);
    assert forall|i: int| 0 <= i < n implies placed[i] == entries[i] by {
        lemma_own_location(entries, n, i);
    }
    assert(placed =~= entries);
    let sorted = ranked::<SubTableEntry>(entries);
    lemma_ranked_entries(entries);
    lemma_all_live(sorted, sorted.len() as int);
    assert(sorted.subrange(0, sorted.len() as int) =~= sorted);
    lemma_ranked_again(sorted);
}

} // verus!
