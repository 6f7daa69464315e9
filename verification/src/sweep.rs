//! The sweep over pending sidecars: what each is serialized by, which branch it is
//! compared with, and what is left over when none may be undone.

use vstd::prelude::*;

use crate::order::{lemma_ranked, lemma_text_total, lemma_text_transitive, sort, text_le, text_lt};
use crate::publish::{already_recorded, records, RecoveryAuditRecord, RecoveryKind};
use crate::sidecar::{
    RecoverySidecar, RecoverySidecarModel, SidecarKind, SidecarTablePin, SidecarTablePinModel,
};
use crate::store::{sidecar_uri, uri_of, RecoverySidecarHandle};
use crate::text::same_text;
use crate::value::{opt_view, replicate_opt, views};

verus! {

/// What a table is serialized by: its alias and its branch.
pub type TableQueueKey = (String, Option<String>);

/// What a [`TableQueueKey`] stands for.
pub open spec fn key_view(key: TableQueueKey) -> (Seq<char>, Option<Seq<char>>) {
    (key.0@, opt_view(key.1))
}

/// The name that serializes schema applies.
pub const SCHEMA_APPLY_QUEUE: &'static str = "__schema_apply__";

/// The key that serializes the life of a schema-apply sidecar against healing.
pub fn schema_apply_serial_queue_key() -> (key: TableQueueKey)
    ensures
        key_view(key) == (SCHEMA_APPLY_QUEUE@, None::<Seq<char>>),
{
    (SCHEMA_APPLY_QUEUE.to_owned(), None)
}

/// Whether an alias is one of a table.
pub open spec fn is_table_alias(alias: Seq<char>) -> bool {
    "node:"@.is_prefix_of(alias) || "edge:"@.is_prefix_of(alias)
}

/// No table shares the key that serializes schema applies.
pub proof fn lemma_schema_key_is_apart(alias: Seq<char>)
    requires
        is_table_alias(alias),
    ensures
        alias != SCHEMA_APPLY_QUEUE@,
{
    reveal_strlit("node:");
    reveal_strlit("edge:");
    reveal_strlit("__schema_apply__");
    assert(SCHEMA_APPLY_QUEUE@[0] == '_');
    if alias == SCHEMA_APPLY_QUEUE@ {
        assert("node:"@[0] == 'n');
        assert("edge:"@[0] == 'e');
        if "node:"@.is_prefix_of(alias) {
            assert(alias.subrange(0, "node:"@.len() as int)[0] == alias[0]);
        } else {
            assert(alias.subrange(0, "edge:"@.len() as int)[0] == alias[0]);
        }
    }
}

/// The keys of the tables of a sidecar, pin by pin.
pub fn table_queue_keys(sidecar: &RecoverySidecar) -> (keys: Vec<TableQueueKey>)
    ensures
        keys@.len() == sidecar@.tables.len(),
        forall|i: int|
            0 <= i < keys@.len() ==> key_view(#[trigger] keys@[i]) == (
                sidecar@.tables[i].table_key,
                sidecar@.tables[i].table_branch,
            ),
{
    let pins: &Vec<SidecarTablePin> = &sidecar.tables;
    let ghost models = sidecar@.tables;
    let mut keys: Vec<TableQueueKey> = Vec::new();
    let mut i: usize = 0;
    while i < pins.len()
        invariant
            i <= pins.len(),
            keys.len() == i,
            models == views(pins@),
            forall|j: int|
                0 <= j < i ==> key_view(#[trigger] keys@[j]) == (
                    models[j].table_key,
                    models[j].table_branch,
                ),
        decreases pins.len() - i,
    {
        assert(models[i as int] == pins@[i as int]@);
        keys.push((pins[i].table_key.clone(), replicate_opt(&pins[i].table_branch)));
        i += 1;
    }
    keys
}

/// Whether schema staging has to be reconciled before a sidecar is processed.
pub fn reconciles_schema(sidecar: &RecoverySidecar) -> (answer: bool)
    ensures
        answer == (sidecar@.writer_kind == SidecarKind::SchemaApply),
{
    matches!(sidecar.writer_kind, SidecarKind::SchemaApply)
}

/// What a sidecar is compared with.
#[derive(Debug, PartialEq, Eq)]
pub enum SweepTarget {
    /// The snapshot of main.
    Main,
    /// The snapshot of a branch.
    Branch(String),
    /// Nothing: its branch was deleted.
    Orphaned,
}

/// What a [`SweepTarget`] stands for.
pub enum SweepTargetModel {
    Main,
    Branch(Seq<char>),
    Orphaned,
}

impl View for SweepTarget {
    type V = SweepTargetModel;

    open spec fn view(&self) -> SweepTargetModel {
        match *self {
            SweepTarget::Main => SweepTargetModel::Main,
            SweepTarget::Branch(branch) => SweepTargetModel::Branch(branch@),
            SweepTarget::Orphaned => SweepTargetModel::Orphaned,
        }
    }
}

/// What a sidecar of a branch is compared with, given the branches of the manifest.
pub open spec fn target_of(branch: Option<Seq<char>>, branches: Seq<Seq<char>>) -> SweepTargetModel {
    match branch {
        None => SweepTargetModel::Main,
        Some(name) => if branches.contains(name) {
            SweepTargetModel::Branch(name)
        } else {
            SweepTargetModel::Orphaned
        },
    }
}

/// What a sidecar is compared with. Only the branch list of the manifest can say
/// that a branch is gone.
pub fn sweep_target(sidecar: &RecoverySidecar, branches: &Vec<String>) -> (target: SweepTarget)
    ensures
        target@ == target_of(sidecar@.branch, views(branches@)),
{
    let branch: &String = match &sidecar.branch {
        Some(branch) => branch,
        None => {
            return SweepTarget::Main;
        },
    };
    let ghost names = views(branches@);
    let mut i: usize = 0;
    while i < branches.len()
        invariant
            i <= branches.len(),
            names == views(branches@),
            Some(branch@) == sidecar@.branch,
            forall|j: int| 0 <= j < i ==> names[j] != branch@,
        decreases branches.len() - i,
    {
        assert(names[i as int] == branches@[i as int]@);
        if branches[i] == *branch {
            assert(names.contains(branch@));
            return SweepTarget::Branch(branch.clone());
        }
        i += 1;
    }
    SweepTarget::Orphaned
}

/// How a sidecar whose branch is gone is retired.
#[derive(Debug, PartialEq, Eq)]
pub struct OrphanDiscard {
    /// Whether a commit on main and an audit row have to be recorded first.
    pub records_first: bool,
    /// What is deleted at last.
    pub handle: RecoverySidecarHandle,
}

/// Plans how a sidecar whose branch is gone is retired. The discard is recorded
/// once; a retry after that only deletes the sidecar.
pub fn discard_orphaned_branch_sidecar(
    root_uri: &str,
    sidecar: &RecoverySidecar,
    rows: &Vec<RecoveryAuditRecord>,
) -> (discard: OrphanDiscard)
    ensures
        discard.records_first == !exists|i: int|
            0 <= i < rows@.len() && records(
                (#[trigger] rows@[i])@,
                sidecar@.operation_id,
                RecoveryKind::OrphanedBranchDiscarded,
            ),
        discard.handle.operation_id@ == sidecar@.operation_id,
        discard.handle.sidecar_uri@ == uri_of(root_uri@, sidecar@.operation_id),
{
    OrphanDiscard {
        records_first: !already_recorded(
            rows,
            &sidecar.operation_id,
            RecoveryKind::OrphanedBranchDiscarded,
        ),
        handle: RecoverySidecarHandle {
            operation_id: sidecar.operation_id.clone(),
            sidecar_uri: sidecar_uri(root_uri, sidecar.operation_id.as_str()),
        },
    }
}

/// A sidecar that healing left in place.
#[derive(Debug, PartialEq, Eq)]
pub struct UnresolvedRecoveryIntent {
    pub operation_id: String,
    /// The branch; `None` is main.
    pub branch: Option<String>,
    pub writer_kind: SidecarKind,
    /// The aliases of its tables, each once, in order.
    pub table_keys: Vec<String>,
}

/// What an [`UnresolvedRecoveryIntent`] stands for.
pub struct UnresolvedRecoveryIntentModel {
    pub operation_id: Seq<char>,
    pub branch: Option<Seq<char>>,
    pub writer_kind: SidecarKind,
    pub table_keys: Seq<Seq<char>>,
}

impl View for UnresolvedRecoveryIntent {
    type V = UnresolvedRecoveryIntentModel;

    open spec fn view(&self) -> UnresolvedRecoveryIntentModel {
        UnresolvedRecoveryIntentModel {
            operation_id: self.operation_id@,
            branch: opt_view(self.branch),
            writer_kind: self.writer_kind,
            table_keys: views(self.table_keys@),
        }
    }
}

/// A branch, with main folded into `None`.
pub open spec fn folded(branch: Option<Seq<char>>) -> Option<Seq<char>> {
    if branch == Some("main"@) {
        None
    } else {
        branch
    }
}

/// Whether texts are in strictly ascending order.
pub open spec fn ascending(texts: Seq<Seq<char>>) -> bool {
    forall|i: int, j: int|
        0 <= i < j < texts.len() ==> text_lt(#[trigger] texts[i], #[trigger] texts[j])
}

/// Whether `keys` are the aliases of some pins, each once, in order.
pub open spec fn lists_aliases(keys: Seq<Seq<char>>, pins: Seq<SidecarTablePinModel>) -> bool {
    &&& ascending(keys)
    &&& forall|k: int|
        0 <= k < keys.len() ==> exists|i: int|
            0 <= i < pins.len() && (#[trigger] pins[i]).table_key == #[trigger] keys[k]
    &&& forall|i: int| 0 <= i < pins.len() ==> keys.contains((#[trigger] pins[i]).table_key)
}

/// Whether `intent` says of a sidecar what there is to say.
pub open spec fn describes(
    intent: UnresolvedRecoveryIntentModel,
    sidecar: RecoverySidecarModel,
) -> bool {
    &&& intent.operation_id == sidecar.operation_id
    &&& intent.branch == folded(sidecar.branch)
    &&& intent.writer_kind == sidecar.writer_kind
    &&& lists_aliases(intent.table_keys, sidecar.tables)
}

/// The aliases of some pins.
pub open spec fn aliases(pins: Seq<SidecarTablePinModel>) -> Seq<Seq<char>> {
    Seq::new(pins.len(), |i: int| pins[i].table_key)
}

/// The aliases of some pins, each once, in order.
fn ordered_aliases(pins: &Vec<SidecarTablePin>) -> (keys: Vec<String>)
    ensures
        lists_aliases(views(keys@), views(pins@)),
{
    let ghost models = views(pins@);
    let ghost named = aliases(models);
    let mut all: Vec<String> = Vec::new();
    let mut i: usize = 0;
    while i < pins.len()
        invariant
            i <= pins.len(),
            models == views(pins@),
            named == aliases(models),
            views(all@) == named.subrange(0, i as int),
        decreases pins.len() - i,
    {
        assert(models[i as int] == pins@[i as int]@);
        let ghost before = all@;
        all.push(pins[i].table_key.clone());
        assert(views(all@) =~= views(before).push(named[i as int]));
        assert(named.subrange(0, i + 1) =~= named.subrange(0, i as int).push(named[i as int]));
        i += 1;
    }
    assert(named.subrange(0, i as int) =~= named);
    let sorted: Vec<String> = sort(all);
    let ghost order = views(sorted@);
    proof {
        lemma_ranked::<String>(named);
        lemma_same_members(order, named);
    }
    let mut keys: Vec<String> = Vec::new();
    let mut k: usize = 0;
    while k < sorted.len()
        invariant
            k <= sorted.len(),
            order == views(sorted@),
            crate::order::in_order::<String>(order),
            ascending(views(keys@)),
            forall|j: int| 0 <= j < k ==> views(keys@).contains(#[trigger] order[j]),
            forall|j: int|
                0 <= j < keys.len() ==> order.contains(#[trigger] views(keys@)[j]),
            k > 0 ==> keys.len() > 0 && views(keys@).last() == order[k - 1],
            k == 0 ==> keys.len() == 0,
        decreases sorted.len() - k,
    {
        assert(order[k as int] == sorted@[k as int]@);
        if keys.len() == 0 || sorted[k] != keys[keys.len() - 1] {
            let ghost before = views(keys@);
            keys.push(sorted[k].clone());
            let ghost after = views(keys@);
            proof {
                assert(after =~= before.push(order[k as int]));
                assert forall|a: int, b: int| 0 <= a < b < after.len() implies text_lt(
                    #[trigger] after[a],
                    #[trigger] after[b],
                ) by {
                    if b == before.len() {
                        assert(text_le(order[k - 1], order[k as int]));
                        assert(text_lt(before.last(), after[b]));
                        if a < before.len() - 1 {
                            assert(text_lt(before[a], before[before.len() - 1]));
                            lemma_text_transitive(before[a], before.last(), after[b]);
                            lemma_text_total(before[a], before.last());
                            lemma_text_total(before.last(), before[a]);
                        }
                    } else {
                        assert(text_lt(before[a], before[b]));
                    }
                }
                assert forall|j: int| 0 <= j < k + 1 implies after.contains(
                    #[trigger] order[j],
                ) by {
                    if j < k {
                        assert(before.contains(order[j]));
                        let m = choose|m: int| 0 <= m < before.len() && before[m] == order[j];
                        assert(after[m] == order[j]);
                    } else {
                        assert(after[before.len() as int] == order[j]);
                    }
                }
                assert forall|j: int| 0 <= j < after.len() implies order.contains(
                    #[trigger] after[j],
                ) by {
                    if j < before.len() {
                        assert(order.contains(before[j]));
                    }
                }
            }
        } else {
            assert(views(keys@).last() == keys@[keys@.len() - 1]@);
        }
        k += 1;
    }
    proof {
        let listed = views(keys@);
        assert forall|k: int| 0 <= k < listed.len() implies exists|i: int|
            0 <= i < models.len() && (#[trigger] models[i]).table_key == #[trigger] listed[k] by {
            assert(order.contains(listed[k]));
            assert(named.contains(listed[k]));
            let i = choose|i: int| 0 <= i < named.len() && named[i] == listed[k];
            assert(models[i].table_key == listed[k]);
        }
        assert forall|i: int| 0 <= i < models.len() implies listed.contains(
            (#[trigger] models[i]).table_key,
        ) by {
            assert(named[i] == models[i].table_key);
            assert(named.contains(named[i]));
            assert(order.contains(named[i]));
        }
    }
    keys
}

/// Sequences with the same elements, however often, have the same members.
proof fn lemma_same_members(a: Seq<Seq<char>>, b: Seq<Seq<char>>)
    requires
        a.to_multiset() == b.to_multiset(),
    ensures
        forall|x: Seq<char>| a.contains(x) <==> b.contains(x),
{
    broadcast use vstd::seq_lib::group_to_multiset_ensures;

    assert forall|x: Seq<char>| a.contains(x) <==> b.contains(x) by {
        assert(a.contains(x) <==> a.to_multiset().count(x) > 0);
        assert(b.contains(x) <==> b.to_multiset().count(x) > 0);
    }
}

/// Describes a sidecar that healing left in place.
pub fn unresolved_intent(sidecar: &RecoverySidecar) -> (intent: UnresolvedRecoveryIntent)
    ensures
        describes(intent@, sidecar@),
{
    let branch: Option<String> = match &sidecar.branch {
        Some(branch) => if same_text(branch.as_str(), "main") {
            None
        } else {
            Some(branch.clone())
        },
        None => None,
    };
    UnresolvedRecoveryIntent {
        operation_id: sidecar.operation_id.clone(),
        branch,
        writer_kind: sidecar.writer_kind,
        table_keys: ordered_aliases(&sidecar.tables),
    }
}

/// What became of one sidecar that healing looked at.
#[derive(Debug, PartialEq, Eq)]
pub enum HealEvent {
    /// Its writer finished it meanwhile.
    Gone,
    /// Its branch was deleted, and it was discarded.
    Discarded,
    /// It was finished.
    Finished(RecoverySidecar),
    /// It was left in place.
    LeftInPlace(RecoverySidecar),
}

/// What a pass of healing did.
#[derive(Debug, PartialEq, Eq)]
pub struct HealPendingOutcome {
    /// Whether anything durable changed.
    pub processed_any: bool,
    /// The sidecars that are left in place, in the order of the pass.
    pub unresolved: Vec<UnresolvedRecoveryIntent>,
}

/// How many of the first `n` events left a sidecar in place.
pub open spec fn left_count(events: Seq<HealEvent>, n: int) -> int
    decreases n,
{
    if n <= 0 {
        0
    } else if events[n - 1] is LeftInPlace {
        left_count(events, n - 1) + 1
    } else {
        left_count(events, n - 1)
    }
}

/// Whether an event changed something durable.
pub open spec fn is_durable(event: HealEvent) -> bool {
    event is Discarded || event is Finished
}

/// Sums up a pass of healing.
pub fn heal_pending_sidecars_roll_forward(events: &Vec<HealEvent>) -> (outcome: HealPendingOutcome)
    ensures
        outcome.processed_any == exists|i: int|
            0 <= i < events@.len() && is_durable(#[trigger] events@[i]),
        outcome.unresolved@.len() == left_count(events@, events@.len() as int),
        forall|i: int|
            0 <= i < events@.len() && (#[trigger] events@[i]) is LeftInPlace ==> {
                &&& 0 <= left_count(events@, i) < outcome.unresolved@.len()
                &&& describes(
                    outcome.unresolved@[left_count(events@, i)]@,
                    events@[i]->LeftInPlace_0@,
                )
            },
{
    let mut processed_any: bool = false;
    let mut unresolved: Vec<UnresolvedRecoveryIntent> = Vec::new();
    let mut i: usize = 0;
    while i < events.len()
        invariant
            i <= events.len(),
            processed_any == exists|j: int| 0 <= j < i && is_durable(#[trigger] events@[j]),
            unresolved@.len() == left_count(events@, i as int),
            forall|j: int|
                0 <= j < i && (#[trigger] events@[j]) is LeftInPlace ==> {
                    &&& 0 <= left_count(events@, j) < unresolved@.len()
                    &&& describes(
                        unresolved@[left_count(events@, j)]@,
                        events@[j]->LeftInPlace_0@,
                    )
                },
        decreases events.len() - i,
    {
        match &events[i] {
            HealEvent::Gone => {},
            HealEvent::Discarded | HealEvent::Finished(_) => {
                assert(is_durable(events@[i as int]));
                processed_any = true;
            },
            HealEvent::LeftInPlace(sidecar) => {
                unresolved.push(unresolved_intent(sidecar));
            },
        }
        i += 1;
    }
    HealPendingOutcome { processed_any, unresolved }
}

} // verus!
