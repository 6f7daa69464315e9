//! Sequences of records that carry a table identity or an alias: lookups by
//! identity, uniqueness, and comparison as sets.

use vstd::prelude::*;

use crate::identity::TableIdentity;
use crate::sidecar::{
    RecoveryBranchMergeEffect, RecoveryBranchMergeEffectModel, RecoveryEnsureIndicesEffect,
    RecoveryEnsureIndicesEffectModel, RecoverySchemaApplyEffect, RecoverySchemaApplyEffectModel,
    RecoveryTableEffect, RecoveryTableEffectModel, RecoveryTableUpdateSlot,
    RecoveryTableUpdateSlotModel, SidecarTablePin, SidecarTablePinModel, SidecarTableRegistration,
    SidecarTableRegistrationModel, SidecarTableRename, SidecarTableRenameModel, SidecarTombstone,
    SidecarTombstoneModel, TableOutcome, TableOutcomeModel,
};
use crate::value::views;

verus! {

/// Records that belong to one table lifetime.
pub trait Identified: View {
    /// The identity that a record carries.
    spec fn identity_of(model: Self::V) -> TableIdentity;

    /// The identity that this record carries.
    fn identity(&self) -> (identity: TableIdentity)
        ensures
            identity == Self::identity_of(self@),
    ;
}

/// Records that name a table by its alias.
pub trait Aliased: View {
    /// The alias that a record carries.
    spec fn alias_of(model: Self::V) -> Seq<char>;

    /// The alias that this record carries.
    fn alias(&self) -> (alias: &String)
        ensures
            alias@ == Self::alias_of(self@),
    ;
}

/// Effects that plan one transaction.
pub trait Planned: View {
    /// The id of the transaction that an effect plans.
    spec fn uuid_of(model: Self::V) -> Seq<char>;

    /// The id of the transaction that this effect plans.
    fn uuid(&self) -> (uuid: &String)
        ensures
            uuid@ == Self::uuid_of(self@),
    ;
}

/// The identities of a sequence of records.
pub open spec fn identities<T: Identified>(models: Seq<T::V>) -> Seq<TableIdentity> {
    Seq::new(models.len(), |i: int| T::identity_of(models[i]))
}

/// The aliases of a sequence of records.
pub open spec fn aliases<T: Aliased>(models: Seq<T::V>) -> Seq<Seq<char>> {
    Seq::new(models.len(), |i: int| T::alias_of(models[i]))
}

/// The ids of the transactions that a sequence of effects plans.
pub open spec fn planned_uuids<T: Planned>(models: Seq<T::V>) -> Seq<Seq<char>> {
    Seq::new(models.len(), |i: int| T::uuid_of(models[i]))
}

/// Whether every element of `inner` occurs in `outer`.
pub open spec fn within<A>(inner: Seq<A>, outer: Seq<A>) -> bool {
    forall|i: int| 0 <= i < inner.len() ==> outer.contains(#[trigger] inner[i])
}

/// Whether two sequences hold the same elements, whatever their order.
pub open spec fn same_elements<A>(left: Seq<A>, right: Seq<A>) -> bool {
    within(left, right) && within(right, left)
}

/// Whether `i` is the first place of `wanted` in `s`.
pub open spec fn is_first<A>(s: Seq<A>, wanted: A, i: int) -> bool {
    0 <= i < s.len() && s[i] == wanted && forall|j: int| 0 <= j < i ==> s[j] != wanted
}

/// The first place of `wanted` in `s`, where it occurs at all.
pub open spec fn first_place<A>(s: Seq<A>, wanted: A) -> int {
    choose|i: int| is_first(s, wanted, i)
}

/// The first record of a lifetime, if there is one.
pub open spec fn find_by_identity<T: Identified>(
    models: Seq<T::V>,
    identity: TableIdentity,
) -> Option<T::V> {
    if identities::<T>(models).contains(identity) {
        Some(models[first_place(identities::<T>(models), identity)])
    } else {
        None
    }
}

/// The first record with an alias, if there is one.
pub open spec fn find_by_alias<T: Aliased>(models: Seq<T::V>, alias: Seq<char>) -> Option<T::V> {
    if aliases::<T>(models).contains(alias) {
        Some(models[first_place(aliases::<T>(models), alias)])
    } else {
        None
    }
}

/// There is only one first place.
pub proof fn lemma_first_place<A>(s: Seq<A>, wanted: A, i: int)
    requires
        is_first(s, wanted, i),
    ensures
        first_place(s, wanted) == i,
        s.contains(wanted),
{
    let chosen = first_place(s, wanted);
    assert(is_first(s, wanted, chosen));
    if chosen < i {
        assert(s[chosen] != wanted);
    } else if i < chosen {
        assert(s[i] != wanted);
    }
}

/// An element that occurs has a first place.
pub proof fn lemma_has_first_place<A>(s: Seq<A>, wanted: A)
    requires
        s.contains(wanted),
    ensures
        is_first(s, wanted, first_place(s, wanted)),
{
    let at = choose|i: int| 0 <= i < s.len() && s[i] == wanted;
    lemma_first_place_upto(s, wanted, at);
}

proof fn lemma_first_place_upto<A>(s: Seq<A>, wanted: A, at: int)
    requires
        0 <= at < s.len(),
        s[at] == wanted,
    ensures
        exists|i: int| is_first(s, wanted, i),
    decreases at,
{
    if exists|j: int| 0 <= j < at && s[j] == wanted {
        let j = choose|j: int| 0 <= j < at && s[j] == wanted;
        lemma_first_place_upto(s, wanted, j);
    } else {
        assert(is_first(s, wanted, at));
    }
}

/// The place of the first record of a lifetime, if there is one.
pub fn place_of<T: Identified>(records: &Vec<T>, identity: TableIdentity) -> (place: Option<usize>)
    ensures
        match place {
            Some(i) => {
                &&& i < records.len()
                &&& identities::<T>(views(records@)).contains(identity)
                &&& first_place(identities::<T>(views(records@)), identity) == i
                &&& find_by_identity::<T>(views(records@), identity) == Some(records@[i as int]@)
                &&& T::identity_of(records@[i as int]@) == identity
            },
            None => {
                &&& !identities::<T>(views(records@)).contains(identity)
                &&& find_by_identity::<T>(views(records@), identity) is None
            },
        },
{
    let ghost ids = identities::<T>(views(records@));
    let mut i: usize = 0;
    while i < records.len()
        invariant
            i <= records.len(),
            ids == identities::<T>(views(records@)),
            forall|j: int| 0 <= j < i ==> ids[j] != identity,
        decreases records.len() - i,
    {
        assert(ids[i as int] == T::identity_of(records@[i as int]@));
        if records[i].identity() == identity {
            proof {
                assert(is_first(ids, identity, i as int));
                lemma_first_place(ids, identity, i as int);
            }
            return Some(i);
        }
        i += 1;
    }
    None
}

/// Whether a lifetime has a record.
pub fn has_identity<T: Identified>(records: &Vec<T>, identity: TableIdentity) -> (answer: bool)
    ensures
        answer == identities::<T>(views(records@)).contains(identity),
{
    place_of(records, identity).is_some()
}

/// Whether no two records belong to the same lifetime.
pub fn identities_distinct<T: Identified>(records: &Vec<T>) -> (answer: bool)
    ensures
        answer == identities::<T>(views(records@)).no_duplicates(),
{
    let ghost ids = identities::<T>(views(records@));
    let mut i: usize = 0;
    while i < records.len()
        invariant
            i <= records.len(),
            ids == identities::<T>(views(records@)),
            forall|a: int, b: int| 0 <= a < b < i ==> ids[a] != ids[b],
        decreases records.len() - i,
    {
        let mut j: usize = 0;
        while j < i
            invariant
                j <= i < records.len(),
                ids == identities::<T>(views(records@)),
                forall|a: int| 0 <= a < j ==> ids[a] != ids[i as int],
            decreases i - j,
        {
            assert(ids[i as int] == T::identity_of(records@[i as int]@));
            assert(ids[j as int] == T::identity_of(records@[j as int]@));
            if records[j].identity() == records[i].identity() {
                return false;
            }
            j += 1;
        }
        i += 1;
    }
    true
}

/// Whether every lifetime of the first list has a record in the second.
pub fn identities_within<T: Identified, U: Identified>(inner: &Vec<T>, outer: &Vec<U>) -> (answer:
    bool)
    ensures
        answer == within(
            identities::<T>(views(inner@)),
            identities::<U>(views(outer@)),
        ),
{
    let ghost ids = identities::<T>(views(inner@));
    let ghost others = identities::<U>(views(outer@));
    let mut i: usize = 0;
    while i < inner.len()
        invariant
            i <= inner.len(),
            ids == identities::<T>(views(inner@)),
            others == identities::<U>(views(outer@)),
            forall|j: int| 0 <= j < i ==> others.contains(#[trigger] ids[j]),
        decreases inner.len() - i,
    {
        assert(ids[i as int] == T::identity_of(inner@[i as int]@));
        if !has_identity(outer, inner[i].identity()) {
            return false;
        }
        i += 1;
    }
    true
}

/// Whether two lists belong to the same lifetimes.
pub fn identities_equal<T: Identified, U: Identified>(left: &Vec<T>, right: &Vec<U>) -> (answer:
    bool)
    ensures
        answer == same_elements(
            identities::<T>(views(left@)),
            identities::<U>(views(right@)),
        ),
{
    identities_within(left, right) && identities_within(right, left)
}

/// The place of the first record with an alias, if there is one.
pub fn place_of_alias<T: Aliased>(records: &Vec<T>, alias: &String) -> (place: Option<usize>)
    ensures
        match place {
            Some(i) => {
                &&& i < records.len()
                &&& aliases::<T>(views(records@)).contains(alias@)
                &&& find_by_alias::<T>(views(records@), alias@) == Some(records@[i as int]@)
                &&& T::alias_of(records@[i as int]@) == alias@
            },
            None => {
                &&& !aliases::<T>(views(records@)).contains(alias@)
                &&& find_by_alias::<T>(views(records@), alias@) is None
            },
        },
{
    let ghost names = aliases::<T>(views(records@));
    let mut i: usize = 0;
    while i < records.len()
        invariant
            i <= records.len(),
            names == aliases::<T>(views(records@)),
            forall|j: int| 0 <= j < i ==> names[j] != alias@,
        decreases records.len() - i,
    {
        assert(names[i as int] == T::alias_of(records@[i as int]@));
        if *records[i].alias() == *alias {
            proof {
                assert(is_first(names, alias@, i as int));
                lemma_first_place(names, alias@, i as int);
            }
            return Some(i);
        }
        i += 1;
    }
    None
}

/// Whether an alias is named.
pub fn has_alias<T: Aliased>(records: &Vec<T>, alias: &String) -> (answer: bool)
    ensures
        answer == aliases::<T>(views(records@)).contains(alias@),
{
    place_of_alias(records, alias).is_some()
}

/// Whether no alias is named twice.
pub fn aliases_distinct<T: Aliased>(records: &Vec<T>) -> (answer: bool)
    ensures
        answer == aliases::<T>(views(records@)).no_duplicates(),
{
    let ghost names = aliases::<T>(views(records@));
    let mut i: usize = 0;
    while i < records.len()
        invariant
            i <= records.len(),
            names == aliases::<T>(views(records@)),
            forall|a: int, b: int| 0 <= a < b < i ==> names[a] != names[b],
        decreases records.len() - i,
    {
        let mut j: usize = 0;
        while j < i
            invariant
                j <= i < records.len(),
                names == aliases::<T>(views(records@)),
                forall|a: int| 0 <= a < j ==> names[a] != names[i as int],
            decreases i - j,
        {
            assert(names[i as int] == T::alias_of(records@[i as int]@));
            assert(names[j as int] == T::alias_of(records@[j as int]@));
            if *records[j].alias() == *records[i].alias() {
                return false;
            }
            j += 1;
        }
        i += 1;
    }
    true
}

/// Whether every alias of the first list is named in the second.
pub fn aliases_within<T: Aliased, U: Aliased>(inner: &Vec<T>, outer: &Vec<U>) -> (answer: bool)
    ensures
        answer == within(aliases::<T>(views(inner@)), aliases::<U>(views(outer@))),
{
    let ghost names = aliases::<T>(views(inner@));
    let ghost others = aliases::<U>(views(outer@));
    let mut i: usize = 0;
    while i < inner.len()
        invariant
            i <= inner.len(),
            names == aliases::<T>(views(inner@)),
            others == aliases::<U>(views(outer@)),
            forall|j: int| 0 <= j < i ==> others.contains(#[trigger] names[j]),
        decreases inner.len() - i,
    {
        assert(names[i as int] == T::alias_of(inner@[i as int]@));
        if !has_alias(outer, inner[i].alias()) {
            return false;
        }
        i += 1;
    }
    true
}

/// Whether no planned transaction id occurs twice.
pub fn planned_uuids_distinct<T: Planned>(effects: &Vec<T>) -> (answer: bool)
    ensures
        answer == planned_uuids::<T>(views(effects@)).no_duplicates(),
{
    let ghost uuids = planned_uuids::<T>(views(effects@));
    let mut i: usize = 0;
    while i < effects.len()
        invariant
            i <= effects.len(),
            uuids == planned_uuids::<T>(views(effects@)),
            forall|a: int, b: int| 0 <= a < b < i ==> uuids[a] != uuids[b],
        decreases effects.len() - i,
    {
        let mut j: usize = 0;
        while j < i
            invariant
                j <= i < effects.len(),
                uuids == planned_uuids::<T>(views(effects@)),
                forall|a: int| 0 <= a < j ==> uuids[a] != uuids[i as int],
            decreases i - j,
        {
            assert(uuids[i as int] == T::uuid_of(effects@[i as int]@));
            assert(uuids[j as int] == T::uuid_of(effects@[j as int]@));
            if *effects[j].uuid() == *effects[i].uuid() {
                return false;
            }
            j += 1;
        }
        i += 1;
    }
    true
}

/// Whether every effect has a non-empty planned transaction id.
pub open spec fn uuids_present<T: Planned>(models: Seq<T::V>) -> bool {
    forall|i: int|
        0 <= i < models.len() ==> (#[trigger] planned_uuids::<T>(models)[i]).len() > 0
}

/// Whether every effect has a non-empty planned transaction id.
pub fn planned_uuids_present<T: Planned>(effects: &Vec<T>) -> (answer: bool)
    ensures
        answer == uuids_present::<T>(views(effects@)),
{
    let ghost uuids = planned_uuids::<T>(views(effects@));
    let mut i: usize = 0;
    while i < effects.len()
        invariant
            i <= effects.len(),
            uuids == planned_uuids::<T>(views(effects@)),
            forall|j: int| 0 <= j < i ==> (#[trigger] uuids[j]).len() > 0,
        decreases effects.len() - i,
    {
        assert(uuids[i as int] == T::uuid_of(effects@[i as int]@));
        if effects[i].uuid().as_str().is_empty() {
            return false;
        }
        i += 1;
    }
    true
}

impl Identified for SidecarTablePin {
    open spec fn identity_of(model: SidecarTablePinModel) -> TableIdentity {
        model.identity
    }

    fn identity(&self) -> (identity: TableIdentity) {
        self.identity
    }
}

impl Identified for SidecarTableRegistration {
    open spec fn identity_of(model: SidecarTableRegistrationModel) -> TableIdentity {
        model.identity
    }

    fn identity(&self) -> (identity: TableIdentity) {
        self.identity
    }
}

impl Identified for SidecarTableRename {
    open spec fn identity_of(model: SidecarTableRenameModel) -> TableIdentity {
        model.identity
    }

    fn identity(&self) -> (identity: TableIdentity) {
        self.identity
    }
}

impl Identified for SidecarTombstone {
    open spec fn identity_of(model: SidecarTombstoneModel) -> TableIdentity {
        model.identity
    }

    fn identity(&self) -> (identity: TableIdentity) {
        self.identity
    }
}

impl Identified for RecoveryTableEffect {
    open spec fn identity_of(model: RecoveryTableEffectModel) -> TableIdentity {
        model.identity
    }

    fn identity(&self) -> (identity: TableIdentity) {
        self.identity
    }
}

impl Identified for RecoveryTableUpdateSlot {
    open spec fn identity_of(model: RecoveryTableUpdateSlotModel) -> TableIdentity {
        model.identity
    }

    fn identity(&self) -> (identity: TableIdentity) {
        self.identity
    }
}

impl Identified for RecoveryBranchMergeEffect {
    open spec fn identity_of(model: RecoveryBranchMergeEffectModel) -> TableIdentity {
        model.identity
    }

    fn identity(&self) -> (identity: TableIdentity) {
        self.identity
    }
}

impl Identified for RecoverySchemaApplyEffect {
    open spec fn identity_of(model: RecoverySchemaApplyEffectModel) -> TableIdentity {
        model.identity
    }

    fn identity(&self) -> (identity: TableIdentity) {
        self.identity
    }
}

impl Identified for RecoveryEnsureIndicesEffect {
    open spec fn identity_of(model: RecoveryEnsureIndicesEffectModel) -> TableIdentity {
        model.identity
    }

    fn identity(&self) -> (identity: TableIdentity) {
        self.identity
    }
}

impl Aliased for SidecarTablePin {
    open spec fn alias_of(model: SidecarTablePinModel) -> Seq<char> {
        model.table_key
    }

    fn alias(&self) -> (alias: &String) {
        &self.table_key
    }
}

impl Aliased for RecoveryTableUpdateSlot {
    open spec fn alias_of(model: RecoveryTableUpdateSlotModel) -> Seq<char> {
        model.table_key
    }

    fn alias(&self) -> (alias: &String) {
        &self.table_key
    }
}

impl Aliased for TableOutcome {
    open spec fn alias_of(model: TableOutcomeModel) -> Seq<char> {
        model.table_key
    }

    fn alias(&self) -> (alias: &String) {
        &self.table_key
    }
}

impl Planned for RecoveryTableEffect {
    open spec fn uuid_of(model: RecoveryTableEffectModel) -> Seq<char> {
        model.planned_transaction.uuid
    }

    fn uuid(&self) -> (uuid: &String) {
        &self.planned_transaction.uuid
    }
}

impl Planned for RecoveryEnsureIndicesEffect {
    open spec fn uuid_of(model: RecoveryEnsureIndicesEffectModel) -> Seq<char> {
        model.planned_transaction.uuid
    }

    fn uuid(&self) -> (uuid: &String) {
        &self.planned_transaction.uuid
    }
}

impl Planned for RecoverySchemaApplyEffect {
    open spec fn uuid_of(model: RecoverySchemaApplyEffectModel) -> Seq<char> {
        model.kind.planned().uuid
    }

    fn uuid(&self) -> (uuid: &String) {
        &self.kind.planned_transaction().uuid
    }
}

} // verus!
