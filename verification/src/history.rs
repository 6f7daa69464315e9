//! Who owns the commits of a table: proofs of ownership from the transactions
//! that its history holds.

use vstd::prelude::*;

use crate::error::{internal, OmniError, OmniErrorModel};
use crate::shape::defect::{first_defect, lemma_first_defect, lemma_no_defect};
use crate::sidecar::{
    StagedTransactionIdentity, StagedTransactionIdentityModel, MAX_EFFECT_IDENTITY_SCAN_VERSIONS,
};
use crate::text::{cat3, cat4, cat5, cat6, decimal, decimal_text, quote, quoted_text};
use crate::value::{opt_view, views, Replicate, Same};

verus! {

/// What a committed transaction did, as far as recovery tells it apart.
#[derive(Clone, Copy, Debug, PartialEq, Eq, Structural)]
pub enum TableOperation {
    /// The table was set back to an earlier version.
    Restore { version: u64 },
    /// An index was built.
    CreateIndex,
    /// Anything else.
    Other,
}

/// How far a planned effect is found in the history of its table.
#[derive(Clone, Copy, Debug, PartialEq, Eq, Structural)]
pub enum EffectOwnership {
    /// The effect never landed.
    Absent,
    /// The effect is the newest commit.
    OwnAtHead,
    /// Other commits cover the effect.
    OwnBeforeHead,
    /// The newest commit restores the table to the version that the manifest
    /// selects: the effect is undone, and only the publish is missing.
    OwnCompensatedAtHead,
    /// The history cannot tell.
    Unverifiable,
}

/// A transaction that a table's history holds.
#[derive(Debug, PartialEq, Eq)]
pub struct CommittedTransaction {
    pub identity: StagedTransactionIdentity,
    pub operation: TableOperation,
    /// How the table store spells the operation.
    pub description: String,
}

/// What a [`CommittedTransaction`] stands for.
pub struct CommittedTransactionModel {
    pub identity: StagedTransactionIdentityModel,
    pub operation: TableOperation,
    pub description: Seq<char>,
}

impl View for CommittedTransaction {
    type V = CommittedTransactionModel;

    open spec fn view(&self) -> CommittedTransactionModel {
        CommittedTransactionModel {
            identity: self.identity@,
            operation: self.operation,
            description: self.description@,
        }
    }
}

impl Replicate for CommittedTransaction {
    fn replicate(&self) -> (copy: Self) {
        CommittedTransaction {
            identity: self.identity.replicate(),
            operation: self.operation,
            description: self.description.clone(),
        }
    }
}

/// The transactions of consecutive versions of a table. A version without a
/// readable transaction is empty.
#[derive(Debug, PartialEq, Eq)]
pub struct TableHistory {
    pub first_version: u64,
    pub transactions: Vec<Option<CommittedTransaction>>,
}

impl TableHistory {
    /// The transaction that made a version, if it is readable.
    pub open spec fn made(self, version: int) -> Option<CommittedTransactionModel> {
        if self.first_version <= version < self.first_version + self.transactions@.len() {
            opt_view(self.transactions@[version - self.first_version])
        } else {
            None
        }
    }

    /// The transaction that made a version, if it is readable.
    pub fn at(&self, version: u64) -> (transaction: Option<&CommittedTransaction>)
        ensures
            opt_view(transaction) == self.made(version as int),
    {
        if version < self.first_version {
            return None;
        }
        let offset: u64 = version - self.first_version;
        if offset >= self.transactions.len() as u64 {
            return None;
        }
        self.transactions[offset as usize].as_ref()
    }
}

/// Whether a version was made by the transaction with a given id.
pub open spec fn made_by(history: TableHistory, version: int, uuid: Seq<char>) -> bool {
    history.made(version) matches Some(transaction) && transaction.identity.uuid == uuid
}

/// Whether a version before `end` was made by the transaction with a given id.
pub open spec fn made_before(
    history: TableHistory,
    first: int,
    end: int,
    uuid: Seq<char>,
) -> bool {
    exists|version: int| first <= version < end && #[trigger] made_by(history, version, uuid)
}

/// Whether some version in a range has no readable transaction.
pub open spec fn gap_within(history: TableHistory, first: int, end: int) -> bool {
    exists|version: int| first <= version < end && #[trigger] history.made(version) is None
}

/// How far the transaction with id `uuid` is found in the history of a table
/// whose newest version is `head`. It can have made no version before `first`;
/// `compensation` is the version that undoing it restores.
pub open spec fn ownership(
    history: TableHistory,
    head: u64,
    first: u64,
    uuid: Seq<char>,
    compensation: u64,
) -> EffectOwnership {
    if head < first {
        EffectOwnership::Absent
    } else if head - first + 1 > MAX_EFFECT_IDENTITY_SCAN_VERSIONS {
        EffectOwnership::Unverifiable
    } else if made_before(history, first as int, head as int, uuid) {
        if restores(history, head as int, compensation) {
            EffectOwnership::OwnCompensatedAtHead
        } else {
            EffectOwnership::OwnBeforeHead
        }
    } else if made_by(history, head as int, uuid) {
        EffectOwnership::OwnAtHead
    } else if gap_within(history, first as int, head + 1) {
        EffectOwnership::Unverifiable
    } else {
        EffectOwnership::Absent
    }
}

/// Whether a version restores the table to `target`.
pub open spec fn restores(history: TableHistory, version: int, target: u64) -> bool {
    history.made(version) matches Some(transaction) && transaction.operation
        == (TableOperation::Restore { version: target })
}

/// Whether a version restores the table to `target`.
fn does_restore(history: &TableHistory, version: u64, target: u64) -> (answer: bool)
    ensures
        answer == restores(*history, version as int, target),
{
    match history.at(version) {
        Some(transaction) => match transaction.operation {
            TableOperation::Restore { version: restored } => restored == target,
            _ => false,
        },
        None => false,
    }
}

/// How far the transaction with id `uuid` is found in the history of a table.
pub fn effect_ownership(
    history: &TableHistory,
    head: u64,
    first: u64,
    uuid: &String,
    compensation: u64,
) -> (found: EffectOwnership)
    ensures
        found == ownership(*history, head, first, uuid@, compensation),
{
    if head < first {
        return EffectOwnership::Absent;
    }
    if head - first >= MAX_EFFECT_IDENTITY_SCAN_VERSIONS {
        return EffectOwnership::Unverifiable;
    }
    let mut unverifiable: bool = false;
    let mut version: u64 = first;
    loop
        invariant
            first <= version <= head,
            head - first < MAX_EFFECT_IDENTITY_SCAN_VERSIONS,
            unverifiable == gap_within(*history, first as int, version as int),
            !made_before(*history, first as int, version as int, uuid@),
        decreases head - version,
    {
        match history.at(version) {
            Some(transaction) => {
                if transaction.identity.uuid == *uuid {
                    assert(made_by(*history, version as int, uuid@));
                    if version == head {
                        return EffectOwnership::OwnAtHead;
                    }
                    if does_restore(history, head, compensation) {
                        return EffectOwnership::OwnCompensatedAtHead;
                    }
                    return EffectOwnership::OwnBeforeHead;
                }
            },
            None => {
                assert(history.made(version as int) is None);
                unverifiable = true;
            },
        }
        assert(!made_by(*history, version as int, uuid@));
        if version == head {
            if unverifiable {
                return EffectOwnership::Unverifiable;
            }
            return EffectOwnership::Absent;
        }
        version += 1;
    }
}

/// What a look at the head of a table found.
#[derive(Debug, PartialEq, Eq)]
pub struct HeadReading {
    pub version: u64,
    pub history: TableHistory,
}

/// The head of a table: its version, the transaction that made it, and how far a
/// planned effect is found in it.
#[derive(Debug, PartialEq, Eq)]
pub struct LanceHeadObservation {
    pub version: u64,
    pub transaction: Option<StagedTransactionIdentity>,
    pub effect_ownership: EffectOwnership,
}

/// What a [`LanceHeadObservation`] stands for.
pub struct LanceHeadObservationModel {
    pub version: u64,
    pub transaction: Option<StagedTransactionIdentityModel>,
    pub effect_ownership: EffectOwnership,
}

impl View for LanceHeadObservation {
    type V = LanceHeadObservationModel;

    open spec fn view(&self) -> LanceHeadObservationModel {
        LanceHeadObservationModel {
            version: self.version,
            transaction: opt_view(self.transaction),
            effect_ownership: self.effect_ownership,
        }
    }
}

/// A planned effect to look for.
#[derive(Debug, PartialEq, Eq)]
pub struct PlannedEffect {
    /// First version that the effect can have made.
    pub first_possible_version: u64,
    /// Id of the transaction.
    pub uuid: String,
    /// Version that undoing the effect restores.
    pub compensation_target: u64,
}

/// What a planned effect to look for stands for: the first version that it can
/// have made, the id of its transaction, and the version that undoing it restores.
pub open spec fn planned_view(planned: Option<PlannedEffect>) -> Option<(u64, Seq<char>, u64)> {
    match planned {
        Some(effect) => Some(
            (effect.first_possible_version, effect.uuid@, effect.compensation_target),
        ),
        None => None,
    }
}

/// What the head of a table is, with respect to a planned effect.
pub open spec fn head_observation(
    reading: HeadReading,
    planned: Option<(u64, Seq<char>, u64)>,
) -> LanceHeadObservationModel {
    match planned {
        None => LanceHeadObservationModel {
            version: reading.version,
            transaction: None,
            effect_ownership: EffectOwnership::Absent,
        },
        Some((first, uuid, compensation)) => LanceHeadObservationModel {
            version: reading.version,
            transaction: match reading.history.made(reading.version as int) {
                Some(transaction) => Some(transaction.identity),
                None => None,
            },
            effect_ownership: ownership(
                reading.history,
                reading.version,
                first,
                uuid,
                compensation,
            ),
        },
    }
}

/// Looks for a planned effect at the head of a table.
pub fn observe_head(reading: &HeadReading, planned: &Option<PlannedEffect>) -> (observation:
    LanceHeadObservation)
    ensures
        observation@ == head_observation(*reading, planned_view(*planned)),
{
    match planned {
        None => LanceHeadObservation {
            version: reading.version,
            transaction: None,
            effect_ownership: EffectOwnership::Absent,
        },
        Some(effect) => {
            let transaction: Option<StagedTransactionIdentity> = match reading.history.at(
                reading.version,
            ) {
                Some(transaction) => Some(transaction.identity.replicate()),
                None => None,
            };
            LanceHeadObservation {
                version: reading.version,
                transaction,
                effect_ownership: effect_ownership(
                    &reading.history,
                    reading.version,
                    effect.first_possible_version,
                    &effect.uuid,
                    effect.compensation_target,
                ),
            }
        },
    }
}

/// The error for an index transaction without an output version.
pub open spec fn index_overflow() -> OmniErrorModel {
    internal("EnsureIndices transaction output version overflow"@)
}

/// Whether the history shows that a planned transaction built an index: every
/// version before it is readable and made by another transaction.
pub open spec fn built_index(
    history: TableHistory,
    head: u64,
    planned: StagedTransactionIdentityModel,
) -> bool {
    let first = planned.read_version + 1;
    &&& head >= first
    &&& head - first + 1 <= MAX_EFFECT_IDENTITY_SCAN_VERSIONS
    &&& exists|version: int|
        {
            &&& first <= version <= head
            &&& #[trigger] made_by(history, version, planned.uuid)
            &&& history.made(version)->0.operation == TableOperation::CreateIndex
            &&& !gap_within(history, first, version)
            &&& !made_before(history, first, version, planned.uuid)
        }
}

/// Proves that a planned transaction built an index, rather than trusting its id.
pub fn prove_ensure_indices_create_index_operation(
    history: &TableHistory,
    head: u64,
    planned: &StagedTransactionIdentity,
) -> (result: Result<bool, OmniError>)
    ensures
        planned.read_version == u64::MAX ==> result is Err && result->Err_0@ == index_overflow(),
        planned.read_version < u64::MAX ==> result is Ok && result->Ok_0 == built_index(
            *history,
            head,
            planned@,
        ),
{
    if planned.read_version == u64::MAX {
        return Err(
            OmniError::manifest_internal("EnsureIndices transaction output version overflow"),
        );
    }
    let first: u64 = planned.read_version + 1;
    if head < first || head - first >= MAX_EFFECT_IDENTITY_SCAN_VERSIONS {
        return Ok(false);
    }
    let mut version: u64 = first;
    loop
        invariant
            first == planned.read_version + 1,
            first <= version <= head,
            head - first < MAX_EFFECT_IDENTITY_SCAN_VERSIONS,
            !gap_within(*history, first as int, version as int),
            !made_before(*history, first as int, version as int, planned.uuid@),
        decreases head - version,
    {
        match history.at(version) {
            None => {
                proof {
                    assert(history.made(version as int) is None);
                    assert forall|other: int|
                        first <= other <= head && made_by(
                            *history,
                            other,
                            planned.uuid@,
                        ) implies gap_within(*history, first as int, other) by {
                        assert(other > version);
                    }
                }
                return Ok(false);
            },
            Some(transaction) => {
                if transaction.identity.uuid == planned.uuid {
                    let answer: bool = match transaction.operation {
                        TableOperation::CreateIndex => true,
                        _ => false,
                    };
                    proof {
                        assert(made_by(*history, version as int, planned.uuid@));
                        assert forall|other: int|
                            first <= other <= head && other != version && made_by(
                                *history,
                                other,
                                planned.uuid@,
                            ) implies made_before(
                            *history,
                            first as int,
                            other,
                            planned.uuid@,
                        ) by {
                            if other < version {
                                assert(made_before(
                                    *history,
                                    first as int,
                                    version as int,
                                    planned.uuid@,
                                ));
                            }
                        }
                        if answer {
                            assert(built_index(*history, head, planned@));
                        } else if built_index(*history, head, planned@) {
                            let other = choose|other: int|
                                {
                                    &&& first <= other <= head
                                    &&& #[trigger] made_by(*history, other, planned@.uuid)
                                    &&& history.made(other)->0.operation
                                        == TableOperation::CreateIndex
                                    &&& !gap_within(*history, first as int, other)
                                    &&& !made_before(*history, first as int, other, planned@.uuid)
                                };
                            assert(other == version);
                        }
                    }
                    return Ok(answer);
                }
            },
        }
        assert(!made_by(*history, version as int, planned.uuid@));
        if version == head {
            return Ok(false);
        }
        version += 1;
    }
}

/// What the history says of a chain of data commits.
#[derive(Debug, PartialEq, Eq)]
pub struct BranchMergeMultiCommitProof {
    pub effect_ownership: EffectOwnership,
    /// The whole chain is there, followed by at most one derived index commit.
    pub full_effect_at_head: bool,
    pub unsafe_reason: Option<String>,
}

/// What a [`BranchMergeMultiCommitProof`] stands for.
pub struct BranchMergeMultiCommitProofModel {
    pub effect_ownership: EffectOwnership,
    pub full_effect_at_head: bool,
    pub unsafe_reason: Option<Seq<char>>,
}

impl View for BranchMergeMultiCommitProof {
    type V = BranchMergeMultiCommitProofModel;

    open spec fn view(&self) -> BranchMergeMultiCommitProofModel {
        BranchMergeMultiCommitProofModel {
            effect_ownership: self.effect_ownership,
            full_effect_at_head: self.full_effect_at_head,
            unsafe_reason: opt_view(self.unsafe_reason),
        }
    }
}

impl BranchMergeMultiCommitProofModel {
    /// A history that cannot be attributed, and why.
    pub open spec fn refused(reason: Seq<char>) -> Self {
        BranchMergeMultiCommitProofModel {
            effect_ownership: EffectOwnership::Unverifiable,
            full_effect_at_head: false,
            unsafe_reason: Some(reason),
        }
    }
}

impl BranchMergeMultiCommitProof {
    /// A history that cannot be attributed, and why.
    pub fn unverifiable(reason: String) -> (proven: Self)
        ensures
            proven@ == BranchMergeMultiCommitProofModel::refused(reason@),
    {
        BranchMergeMultiCommitProof {
            effect_ownership: EffectOwnership::Unverifiable,
            full_effect_at_head: false,
            unsafe_reason: Some(reason),
        }
    }
}

/// How messages spell a transaction identity.
pub open spec fn transaction_text(transaction: StagedTransactionIdentityModel) -> Seq<char> {
    "StagedTransactionIdentity { read_version: "@ + decimal(transaction.read_version as nat)
        + ", uuid: "@ + quoted_text(transaction.uuid) + " }"@
}

/// A transaction identity, as messages spell it.
pub fn transaction_to_text(transaction: &StagedTransactionIdentity) -> (text: String)
    ensures
        text@ == transaction_text(transaction@),
{
    let read: String = decimal_text(transaction.read_version);
    let uuid: String = quote(transaction.uuid.as_str());
    cat5(
        "StagedTransactionIdentity { read_version: ",
        read.as_str(),
        ", uuid: ",
        uuid.as_str(),
        " }",
    )
}

/// What is wrong with one version of the history of a merged table.
pub enum MergeFinding {
    /// The plan itself is broken.
    Broken(OmniErrorModel),
    /// The version cannot be attributed to the merge.
    Foreign(Seq<char>),
}

/// What is wrong with version `version` of a merged table, where the merge
/// planned the chain `planned` and the table's newest version is `head`: the
/// chain comes first, transaction by transaction, then at most one index commit;
/// the newest version may instead restore what the manifest selects.
pub open spec fn merge_finding(
    history: TableHistory,
    head: u64,
    planned: Seq<StagedTransactionIdentityModel>,
    manifest_pinned: u64,
    table_key: Seq<char>,
    version: int,
) -> Option<MergeFinding> {
    let place = version - planned[0].read_version - 1;
    match history.made(version) {
        None => Some(
            MergeFinding::Foreign(
                "table '"@ + table_key + "' has no readable transaction identity at version "@
                    + decimal(version as nat),
            ),
        ),
        Some(transaction) => if version == head && place > 0 && restores(
            history,
            version,
            manifest_pinned,
        ) {
            None
        } else if place < planned.len() {
            if planned[place].read_version == u64::MAX {
                Some(
                    MergeFinding::Broken(
                        internal(
                            "BranchMerge transaction version overflow for table '"@ + table_key
                                + "'"@,
                        ),
                    ),
                )
            } else if version != planned[place].read_version + 1 || transaction.identity
                != planned[place] {
                Some(
                    MergeFinding::Foreign(
                        "table '"@ + table_key + "' transaction at version "@ + decimal(
                            version as nat,
                        ) + " is "@ + transaction_text(transaction.identity)
                            + ", expected exact planned identity "@ + transaction_text(
                            planned[place],
                        ) + " at version "@ + decimal((planned[place].read_version + 1) as nat),
                    ),
                )
            } else {
                None
            }
        } else if transaction.operation != TableOperation::CreateIndex || place > planned.len() {
            Some(
                MergeFinding::Foreign(
                    "table '"@ + table_key
                        + "' has an operation outside its single derived CreateIndex tail at version "@
                        + decimal(version as nat) + ": "@ + transaction.description,
                ),
            )
        } else {
            None
        },
    }
}

/// What is found of every version after the one that the chain starts from.
pub open spec fn merge_findings(
    history: TableHistory,
    head: u64,
    planned: Seq<StagedTransactionIdentityModel>,
    manifest_pinned: u64,
    table_key: Seq<char>,
) -> Seq<Option<MergeFinding>> {
    Seq::new(
        (head - planned[0].read_version) as nat,
        |i: int|
            merge_finding(
                history,
                head,
                planned,
                manifest_pinned,
                table_key,
                planned[0].read_version + 1 + i,
            ),
    )
}

/// What the history of a table says of the chain that a merge planned for it.
pub open spec fn merge_proof(
    history: TableHistory,
    head: u64,
    planned: Seq<StagedTransactionIdentityModel>,
    manifest_pinned: u64,
    table_key: Seq<char>,
) -> Result<BranchMergeMultiCommitProofModel, OmniErrorModel> {
    let base = planned[0].read_version;
    if head < base {
        Ok(
            BranchMergeMultiCommitProofModel::refused(
                "table '"@ + table_key + "' HEAD "@ + decimal(head as nat)
                    + " is behind its planned transaction base "@ + decimal(base as nat),
            ),
        )
    } else if head == base {
        Ok(
            BranchMergeMultiCommitProofModel {
                effect_ownership: EffectOwnership::Absent,
                full_effect_at_head: false,
                unsafe_reason: None,
            },
        )
    } else if head - base > MAX_EFFECT_IDENTITY_SCAN_VERSIONS {
        Ok(
            BranchMergeMultiCommitProofModel::refused(
                "table '"@ + table_key + "' requires scanning "@ + decimal((head - base) as nat)
                    + " transaction versions, above the recovery bound "@ + decimal(
                    MAX_EFFECT_IDENTITY_SCAN_VERSIONS as nat,
                ),
            ),
        )
    } else {
        match first_defect(merge_findings(history, head, planned, manifest_pinned, table_key)) {
            Some(MergeFinding::Broken(error)) => Err(error),
            Some(MergeFinding::Foreign(reason)) => Ok(
                BranchMergeMultiCommitProofModel::refused(reason),
            ),
            None => if head > base + 1 && restores(history, head as int, manifest_pinned) {
                Ok(
                    BranchMergeMultiCommitProofModel {
                        effect_ownership: EffectOwnership::OwnCompensatedAtHead,
                        full_effect_at_head: false,
                        unsafe_reason: None,
                    },
                )
            } else {
                Ok(
                    BranchMergeMultiCommitProofModel {
                        effect_ownership: EffectOwnership::OwnAtHead,
                        full_effect_at_head: head - base >= planned.len(),
                        unsafe_reason: None,
                    },
                )
            },
        }
    }
}

/// Looks at one version of the history of a merged table.
fn check_merge_version(
    history: &TableHistory,
    head: u64,
    planned: &Vec<StagedTransactionIdentity>,
    manifest_pinned: u64,
    table_key: &str,
    version: u64,
) -> (finding: Result<Option<String>, OmniError>)
    requires
        planned.len() > 0,
        planned@[0].read_version < version <= head,
    ensures
        match merge_finding(
            *history,
            head,
            views(planned@),
            manifest_pinned,
            table_key@,
            version as int,
        ) {
            Some(MergeFinding::Broken(error)) => finding is Err && finding->Err_0@ == error,
            Some(MergeFinding::Foreign(reason)) => finding is Ok && opt_view(finding->Ok_0)
                == Some(reason),
            None => finding is Ok && finding->Ok_0 is None,
        },
{
    let ghost models = views(planned@);
    assert(models[0] == planned@[0]@);
    let place: u64 = version - planned[0].read_version - 1;
    let number: String = decimal_text(version);
    let transaction: &CommittedTransaction = match history.at(version) {
        Some(transaction) => transaction,
        None => {
            return Ok(
                Some(
                    cat4(
                        "table '",
                        table_key,
                        "' has no readable transaction identity at version ",
                        number.as_str(),
                    ),
                ),
            );
        },
    };
    if version == head && place > 0 && does_restore(history, version, manifest_pinned) {
        return Ok(None);
    }
    if place < planned.len() as u64 {
        let expected: &StagedTransactionIdentity = &planned[place as usize];
        assert(models[place as int] == expected@);
        if expected.read_version == u64::MAX {
            let message: String = cat3(
                "BranchMerge transaction version overflow for table '",
                table_key,
                "'",
            );
            return Err(OmniError::manifest_internal(message.as_str()));
        }
        if version != expected.read_version + 1 || !transaction.identity.same(expected) {
            let found: String = transaction_to_text(&transaction.identity);
            let wanted: String = transaction_to_text(expected);
            let output: String = decimal_text(expected.read_version + 1);
            let head_text: String = cat6(
                "table '",
                table_key,
                "' transaction at version ",
                number.as_str(),
                " is ",
                found.as_str(),
            );
            return Ok(
                Some(
                    cat5(
                        head_text.as_str(),
                        ", expected exact planned identity ",
                        wanted.as_str(),
                        " at version ",
                        output.as_str(),
                    ),
                ),
            );
        }
        return Ok(None);
    }
    if transaction.operation != TableOperation::CreateIndex || place > planned.len() as u64 {
        return Ok(
            Some(
                cat6(
                    "table '",
                    table_key,
                    "' has an operation outside its single derived CreateIndex tail at version ",
                    number.as_str(),
                    ": ",
                    transaction.description.as_str(),
                ),
            ),
        );
    }
    Ok(None)
}

/// Proves from the history of a table how much of a merge's chain it holds.
pub fn prove_branch_merge_multi_commit_effect(
    history: &TableHistory,
    head: u64,
    planned: &Vec<StagedTransactionIdentity>,
    manifest_pinned: u64,
    table_key: &str,
) -> (result: Result<BranchMergeMultiCommitProof, OmniError>)
    requires
        planned.len() > 0,
    ensures
        match merge_proof(*history, head, views(planned@), manifest_pinned, table_key@) {
            Ok(proven) => result is Ok && result->Ok_0@ == proven,
            Err(error) => result is Err && result->Err_0@ == error,
        },
{
    let ghost models = views(planned@);
    assert(models[0] == planned@[0]@);
    let base: u64 = planned[0].read_version;
    if head < base {
        let head_text: String = decimal_text(head);
        let base_text: String = decimal_text(base);
        return Ok(
            BranchMergeMultiCommitProof::unverifiable(
                cat6(
                    "table '",
                    table_key,
                    "' HEAD ",
                    head_text.as_str(),
                    " is behind its planned transaction base ",
                    base_text.as_str(),
                ),
            ),
        );
    }
    if head == base {
        return Ok(
            BranchMergeMultiCommitProof {
                effect_ownership: EffectOwnership::Absent,
                full_effect_at_head: false,
                unsafe_reason: None,
            },
        );
    }
    if head - base > MAX_EFFECT_IDENTITY_SCAN_VERSIONS {
        let count: String = decimal_text(head - base);
        let bound: String = decimal_text(MAX_EFFECT_IDENTITY_SCAN_VERSIONS);
        return Ok(
            BranchMergeMultiCommitProof::unverifiable(
                cat6(
                    "table '",
                    table_key,
                    "' requires scanning ",
                    count.as_str(),
                    " transaction versions, above the recovery bound ",
                    bound.as_str(),
                ),
            ),
        );
    }
    let ghost findings = merge_findings(*history, head, models, manifest_pinned, table_key@);
    let mut done: u64 = 0;
    while done < head - base
        invariant
            base < head,
            done <= head - base <= MAX_EFFECT_IDENTITY_SCAN_VERSIONS,
            planned.len() > 0,
            models == views(planned@),
            models[0] == planned@[0]@,
            base == planned@[0].read_version,
            findings == merge_findings(*history, head, models, manifest_pinned, table_key@),
            forall|j: int| 0 <= j < done ==> findings[j] is None,
        decreases head - base - done,
    {
        let version: u64 = base + 1 + done;
        assert(findings[done as int] == merge_finding(
            *history,
            head,
            models,
            manifest_pinned,
            table_key@,
            version as int,
        ));
        match check_merge_version(history, head, planned, manifest_pinned, table_key, version) {
            Err(error) => {
                proof {
                    lemma_first_defect(findings, done as int);
                }
                return Err(error);
            },
            Ok(Some(reason)) => {
                proof {
                    lemma_first_defect(findings, done as int);
                }
                return Ok(BranchMergeMultiCommitProof::unverifiable(reason));
            },
            Ok(None) => {},
        }
        done += 1;
    }
    proof {
        lemma_no_defect(findings);
    }
    if head - base > 1 && does_restore(history, head, manifest_pinned) {
        return Ok(
            BranchMergeMultiCommitProof {
                effect_ownership: EffectOwnership::OwnCompensatedAtHead,
                full_effect_at_head: false,
                unsafe_reason: None,
            },
        );
    }
    Ok(
        BranchMergeMultiCommitProof {
            effect_ownership: EffectOwnership::OwnAtHead,
            full_effect_at_head: head - base >= planned.len() as u64,
            unsafe_reason: None,
        },
    )
}

} // verus!
