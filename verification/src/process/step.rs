//! The steps of a recovery, and the questions about the tables of a sidecar that
//! decide between them.

use vstd::prelude::*;

use crate::classify::{ClassifiedTable, TableClassification};
use crate::error::{internal, is_expected_version_mismatch, OmniError, OmniErrorModel};
use crate::history::EffectOwnership;
use crate::sidecar::{RecoveryMode, SidecarTablePin, SidecarTablePinModel};
use crate::value::views;

verus! {

/// What recovery does next with a sidecar.
#[derive(Debug, PartialEq, Eq)]
pub enum RecoveryStep {
    /// Read the live authority of the sidecar's branch, and ask again.
    ReadLiveAuthority,
    /// Read the hash of the live schema, and ask again.
    ReadLiveSchema,
    /// Leave the sidecar untouched for a later pass.
    Defer,
    /// Leave the sidecar untouched and report why.
    Refuse(OmniError),
    /// Remove the target branches that the attempt forked and never wrote to, then
    /// delete the sidecar. Where a branch cannot be removed yet, defer.
    DiscardForks,
    /// Delete the sidecar: nothing of its attempt is left.
    DeleteSidecar,
    /// Undo what the attempt did and publish that.
    RollBack,
    /// Publish what the attempt reached.
    RollForward,
    /// Record that an earlier pass published the attempt, and delete the sidecar.
    RecordRolledForward,
}

/// What a [`RecoveryStep`] stands for.
pub enum RecoveryStepModel {
    ReadLiveAuthority,
    ReadLiveSchema,
    Defer,
    Refuse(OmniErrorModel),
    DiscardForks,
    DeleteSidecar,
    RollBack,
    RollForward,
    RecordRolledForward,
}

impl View for RecoveryStep {
    type V = RecoveryStepModel;

    open spec fn view(&self) -> RecoveryStepModel {
        match *self {
            RecoveryStep::ReadLiveAuthority => RecoveryStepModel::ReadLiveAuthority,
            RecoveryStep::ReadLiveSchema => RecoveryStepModel::ReadLiveSchema,
            RecoveryStep::Defer => RecoveryStepModel::Defer,
            RecoveryStep::Refuse(error) => RecoveryStepModel::Refuse(error@),
            RecoveryStep::DiscardForks => RecoveryStepModel::DiscardForks,
            RecoveryStep::DeleteSidecar => RecoveryStepModel::DeleteSidecar,
            RecoveryStep::RollBack => RecoveryStepModel::RollBack,
            RecoveryStep::RollForward => RecoveryStepModel::RollForward,
            RecoveryStep::RecordRolledForward => RecoveryStepModel::RecordRolledForward,
        }
    }
}

impl RecoveryStepModel {
    /// Whether the step removes or restores something that an attempt made.
    pub open spec fn destructive(self) -> bool {
        self is DiscardForks || self is RollBack
    }
}

/// A state that nobody may act on: an error at open, a deferral while serving.
pub open spec fn refuse(mode: RecoveryMode, message: Seq<char>) -> RecoveryStepModel {
    match mode {
        RecoveryMode::RollForwardOnly => RecoveryStepModel::Defer,
        RecoveryMode::Full => RecoveryStepModel::Refuse(internal(message)),
    }
}

/// A state that only a rollback resolves: a deferral while serving.
pub open spec fn roll_back(mode: RecoveryMode) -> RecoveryStepModel {
    match mode {
        RecoveryMode::RollForwardOnly => RecoveryStepModel::Defer,
        RecoveryMode::Full => RecoveryStepModel::RollBack,
    }
}

/// A state that nobody may act on.
pub fn refuse_step(mode: RecoveryMode, message: &str) -> (step: RecoveryStep)
    ensures
        step@ == refuse(mode, message@),
{
    match mode {
        RecoveryMode::RollForwardOnly => RecoveryStep::Defer,
        RecoveryMode::Full => RecoveryStep::Refuse(OmniError::manifest_internal(message)),
    }
}

/// A state that only a rollback resolves.
pub fn roll_back_step(mode: RecoveryMode) -> (step: RecoveryStep)
    ensures
        step@ == roll_back(mode),
{
    match mode {
        RecoveryMode::RollForwardOnly => RecoveryStep::Defer,
        RecoveryMode::Full => RecoveryStep::RollBack,
    }
}

/// Whether some table has an ownership.
pub open spec fn any_ownership(states: Seq<ClassifiedTable>, ownership: EffectOwnership) -> bool {
    exists|i: int| 0 <= i < states.len() && (#[trigger] states[i]).effect_ownership == ownership
}

/// Whether some table holds an effect of the attempt.
pub open spec fn any_owned(states: Seq<ClassifiedTable>) -> bool {
    any_ownership(states, EffectOwnership::OwnAtHead) || any_ownership(
        states,
        EffectOwnership::OwnBeforeHead,
    ) || any_ownership(states, EffectOwnership::OwnCompensatedAtHead)
}

/// Whether a table moved past the manifest without the attempt.
pub open spec fn drifted(state: ClassifiedTable) -> bool {
    state.effect_ownership == EffectOwnership::Absent && state.lance_head > state.manifest_pinned
}

/// Whether some table moved past the manifest without the attempt.
pub open spec fn any_drift(states: Seq<ClassifiedTable>) -> bool {
    exists|i: int| 0 <= i < states.len() && drifted(#[trigger] states[i])
}

/// Whether some table that the manifest owns moved past it without the attempt.
pub open spec fn any_owned_table_drift(states: Seq<ClassifiedTable>) -> bool {
    exists|i: int|
        0 <= i < states.len() && drifted(#[trigger] states[i]) && !states[i].unpublished_fork
}

/// Whether the manifest moved under a table that holds an effect of the attempt,
/// in a way that undoing the effect would not leave in place. It would, where the
/// effect sits at the head on top of what the manifest selects now: undoing it
/// then sets the table back to exactly that.
pub open spec fn ambiguous(pin: SidecarTablePinModel, state: ClassifiedTable) -> bool {
    let on_top = (state.effect_ownership == EffectOwnership::OwnAtHead || state.effect_ownership
        == EffectOwnership::OwnCompensatedAtHead) && pin.expected_version < state.manifest_pinned
        < state.lance_head;
    state.effect_ownership != EffectOwnership::Absent && state.manifest_pinned
        != pin.expected_version && !on_top
}

/// Whether the manifest moved ambiguously under some table.
pub open spec fn any_ambiguous(
    pins: Seq<SidecarTablePinModel>,
    states: Seq<ClassifiedTable>,
) -> bool {
    exists|i: int| 0 <= i < states.len() && ambiguous(pins[i], #[trigger] states[i])
}

/// Whether the manifest selects a later version of some table than expected.
pub open spec fn any_advanced(
    pins: Seq<SidecarTablePinModel>,
    states: Seq<ClassifiedTable>,
) -> bool {
    exists|i: int|
        0 <= i < states.len() && (#[trigger] states[i]).manifest_pinned
            > pins[i].expected_version
}

/// Whether the manifest still inherits some table that the attempt forks.
pub open spec fn any_unpublished_fork(states: Seq<ClassifiedTable>) -> bool {
    exists|i: int| 0 <= i < states.len() && (#[trigger] states[i]).unpublished_fork
}

/// Whether every table is in a class.
pub open spec fn all_in_class(states: Seq<ClassifiedTable>, class: TableClassification) -> bool {
    forall|i: int| 0 <= i < states.len() ==> (#[trigger] states[i]).classification == class
}

/// The answers to the questions about the tables of a sidecar.
#[derive(Clone, Copy, Debug, PartialEq, Eq, Structural)]
pub struct Summary {
    pub unverifiable: bool,
    pub own_effect: bool,
    pub own_effect_buried: bool,
    pub drift: bool,
    pub owned_table_drift: bool,
    pub ambiguous_advance: bool,
    pub advanced: bool,
    pub unpublished_fork: bool,
    pub all_no_movement: bool,
    pub all_reached: bool,
}

/// The answers to the questions about the tables of a sidecar.
pub open spec fn summary(
    pins: Seq<SidecarTablePinModel>,
    states: Seq<ClassifiedTable>,
) -> Summary {
    Summary {
        unverifiable: any_ownership(states, EffectOwnership::Unverifiable),
        own_effect: any_owned(states),
        own_effect_buried: any_ownership(states, EffectOwnership::OwnBeforeHead),
        drift: any_drift(states),
        owned_table_drift: any_owned_table_drift(states),
        ambiguous_advance: any_ambiguous(pins, states),
        advanced: any_advanced(pins, states),
        unpublished_fork: any_unpublished_fork(states),
        all_no_movement: all_in_class(states, TableClassification::NoMovement),
        all_reached: all_in_class(states, TableClassification::RolledPastExpected),
    }
}

/// One more table changes the answers by what it is itself.
proof fn lemma_summary_push(
    pins: Seq<SidecarTablePinModel>,
    states: Seq<ClassifiedTable>,
    n: int,
)
    requires
        0 <= n < states.len(),
        states.len() <= pins.len(),
    ensures
        ({
            let before = summary(pins, states.subrange(0, n));
            let after = summary(pins, states.subrange(0, n + 1));
            let state = states[n];
            let ownership = state.effect_ownership;
            &&& after.unverifiable == (before.unverifiable || ownership
                == EffectOwnership::Unverifiable)
            &&& after.own_effect == (before.own_effect || ownership == EffectOwnership::OwnAtHead
                || ownership == EffectOwnership::OwnBeforeHead || ownership
                == EffectOwnership::OwnCompensatedAtHead)
            &&& after.own_effect_buried == (before.own_effect_buried || ownership
                == EffectOwnership::OwnBeforeHead)
            &&& after.drift == (before.drift || drifted(state))
            &&& after.owned_table_drift == (before.owned_table_drift || (drifted(state)
                && !state.unpublished_fork))
            &&& after.ambiguous_advance == (before.ambiguous_advance || ambiguous(pins[n], state))
            &&& after.advanced == (before.advanced || state.manifest_pinned
                > pins[n].expected_version)
            &&& after.unpublished_fork == (before.unpublished_fork || state.unpublished_fork)
            &&& after.all_no_movement == (before.all_no_movement && state.classification
                == TableClassification::NoMovement)
            &&& after.all_reached == (before.all_reached && state.classification
                == TableClassification::RolledPastExpected)
        }),
{
    let shorter = states.subrange(0, n);
    let longer = states.subrange(0, n + 1);
    assert(longer =~= shorter.push(states[n]));
    assert(longer[n] == states[n]);
    assert forall|i: int| 0 <= i < n implies longer[i] == #[trigger] shorter[i] by {}
    assert forall|ownership: EffectOwnership|
        #[trigger] any_ownership(longer, ownership) == (any_ownership(shorter, ownership)
            || states[n].effect_ownership == ownership) by {
        if any_ownership(shorter, ownership) {
            let i = choose|i: int|
                0 <= i < shorter.len() && (#[trigger] shorter[i]).effect_ownership == ownership;
            assert(longer[i].effect_ownership == ownership);
        }
        if any_ownership(longer, ownership) {
            let i = choose|i: int|
                0 <= i < longer.len() && (#[trigger] longer[i]).effect_ownership == ownership;
            if i < n {
                assert(shorter[i].effect_ownership == ownership);
            }
        }
    }
    assert forall|class: TableClassification|
        #[trigger] all_in_class(longer, class) == (all_in_class(shorter, class)
            && states[n].classification == class) by {
        if all_in_class(longer, class) {
            assert forall|i: int| 0 <= i < shorter.len() implies (
            #[trigger] shorter[i]).classification == class by {
                assert(longer[i].classification == class);
            }
        }
    }
    if any_drift(shorter) {
        let i = choose|i: int| 0 <= i < shorter.len() && drifted(#[trigger] shorter[i]);
        assert(drifted(longer[i]));
    }
    if any_owned_table_drift(shorter) {
        let i = choose|i: int|
            0 <= i < shorter.len() && drifted(#[trigger] shorter[i])
                && !shorter[i].unpublished_fork;
        assert(drifted(longer[i]));
    }
    if any_ambiguous(pins, shorter) {
        let i = choose|i: int|
            0 <= i < shorter.len() && ambiguous(pins[i], #[trigger] shorter[i]);
        assert(ambiguous(pins[i], longer[i]));
    }
    if any_advanced(pins, shorter) {
        let i = choose|i: int|
            0 <= i < shorter.len() && (#[trigger] shorter[i]).manifest_pinned
                > pins[i].expected_version;
        assert(longer[i].manifest_pinned > pins[i].expected_version);
    }
    if any_unpublished_fork(shorter) {
        let i = choose|i: int|
            0 <= i < shorter.len() && (#[trigger] shorter[i]).unpublished_fork;
        assert(longer[i].unpublished_fork);
    }
}

/// Answers the questions about the tables of a sidecar.
pub fn summarize(pins: &Vec<SidecarTablePin>, states: &Vec<ClassifiedTable>) -> (answers: Summary)
    requires
        states.len() == pins.len(),
    ensures
        answers == summary(views(pins@), states@),
{
    let mut answers = Summary {
        unverifiable: false,
        own_effect: false,
        own_effect_buried: false,
        drift: false,
        owned_table_drift: false,
        ambiguous_advance: false,
        advanced: false,
        unpublished_fork: false,
        all_no_movement: true,
        all_reached: true,
    };
    let ghost models = views(pins@);
    let mut i: usize = 0;
    while i < states.len()
        invariant
            i <= states.len(),
            states.len() == pins.len(),
            models == views(pins@),
            answers == summary(models, states@.subrange(0, i as int)),
        decreases states.len() - i,
    {
        proof {
            lemma_summary_push(models, states@, i as int);
            assert(models[i as int] == pins@[i as int]@);
        }
        let state: ClassifiedTable = states[i];
        let expected: u64 = pins[i].expected_version;
        let (absent, at_head): (bool, bool) = match state.effect_ownership {
            EffectOwnership::Absent => (true, false),
            EffectOwnership::Unverifiable => {
                answers.unverifiable = true;
                (false, false)
            },
            EffectOwnership::OwnBeforeHead => {
                answers.own_effect = true;
                answers.own_effect_buried = true;
                (false, false)
            },
            EffectOwnership::OwnAtHead | EffectOwnership::OwnCompensatedAtHead => {
                answers.own_effect = true;
                (false, true)
            },
        };
        if absent && state.lance_head > state.manifest_pinned {
            answers.drift = true;
            if !state.unpublished_fork {
                answers.owned_table_drift = true;
            }
        }
        if !absent && state.manifest_pinned != expected && !(at_head && state.manifest_pinned
            > expected && state.manifest_pinned < state.lance_head) {
            answers.ambiguous_advance = true;
        }
        if state.manifest_pinned > expected {
            answers.advanced = true;
        }
        if state.unpublished_fork {
            answers.unpublished_fork = true;
        }
        match state.classification {
            TableClassification::NoMovement => {
                answers.all_reached = false;
            },
            TableClassification::RolledPastExpected => {
                answers.all_no_movement = false;
            },
            _ => {
                answers.all_no_movement = false;
                answers.all_reached = false;
            },
        }
        i += 1;
    }
    assert(states@.subrange(0, states@.len() as int) =~= states@);
    answers
}

/// What follows when a roll-forward could not be published.
#[derive(Clone, Copy, Debug, PartialEq, Eq, Structural)]
pub enum ConflictStep {
    /// Another pass may have published the same fixed outcome: look for it.
    LookForVisibleOutcome,
    /// Another writer moved a table: see whether the goal is reached.
    Converge,
    /// Report the error.
    Fail,
}

/// What follows when a roll-forward could not be published. An attempt with fixed
/// outcomes looks for them when the read set changed; one that is recovered by
/// classification converges when a table moved.
pub fn after_publish_error(
    fixed_outcomes: bool,
    by_classification: bool,
    error: &OmniError,
) -> (next: ConflictStep)
    ensures
        next == (if fixed_outcomes && error@.read_set_changed() {
            ConflictStep::LookForVisibleOutcome
        } else if by_classification && error@.expected_version_mismatch() {
            ConflictStep::Converge
        } else {
            ConflictStep::Fail
        }),
{
    if fixed_outcomes && error.is_read_set_changed() {
        ConflictStep::LookForVisibleOutcome
    } else if by_classification && is_expected_version_mismatch(error) {
        ConflictStep::Converge
    } else {
        ConflictStep::Fail
    }
}

} // verus!
