//! Rules that every sidecar generation shares, and how the first broken rule is
//! reported.

use vstd::prelude::*;

use crate::error::{error_text, internal, OmniError, OmniErrorModel};
use crate::identity::{
    bad_alias, invalid_identity_text, path_of, table_path_for_identity, TableIdentity,
};
use crate::lookup::{aliases, aliases_distinct, aliases_within, identities, within};
use crate::sidecar::{
    RecoveryAuthorityToken, RecoveryAuthorityTokenModel, SidecarTablePin, SidecarTablePinModel,
    TableOutcome, TableOutcomeModel,
};
use crate::text::{
    cat2, cat3, cat6, cat7, decimal, decimal_text, ends_with, has_suffix, same_text,
    trim_end_slashes, trimmed_end,
};
use crate::value::{opt_view, views};

verus! {

/// The first defect of a list of findings, in order.
pub open spec fn first_defect<A>(findings: Seq<Option<A>>) -> Option<A>
    decreases findings.len(),
{
    if findings.len() == 0 {
        None
    } else if findings[0] is Some {
        findings[0]
    } else {
        first_defect(findings.drop_first())
    }
}

/// The number of sound findings before the first defect.
pub open spec fn sound_before<A>(findings: Seq<Option<A>>) -> int
    decreases findings.len(),
{
    if findings.len() == 0 || findings[0] is Some {
        0
    } else {
        1 + sound_before(findings.drop_first())
    }
}

/// A defect that only sound findings precede is the first.
pub proof fn lemma_first_defect<A>(findings: Seq<Option<A>>, i: int)
    requires
        0 <= i < findings.len(),
        findings[i] is Some,
        forall|j: int| 0 <= j < i ==> findings[j] is None,
    ensures
        first_defect(findings) == findings[i],
        sound_before(findings) == i,
    decreases i,
{
    if i > 0 {
        lemma_first_defect(findings.drop_first(), i - 1);
    }
}

/// Sound findings have no first defect.
pub proof fn lemma_no_defect<A>(findings: Seq<Option<A>>)
    requires
        forall|j: int| 0 <= j < findings.len() ==> findings[j] is None,
    ensures
        first_defect(findings) is None,
        sound_before(findings) == findings.len(),
    decreases findings.len(),
{
    if findings.len() > 0 {
        lemma_no_defect(findings.drop_first());
    }
}

/// Where there is no first defect, every finding is sound.
pub proof fn lemma_all_sound<A>(findings: Seq<Option<A>>, i: int)
    requires
        first_defect(findings) is None,
        0 <= i < findings.len(),
    ensures
        findings[i] is None,
    decreases findings.len(),
{
    if i > 0 {
        lemma_all_sound(findings.drop_first(), i - 1);
    }
}

/// A finding at the end is the first only where no other is.
pub proof fn lemma_first_defect_push<A>(findings: Seq<Option<A>>, last: Option<A>)
    ensures
        first_defect(findings.push(last)) == (if first_defect(findings) is Some {
            first_defect(findings)
        } else {
            last
        }),
    decreases findings.len(),
{
    let longer = findings.push(last);
    if findings.len() == 0 {
        assert(longer.drop_first() =~= findings);
    } else {
        assert(longer.drop_first() =~= findings.drop_first().push(last));
        lemma_first_defect_push(findings.drop_first(), last);
    }
}

/// The error that reports a broken rule of a sidecar.
pub open spec fn malformed(uri: Seq<char>, version: u32, reason: Seq<char>) -> OmniErrorModel {
    internal(
        "recovery sidecar at '"@ + uri + "' has an invalid schema-v"@ + decimal(version as nat)
            + " shape: "@ + reason,
    )
}

/// The error for the first broken rule, if any.
pub open spec fn malformed_if(uri: Seq<char>, version: u32, defect: Option<Seq<char>>) -> Option<
    OmniErrorModel,
> {
    match defect {
        Some(reason) => Some(malformed(uri, version, reason)),
        None => None,
    }
}

/// The error that reports a broken rule of a sidecar.
pub fn malformed_error(uri: &str, version: u32, reason: &str) -> (error: OmniError)
    ensures
        error@ == malformed(uri@, version, reason@),
{
    let number: String = decimal_text(version as u64);
    let message: String = cat6(
        "recovery sidecar at '",
        uri,
        "' has an invalid schema-v",
        number.as_str(),
        " shape: ",
        reason,
    );
    OmniError::manifest_internal(message.as_str())
}

/// Whether a branch is meant that is not main, and which.
pub open spec fn named_branch(branch: Option<Seq<char>>) -> Option<Seq<char>> {
    if branch == Some("main"@) {
        None
    } else {
        branch
    }
}

/// Whether two optional branches mean the same branch.
pub fn same_branch(left: &Option<String>, right: &Option<String>) -> (answer: bool)
    ensures
        answer == (named_branch(opt_view(*left)) == named_branch(opt_view(*right))),
{
    let left_named: bool = match left {
        Some(name) => !same_text(name.as_str(), "main"),
        None => false,
    };
    let right_named: bool = match right {
        Some(name) => !same_text(name.as_str(), "main"),
        None => false,
    };
    if !left_named || !right_named {
        return left_named == right_named;
    }
    match (left, right) {
        (Some(a), Some(b)) => *a == *b,
        _ => false,
    }
}

/// Whether an authority names its schema completely.
pub open spec fn authority_complete(authority: RecoveryAuthorityTokenModel) -> bool {
    authority.schema_identity_domain.len() > 0 && authority.schema_ir_hash.len() > 0
        && authority.schema_identity_version != 0
}

/// What an incomplete authority is refused with.
pub open spec fn authority_defect(authority: RecoveryAuthorityTokenModel) -> Option<Seq<char>> {
    if authority_complete(authority) {
        None
    } else {
        Some(
            "recovery authority must carry a non-empty schema identity domain/hash and non-zero identity version"@,
        )
    }
}

/// Refuses an authority that does not name its schema completely.
pub fn validate_authority_identity(authority: &RecoveryAuthorityToken) -> (defect: Option<String>)
    ensures
        opt_view(defect) == authority_defect(authority@),
{
    if authority.schema_identity_domain.as_str().is_empty()
        || authority.schema_ir_hash.as_str().is_empty() || authority.schema_identity_version == 0 {
        Some(
            "recovery authority must carry a non-empty schema identity domain/hash and non-zero identity version".to_owned(),
        )
    } else {
        None
    }
}

/// Whether a location is the canonical one of a table, in some graph.
pub open spec fn canonical_location(location: Seq<char>, canonical: Seq<char>) -> bool {
    trimmed_end(location) == canonical || ends_with(trimmed_end(location), "/"@ + canonical)
}

/// What the pin at place `i` is refused with, among the pins before it.
pub open spec fn pin_defect(pins: Seq<SidecarTablePinModel>, i: int) -> Option<Seq<char>> {
    let pin = pins[i];
    let before = pins.subrange(0, i);
    if !pin.identity.valid() {
        Some("invalid table identity: "@ + invalid_identity_text())
    } else {
        match path_of(pin.table_key, pin.identity) {
            None => Some("invalid table pin path: "@ + error_text(bad_alias(pin.table_key))),
            Some(canonical) => if !canonical_location(pin.table_path, canonical) {
                Some(
                    "table pin identity "@ + pin.identity.text() + " alias '"@ + pin.table_key
                        + "' uses path '"@ + pin.table_path + "', expected canonical suffix '"@
                        + canonical + "'"@,
                )
            } else if identities::<SidecarTablePin>(before).contains(pin.identity) {
                Some("duplicate table identity "@ + pin.identity.text() + " in pin set"@)
            } else if aliases::<SidecarTablePin>(before).contains(pin.table_key) {
                Some("duplicate diagnostic table alias '"@ + pin.table_key + "' in pin set"@)
            } else {
                None
            },
        }
    }
}

/// What is found of every pin.
pub open spec fn pin_findings(pins: Seq<SidecarTablePinModel>) -> Seq<Option<Seq<char>>> {
    Seq::new(pins.len(), |i: int| pin_defect(pins, i))
}

/// What a set of pins is refused with: every pin has a valid identity, a
/// canonical location, and an identity and an alias of its own.
pub open spec fn pins_defect(pins: Seq<SidecarTablePinModel>, require_non_empty: bool) -> Option<
    Seq<char>,
> {
    if require_non_empty && pins.len() == 0 {
        Some("table pin set must not be empty"@)
    } else {
        first_defect(pin_findings(pins))
    }
}

/// Whether one of the pins before place `end` belongs to a lifetime.
fn identity_before(pins: &Vec<SidecarTablePin>, end: usize, identity: TableIdentity) -> (answer:
    bool)
    requires
        end <= pins.len(),
    ensures
        answer == identities::<SidecarTablePin>(views(pins@).subrange(0, end as int)).contains(
            identity,
        ),
{
    let ghost ids = identities::<SidecarTablePin>(views(pins@).subrange(0, end as int));
    let mut i: usize = 0;
    while i < end
        invariant
            i <= end <= pins.len(),
            ids == identities::<SidecarTablePin>(views(pins@).subrange(0, end as int)),
            forall|j: int| 0 <= j < i ==> ids[j] != identity,
        decreases end - i,
    {
        assert(ids[i as int] == pins@[i as int].identity);
        if pins[i].identity == identity {
            return true;
        }
        i += 1;
    }
    false
}

/// Whether one of the pins before place `end` has an alias.
fn alias_before(pins: &Vec<SidecarTablePin>, end: usize, alias: &String) -> (answer: bool)
    requires
        end <= pins.len(),
    ensures
        answer == aliases::<SidecarTablePin>(views(pins@).subrange(0, end as int)).contains(
            alias@,
        ),
{
    let ghost names = aliases::<SidecarTablePin>(views(pins@).subrange(0, end as int));
    let mut i: usize = 0;
    while i < end
        invariant
            i <= end <= pins.len(),
            names == aliases::<SidecarTablePin>(views(pins@).subrange(0, end as int)),
            forall|j: int| 0 <= j < i ==> names[j] != alias@,
        decreases end - i,
    {
        assert(names[i as int] == pins@[i as int].table_key@);
        if pins[i].table_key == *alias {
            return true;
        }
        i += 1;
    }
    false
}

/// Refuses the pin at place `i` where it breaks a rule of its own or repeats a
/// pin before it.
fn check_pin(pins: &Vec<SidecarTablePin>, i: usize) -> (defect: Option<String>)
    requires
        i < pins.len(),
    ensures
        opt_view(defect) == pin_defect(views(pins@), i as int),
{
    let pin: &SidecarTablePin = &pins[i];
    assert(views(pins@)[i as int] == pin@);
    if let Err(error) = pin.identity.validate() {
        let text: String = error.to_text();
        return Some(cat2("invalid table identity: ", text.as_str()));
    }
    let canonical: String = match table_path_for_identity(pin.table_key.as_str(), pin.identity) {
        Ok(canonical) => canonical,
        Err(error) => {
            let text: String = error.to_text();
            return Some(cat2("invalid table pin path: ", text.as_str()));
        },
    };
    let normalized: &str = trim_end_slashes(pin.table_path.as_str());
    let suffix: String = cat2("/", canonical.as_str());
    if !same_text(normalized, canonical.as_str()) && !has_suffix(normalized, suffix.as_str()) {
        let identity: String = pin.identity.to_text();
        let head: String = cat7(
            "table pin identity ",
            identity.as_str(),
            " alias '",
            pin.table_key.as_str(),
            "' uses path '",
            pin.table_path.as_str(),
            "', expected canonical suffix '",
        );
        return Some(cat3(head.as_str(), canonical.as_str(), "'"));
    }
    if identity_before(pins, i, pin.identity) {
        let identity: String = pin.identity.to_text();
        return Some(cat3("duplicate table identity ", identity.as_str(), " in pin set"));
    }
    if alias_before(pins, i, &pin.table_key) {
        return Some(
            cat3("duplicate diagnostic table alias '", pin.table_key.as_str(), "' in pin set"),
        );
    }
    None
}

/// Refuses a set of pins that is not one canonical pin for each table.
pub fn validate_unique_pin_identities(
    pins: &Vec<SidecarTablePin>,
    require_non_empty: bool,
) -> (defect: Option<String>)
    ensures
        opt_view(defect) == pins_defect(views(pins@), require_non_empty),
{
    if require_non_empty && pins.is_empty() {
        return Some("table pin set must not be empty".to_owned());
    }
    let ghost findings = pin_findings(views(pins@));
    let mut i: usize = 0;
    while i < pins.len()
        invariant
            i <= pins.len(),
            findings == pin_findings(views(pins@)),
            forall|j: int| 0 <= j < i ==> findings[j] is None,
        decreases pins.len() - i,
    {
        let defect: Option<String> = check_pin(pins, i);
        assert(findings[i as int] == pin_defect(views(pins@), i as int));
        if defect.is_some() {
            proof {
                lemma_first_defect(findings, i as int);
            }
            return defect;
        }
        i += 1;
    }
    proof {
        lemma_no_defect(findings);
    }
    None
}

/// Sound pins have valid identities, known aliases, and no two of them share an
/// identity or an alias.
pub proof fn lemma_sound_pins(pins: Seq<SidecarTablePinModel>, require_non_empty: bool)
    requires
        pins_defect(pins, require_non_empty) is None,
    ensures
        identities::<SidecarTablePin>(pins).no_duplicates(),
        aliases::<SidecarTablePin>(pins).no_duplicates(),
        forall|i: int| 0 <= i < pins.len() ==> (#[trigger] pins[i]).identity.valid(),
        forall|i: int|
            0 <= i < pins.len() ==> path_of((#[trigger] pins[i]).table_key, pins[i].identity)
                is Some,
{
    let findings = pin_findings(pins);
    assert forall|i: int| 0 <= i < pins.len() implies pin_defect(pins, i) is None by {
        lemma_all_sound(findings, i);
        assert(findings[i] == pin_defect(pins, i));
    }
    let ids = identities::<SidecarTablePin>(pins);
    let names = aliases::<SidecarTablePin>(pins);
    assert forall|a: int, b: int| 0 <= a < b < pins.len() implies ids[a] != ids[b] && names[a]
        != names[b] by {
        assert(pin_defect(pins, b) is None);
        let before = pins.subrange(0, b);
        assert(identities::<SidecarTablePin>(before)[a] == ids[a]);
        assert(aliases::<SidecarTablePin>(before)[a] == names[a]);
    }
    assert forall|i: int| 0 <= i < pins.len() implies (#[trigger] pins[i]).identity.valid()
        && path_of(pins[i].table_key, pins[i].identity) is Some by {
        assert(pin_defect(pins, i) is None);
    }
}

/// Whether a prepared rollback plan names tables of the pins, each once.
pub open spec fn plan_sound(
    plan: Option<Seq<TableOutcomeModel>>,
    pins: Seq<SidecarTablePinModel>,
) -> bool {
    match plan {
        Some(outcomes) => {
            &&& aliases::<TableOutcome>(outcomes).no_duplicates()
            &&& within(aliases::<TableOutcome>(outcomes), aliases::<SidecarTablePin>(pins))
        },
        None => true,
    }
}

/// The view of an optional rollback plan.
pub open spec fn plan_view(plan: Option<Vec<TableOutcome>>) -> Option<Seq<TableOutcomeModel>> {
    match plan {
        Some(list) => Some(views(list@)),
        None => None,
    }
}

/// Whether a prepared rollback plan names tables of the pins, each once.
pub fn plan_is_sound(plan: &Option<Vec<TableOutcome>>, pins: &Vec<SidecarTablePin>) -> (answer:
    bool)
    ensures
        answer == plan_sound(plan_view(*plan), views(pins@)),
{
    match plan {
        Some(outcomes) => aliases_distinct(outcomes) && aliases_within(outcomes, pins),
        None => true,
    }
}

} // verus!
