//! Stored sidecars: where they are, how they are read back, and what may change
//! while recovery waits for them.

use vstd::prelude::*;

use crate::error::{error_text, fails_as, internal, OmniError, OmniErrorModel};
use crate::identity::{IdentityMap, TableIdentity};
use crate::order::{ranked, reversed, sort};
use crate::shape::defect::{first_defect, lemma_first_defect, lemma_no_defect, sound_before};
use crate::shape::validate::{
    ownership_fault, shape_fault, validate_identity_aware_pin_paths, validate_sidecar_shape,
};
use crate::sidecar::{
    RecoverySidecar, RecoverySidecarModel, SidecarTablePin, SidecarTablePinModel, RECOVERY_DIR_NAME,
    SIDECAR_SCHEMA_VERSION,
};
use crate::text::{
    cat3, cat4, cat7, decimal, decimal_text, ends_with, has_suffix, trim_end_slashes, trimmed_end,
};
use crate::value::{opt_view, same_opt, views, Replicate};

verus! {

/// The directory of the sidecars of the graph at `root`.
pub open spec fn dir_of(root: Seq<char>) -> Seq<char> {
    trimmed_end(root) + "/"@ + RECOVERY_DIR_NAME@
}

/// The location of the sidecar of one attempt.
pub open spec fn uri_of(root: Seq<char>, operation_id: Seq<char>) -> Seq<char> {
    dir_of(root) + "/"@ + operation_id + ".json"@
}

/// The directory of the sidecars of the graph at `root_uri`.
pub fn recovery_dir_uri(root_uri: &str) -> (uri: String)
    ensures
        uri@ == dir_of(root_uri@),
{
    cat3(trim_end_slashes(root_uri), "/", RECOVERY_DIR_NAME)
}

/// The location of the sidecar of one attempt.
pub fn sidecar_uri(root_uri: &str, operation_id: &str) -> (uri: String)
    ensures
        uri@ == uri_of(root_uri@, operation_id@),
{
    let dir: String = recovery_dir_uri(root_uri);
    cat4(dir.as_str(), "/", operation_id, ".json")
}

/// Names a stored sidecar, so that it can be deleted once its attempt is
/// published.
#[derive(Debug, PartialEq, Eq)]
pub struct RecoverySidecarHandle {
    pub operation_id: String,
    pub sidecar_uri: String,
}

/// What a sidecar is refused with before it is stored.
pub open spec fn write_fault(root: Seq<char>, sidecar: RecoverySidecarModel) -> Option<
    OmniErrorModel,
> {
    let uri = uri_of(root, sidecar.operation_id);
    if shape_fault(uri, sidecar) is Some {
        shape_fault(uri, sidecar)
    } else {
        ownership_fault(root, uri, sidecar)
    }
}

/// Checks a sidecar before it is stored, and names the place to store it at. No
/// malformed or foreign sidecar is ever stored.
pub fn prepare_sidecar_write(root_uri: &str, sidecar: &RecoverySidecar) -> (result: Result<
    RecoverySidecarHandle,
    OmniError,
>)
    ensures
        fails_as(result, write_fault(root_uri@, sidecar@)),
        result matches Ok(handle) ==> handle.operation_id@ == sidecar.operation_id@
            && handle.sidecar_uri@ == uri_of(root_uri@, sidecar.operation_id@),
{
    let uri: String = sidecar_uri(root_uri, sidecar.operation_id.as_str());
    if let Err(error) = validate_sidecar_shape(uri.as_str(), sidecar) {
        return Err(error);
    }
    if let Err(error) = validate_identity_aware_pin_paths(root_uri, uri.as_str(), sidecar) {
        return Err(error);
    }
    Ok(RecoverySidecarHandle { operation_id: sidecar.operation_id.clone(), sidecar_uri: uri })
}

/// A sidecar that is newer than this library understands.
#[derive(Debug, PartialEq, Eq)]
pub struct SidecarSchemaError {
    pub sidecar_uri: String,
    pub found_version: u32,
    pub max_supported_version: u32,
}

/// How a sidecar that is too new is reported.
pub open spec fn too_new_text(uri: Seq<char>, found: u32, supported: u32) -> Seq<char> {
    "recovery sidecar at '"@ + uri + "' declares schema_version="@ + decimal(found as nat)
        + ", newer than the maximum this binary supports (schema_version="@ + decimal(
        supported as nat,
    )
        + "); refusing to interpret — upgrade omnigraph or remove the sidecar with operator review"@
}

impl SidecarSchemaError {
    /// The error in words.
    pub fn to_text(&self) -> (text: String)
        ensures
            text@ == too_new_text(
                self.sidecar_uri@,
                self.found_version,
                self.max_supported_version,
            ),
    {
        let found: String = decimal_text(self.found_version as u64);
        let supported: String = decimal_text(self.max_supported_version as u64);
        cat7(
            "recovery sidecar at '",
            self.sidecar_uri.as_str(),
            "' declares schema_version=",
            found.as_str(),
            ", newer than the maximum this binary supports (schema_version=",
            supported.as_str(),
            "); refusing to interpret — upgrade omnigraph or remove the sidecar with operator review",
        )
    }

    /// The same error, as the library reports it.
    pub fn into_error(self) -> (error: OmniError)
        ensures
            error@ == internal(
                too_new_text(self.sidecar_uri@, self.found_version, self.max_supported_version),
            ),
    {
        let text: String = self.to_text();
        OmniError::manifest_internal(text.as_str())
    }
}

/// What a decoder makes of a stored sidecar: its generation, read first, and the
/// whole record; where either fails, why.
#[derive(Debug, PartialEq, Eq)]
pub struct SidecarBody {
    pub schema_version: Result<u32, String>,
    pub sidecar: Result<RecoverySidecar, String>,
}

/// What a [`SidecarBody`] stands for.
pub struct SidecarBodyModel {
    pub schema_version: Result<u32, Seq<char>>,
    pub sidecar: Result<RecoverySidecarModel, Seq<char>>,
}

impl View for SidecarBody {
    type V = SidecarBodyModel;

    open spec fn view(&self) -> SidecarBodyModel {
        SidecarBodyModel {
            schema_version: match self.schema_version {
                Ok(version) => Ok(version),
                Err(reason) => Err(reason@),
            },
            sidecar: match self.sidecar {
                Ok(sidecar) => Ok(sidecar@),
                Err(reason) => Err(reason@),
            },
        }
    }
}

/// The sidecar that a stored record is, or why it is none. A generation that is
/// too new is refused before anything else of the record counts.
pub open spec fn parsed(uri: Seq<char>, body: SidecarBodyModel) -> Result<
    RecoverySidecarModel,
    OmniErrorModel,
> {
    match body.schema_version {
        Err(reason) => Err(
            internal("recovery sidecar at '"@ + uri + "' is not valid JSON: "@ + reason),
        ),
        Ok(version) => if version > SIDECAR_SCHEMA_VERSION {
            Err(internal(too_new_text(uri, version, SIDECAR_SCHEMA_VERSION)))
        } else {
            match body.sidecar {
                Err(reason) => Err(
                    internal(
                        "recovery sidecar at '"@ + uri + "' failed to deserialize: "@ + reason,
                    ),
                ),
                Ok(sidecar) => match shape_fault(uri, sidecar) {
                    Some(error) => Err(error),
                    None => Ok(sidecar),
                },
            }
        },
    }
}

/// How reading a sidecar ends.
pub open spec fn sidecar_result(
    result: Result<RecoverySidecar, OmniError>,
    expected: Result<RecoverySidecarModel, OmniErrorModel>,
) -> bool {
    match expected {
        Ok(sidecar) => result is Ok && result->Ok_0@ == sidecar,
        Err(error) => result is Err && result->Err_0@ == error,
    }
}

/// Reads a stored record as a sidecar.
pub fn parse_sidecar(sidecar_uri: &str, body: SidecarBody) -> (result: Result<
    RecoverySidecar,
    OmniError,
>)
    ensures
        sidecar_result(result, parsed(sidecar_uri@, body@)),
{
    let found: u32 = match body.schema_version {
        Ok(version) => version,
        Err(reason) => {
            let message: String = cat4(
                "recovery sidecar at '",
                sidecar_uri,
                "' is not valid JSON: ",
                reason.as_str(),
            );
            return Err(OmniError::manifest_internal(message.as_str()));
        },
    };
    if found > SIDECAR_SCHEMA_VERSION {
        let error = SidecarSchemaError {
            sidecar_uri: sidecar_uri.to_owned(),
            found_version: found,
            max_supported_version: SIDECAR_SCHEMA_VERSION,
        };
        return Err(error.into_error());
    }
    let sidecar: RecoverySidecar = match body.sidecar {
        Ok(sidecar) => sidecar,
        Err(reason) => {
            let message: String = cat4(
                "recovery sidecar at '",
                sidecar_uri,
                "' failed to deserialize: ",
                reason.as_str(),
            );
            return Err(OmniError::manifest_internal(message.as_str()));
        },
    };
    match validate_sidecar_shape(sidecar_uri, &sidecar) {
        Ok(()) => Ok(sidecar),
        Err(error) => Err(error),
    }
}

/// The sidecar of the graph at `root` that a stored record is, or why it is none.
pub open spec fn admitted(root: Seq<char>, uri: Seq<char>, body: SidecarBodyModel) -> Result<
    RecoverySidecarModel,
    OmniErrorModel,
> {
    match parsed(uri, body) {
        Err(error) => Err(error),
        Ok(sidecar) => match ownership_fault(root, uri, sidecar) {
            Some(error) => Err(error),
            None => Ok(sidecar),
        },
    }
}

/// Reads a stored record as a sidecar of the graph at `root_uri`.
pub fn admit_sidecar(root_uri: &str, uri: &str, body: SidecarBody) -> (result: Result<
    RecoverySidecar,
    OmniError,
>)
    ensures
        sidecar_result(result, admitted(root_uri@, uri@, body@)),
{
    match parse_sidecar(uri, body) {
        Ok(sidecar) => match validate_identity_aware_pin_paths(root_uri, uri, &sidecar) {
            Ok(()) => Ok(sidecar),
            Err(error) => Err(error),
        },
        Err(error) => Err(error),
    }
}

/// Whether a file of the recovery directory is a sidecar.
pub open spec fn is_sidecar_file(uri: Seq<char>) -> bool {
    ends_with(uri, ".json"@)
}

/// The sidecars among the files of the recovery directory, in order. Their names
/// sort by age, so the oldest attempt comes first.
pub open spec fn sweep_order(files: Seq<Seq<char>>) -> Seq<Seq<char>> {
    ranked::<String>(files).filter(|uri: Seq<char>| is_sidecar_file(uri))
}

/// The sidecars among the files of the recovery directory, in the order in which
/// a sweep takes them.
pub fn order_sidecar_uris(files: Vec<String>) -> (uris: Vec<String>)
    ensures
        views(uris@) == sweep_order(views(files@)),
{
    let ghost models = ranked::<String>(views(files@));
    let sorted: Vec<String> = sort(files);
    let ghost keep = |uri: Seq<char>| is_sidecar_file(uri);
    let mut uris: Vec<String> = Vec::new();
    let mut i: usize = 0;
    assert(views(uris@) =~= models.subrange(0, 0).filter(keep));
    while i < sorted.len()
        invariant
            i <= sorted.len(),
            models == views(sorted@),
            keep == (|uri: Seq<char>| is_sidecar_file(uri)),
            views(uris@) == models.subrange(0, i as int).filter(keep),
        decreases sorted.len() - i,
    {
        let ghost before = uris@;
        assert(models.subrange(0, i + 1).drop_last() =~= models.subrange(0, i as int));
        assert(models.subrange(0, i + 1).last() == sorted@[i as int]@);
        assert(keep(sorted@[i as int]@) == is_sidecar_file(sorted@[i as int]@));
        proof {
            reveal(Seq::filter);
        }
        if has_suffix(sorted[i].as_str(), ".json") {
            uris.push(sorted[i].clone());
            assert(views(uris@) =~= views(before).push(sorted@[i as int]@));
        }
        i += 1;
    }
    assert(models.subrange(0, sorted.len() as int) =~= models);
    uris
}

/// A stored record and where it was found.
#[derive(Debug, PartialEq, Eq)]
pub struct StoredSidecar {
    pub uri: String,
    pub body: SidecarBody,
}

/// What a [`StoredSidecar`] stands for.
pub struct StoredSidecarModel {
    pub uri: Seq<char>,
    pub body: SidecarBodyModel,
}

impl View for StoredSidecar {
    type V = StoredSidecarModel;

    open spec fn view(&self) -> StoredSidecarModel {
        StoredSidecarModel { uri: self.uri@, body: self.body@ }
    }
}

/// What each stored record is, in order.
pub open spec fn admissions(root: Seq<char>, stored: Seq<StoredSidecarModel>) -> Seq<
    Result<RecoverySidecarModel, OmniErrorModel>,
> {
    Seq::new(stored.len(), |i: int| admitted(root, stored[i].uri, stored[i].body))
}

/// What is wrong with each stored record, in order.
pub open spec fn refusals(root: Seq<char>, stored: Seq<StoredSidecarModel>) -> Seq<
    Option<OmniErrorModel>,
> {
    Seq::new(
        stored.len(),
        |i: int|
            match admitted(root, stored[i].uri, stored[i].body) {
                Ok(_) => None,
                Err(error) => Some(error),
            },
    )
}

/// Reads every stored record. One that cannot be read is never skipped: an
/// unknown record may describe what nobody else can recover.
pub fn list_sidecars(root_uri: &str, stored: Vec<StoredSidecar>) -> (result: Result<
    Vec<RecoverySidecar>,
    OmniError,
>)
    ensures
        match first_defect(refusals(root_uri@, views(stored@))) {
            Some(error) => result is Err && result->Err_0@ == error,
            None => {
                &&& result is Ok
                &&& result->Ok_0@.len() == stored@.len()
                &&& forall|i: int|
                    0 <= i < stored@.len() ==> Ok::<RecoverySidecarModel, OmniErrorModel>(
                        (#[trigger] result->Ok_0@[i])@,
                    ) == admissions(root_uri@, views(stored@))[i]
            },
        },
{
    let ghost models = views(stored@);
    let ghost faults = refusals(root_uri@, models);
    let mut rest: Vec<StoredSidecar> = reversed(stored);
    let mut sidecars: Vec<RecoverySidecar> = Vec::new();
    while rest.len() > 0
        invariant
            rest.len() + sidecars.len() == models.len(),
            models == views(stored@),
            faults == refusals(root_uri@, models),
            forall|j: int|
                0 <= j < rest.len() ==> (#[trigger] rest@[j])@ == models[models.len() - 1 - j],
            forall|j: int| 0 <= j < sidecars.len() ==> faults[j] is None,
            forall|j: int|
                0 <= j < sidecars.len() ==> Ok::<RecoverySidecarModel, OmniErrorModel>(
                    (#[trigger] sidecars@[j])@,
                ) == admissions(root_uri@, models)[j],
        decreases rest.len(),
    {
        let ghost place = sidecars.len() as int;
        if let Some(record) = rest.pop() {
            assert(record@ == models[place]);
            match admit_sidecar(root_uri, record.uri.as_str(), record.body) {
                Ok(sidecar) => {
                    sidecars.push(sidecar);
                },
                Err(error) => {
                    proof {
                        lemma_first_defect(faults, place);
                    }
                    return Err(error);
                },
            }
        }
    }
    proof {
        lemma_no_defect(faults);
    }
    Ok(sidecars)
}

/// The records among the first `n` that can be read.
pub open spec fn readable(root: Seq<char>, stored: Seq<StoredSidecarModel>, n: int) -> Seq<
    RecoverySidecarModel,
>
    decreases n,
{
    if n <= 0 {
        Seq::empty()
    } else {
        match admissions(root, stored)[n - 1] {
            Ok(sidecar) => readable(root, stored, n - 1).push(sidecar),
            Err(_) => readable(root, stored, n - 1),
        }
    }
}

/// The records among the first `n` that cannot be read, each with the reason.
pub open spec fn unreadable(root: Seq<char>, stored: Seq<StoredSidecarModel>, n: int) -> Seq<
    (Seq<char>, Seq<char>),
>
    decreases n,
{
    if n <= 0 {
        Seq::empty()
    } else {
        match admissions(root, stored)[n - 1] {
            Ok(_) => unreadable(root, stored, n - 1),
            Err(error) => unreadable(root, stored, n - 1).push(
                (stored[n - 1].uri, error_text(error)),
            ),
        }
    }
}

/// Reads the stored records that can be read, and lists the others with the
/// reason. A reader that changes nothing leaves those for the next read-write
/// open.
pub fn list_parseable_sidecars_for_read_only(root_uri: &str, stored: Vec<StoredSidecar>) -> (lists: (
    Vec<RecoverySidecar>,
    Vec<(String, String)>,
))
    ensures
        views(lists.0@) == readable(root_uri@, views(stored@), stored@.len() as int),
        views(lists.1@) == unreadable(root_uri@, views(stored@), stored@.len() as int),
{
    let ghost models = views(stored@);
    let mut rest: Vec<StoredSidecar> = reversed(stored);
    let mut sidecars: Vec<RecoverySidecar> = Vec::new();
    let mut failures: Vec<(String, String)> = Vec::new();
    let ghost mut done: int = 0;
    assert(views(sidecars@) =~= readable(root_uri@, models, 0));
    assert(views(failures@) =~= unreadable(root_uri@, models, 0));
    while rest.len() > 0
        invariant
            rest.len() + done == models.len(),
            0 <= done,
            forall|j: int|
                0 <= j < rest.len() ==> (#[trigger] rest@[j])@ == models[models.len() - 1 - j],
            views(sidecars@) == readable(root_uri@, models, done),
            views(failures@) == unreadable(root_uri@, models, done),
        decreases rest.len(),
    {
        let ghost before = sidecars@;
        let ghost failed = failures@;
        if let Some(record) = rest.pop() {
            assert(record@ == models[done]);
            let uri: String = record.uri;
            match admit_sidecar(root_uri, uri.as_str(), record.body) {
                Ok(sidecar) => {
                    let ghost model = sidecar@;
                    sidecars.push(sidecar);
                    assert(views(sidecars@) =~= views(before).push(model));
                },
                Err(error) => {
                    let text: String = error.to_text();
                    failures.push((uri, text));
                    assert(views(failures@) =~= views(failed).push((uri@, text@)));
                },
            }
            proof {
                done = done + 1;
            }
        }
    }
    (sidecars, failures)
}

/// What the gates of a pinned table are keyed by.
pub open spec fn coordination_key(pin: SidecarTablePinModel) -> (
    TableIdentity,
    Seq<char>,
    Seq<char>,
    Option<Seq<char>>,
) {
    (pin.identity, pin.table_key, pin.table_path, pin.table_branch)
}

/// The keys of all pinned tables, in order.
pub open spec fn coordination_keys(sidecar: RecoverySidecarModel) -> Seq<
    (TableIdentity, Seq<char>, Seq<char>, Option<Seq<char>>),
> {
    Seq::new(sidecar.tables.len(), |i: int| coordination_key(sidecar.tables[i]))
}

/// Whether two records are protected by the same gates.
pub open spec fn same_coordination(
    left: RecoverySidecarModel,
    right: RecoverySidecarModel,
) -> bool {
    left.operation_id == right.operation_id && left.writer_kind == right.writer_kind && left.branch
        == right.branch && coordination_keys(left) == coordination_keys(right)
}

/// Whether two records are protected by the same gates.
fn coordinates_alike(left: &RecoverySidecar, right: &RecoverySidecar) -> (answer: bool)
    ensures
        answer == same_coordination(left@, right@),
{
    let ghost left_keys = coordination_keys(left@);
    let ghost right_keys = coordination_keys(right@);
    if left.operation_id != right.operation_id || left.writer_kind != right.writer_kind
        || !same_opt(&left.branch, &right.branch) {
        return false;
    }
    if left.tables.len() != right.tables.len() {
        assert(left_keys.len() != right_keys.len());
        return false;
    }
    let mut i: usize = 0;
    while i < left.tables.len()
        invariant
            i <= left.tables.len(),
            left.tables.len() == right.tables.len(),
            left_keys == coordination_keys(left@),
            right_keys == coordination_keys(right@),
            forall|j: int| 0 <= j < i ==> left_keys[j] == right_keys[j],
        decreases left.tables.len() - i,
    {
        let a: &SidecarTablePin = &left.tables[i];
        let b: &SidecarTablePin = &right.tables[i];
        assert(left_keys[i as int] == coordination_key(a@));
        assert(right_keys[i as int] == coordination_key(b@));
        if a.identity != b.identity || a.table_key != b.table_key || a.table_path != b.table_path
            || !same_opt(&a.table_branch, &b.table_branch) {
            assert(left_keys[i as int] != right_keys[i as int]);
            return false;
        }
        i += 1;
    }
    assert(left_keys =~= right_keys);
    true
}

/// What a record is when it is read again under the gates of the listed one.
pub open spec fn reread(
    root: Seq<char>,
    listed: RecoverySidecarModel,
    body: SidecarBodyModel,
) -> Result<RecoverySidecarModel, OmniErrorModel> {
    match admitted(root, uri_of(root, listed.operation_id), body) {
        Err(error) => Err(error),
        Ok(current) => if same_coordination(current, listed) {
            Ok(current)
        } else {
            Err(
                internal(
                    "recovery sidecar '"@ + listed.operation_id
                        + "' changed its coordination keys while recovery waited for gates"@,
                ),
            )
        },
    }
}

/// Reads a listed record again, once its gates are held: its writer may have
/// confirmed it or deleted it meanwhile. A record that asks for other gates is
/// refused.
pub fn reread_sidecar_under_gates(
    root_uri: &str,
    listed: &RecoverySidecar,
    body: Option<SidecarBody>,
) -> (result: Result<Option<RecoverySidecar>, OmniError>)
    ensures
        match opt_view(body) {
            None => result is Ok && result->Ok_0 is None,
            Some(found) => match reread(root_uri@, listed@, found) {
                Ok(current) => result is Ok && opt_view(result->Ok_0) == Some(current),
                Err(error) => result is Err && result->Err_0@ == error,
            },
        },
{
    let found: SidecarBody = match body {
        Some(found) => found,
        None => {
            return Ok(None);
        },
    };
    let uri: String = sidecar_uri(root_uri, listed.operation_id.as_str());
    let current: RecoverySidecar = match admit_sidecar(root_uri, uri.as_str(), found) {
        Ok(current) => current,
        Err(error) => {
            return Err(error);
        },
    };
    if !coordinates_alike(&current, listed) {
        let message: String = cat3(
            "recovery sidecar '",
            listed.operation_id.as_str(),
            "' changed its coordination keys while recovery waited for gates",
        );
        return Err(OmniError::manifest_internal(message.as_str()));
    }
    Ok(Some(current))
}

/// The first pin, if any, for which no version was reached.
pub open spec fn unconfirmed(
    pins: Seq<SidecarTablePinModel>,
    reached: Map<TableIdentity, u64>,
) -> Seq<Option<OmniErrorModel>> {
    Seq::new(
        pins.len(),
        |i: int|
            if reached.contains_key(pins[i].identity) {
                None
            } else {
                Some(
                    internal(
                        "confirm_sidecar_phase_b: no achieved version for pinned table '"@
                            + pins[i].table_key + "' (pins and publish updates diverged)"@,
                    ),
                )
            },
    )
}

/// A pin with the version that its table reached.
pub open spec fn stamped(
    pin: SidecarTablePinModel,
    reached: Map<TableIdentity, u64>,
) -> SidecarTablePinModel {
    SidecarTablePinModel { confirmed_version: Some(reached[pin.identity]), ..pin }
}

/// Stamps every pin with the version that its table reached. Where a pinned table
/// reached none, the pins and the published tables have diverged, and that is an
/// error; the pins before it are stamped.
pub fn confirm_sidecar_phase_b_v9(
    sidecar: &mut RecoverySidecar,
    confirmed_versions: &IdentityMap<u64>,
) -> (result: Result<(), OmniError>)
    ensures
        fails_as(result, first_defect(unconfirmed(old(sidecar)@.tables, confirmed_versions@))),
        final(sidecar)@ == (RecoverySidecarModel {
            tables: final(sidecar)@.tables,
            ..old(sidecar)@
        }),
        final(sidecar)@.tables.len() == old(sidecar)@.tables.len(),
        forall|i: int|
            0 <= i < old(sidecar)@.tables.len() ==> #[trigger] final(sidecar)@.tables[i] == if i
                < sound_before(unconfirmed(old(sidecar)@.tables, confirmed_versions@)) {
                stamped(old(sidecar)@.tables[i], confirmed_versions@)
            } else {
                old(sidecar)@.tables[i]
            },
{
    let ghost pins = sidecar@.tables;
    let ghost faults = unconfirmed(pins, confirmed_versions@);
    let mut i: usize = 0;
    while i < sidecar.tables.len()
        invariant
            i <= sidecar.tables.len(),
            pins == old(sidecar)@.tables,
            sidecar.tables.len() == pins.len(),
            sidecar@ == (RecoverySidecarModel { tables: sidecar@.tables, ..old(sidecar)@ }),
            faults == unconfirmed(pins, confirmed_versions@),
            forall|j: int| 0 <= j < i ==> faults[j] is None,
            forall|j: int|
                0 <= j < i ==> #[trigger] sidecar@.tables[j] == stamped(
                    pins[j],
                    confirmed_versions@,
                ),
            forall|j: int| i <= j < pins.len() ==> #[trigger] sidecar@.tables[j] == pins[j],
        decreases sidecar.tables.len() - i,
    {
        assert(sidecar@.tables[i as int] == pins[i as int]);
        let version: u64 = match confirmed_versions.get(sidecar.tables[i].identity) {
            Some(version) => *version,
            None => {
                let message: String = cat3(
                    "confirm_sidecar_phase_b: no achieved version for pinned table '",
                    sidecar.tables[i].table_key.as_str(),
                    "' (pins and publish updates diverged)",
                );
                proof {
                    lemma_first_defect(faults, i as int);
                }
                return Err(OmniError::manifest_internal(message.as_str()));
            },
        };
        let ghost before = sidecar@.tables;
        let mut pin: SidecarTablePin = sidecar.tables[i].replicate();
        pin.confirmed_version = Some(version);
        sidecar.tables[i] = pin;
        assert(sidecar@.tables =~= before.update(
            i as int,
            stamped(pins[i as int], confirmed_versions@),
        ));
        i += 1;
    }
    proof {
        lemma_no_defect(faults);
    }
    Ok(())
}

} // verus!
