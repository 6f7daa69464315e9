//! What the recovery directory keeps.

use vstd::prelude::*;

use crate::arm::armed;
use crate::order::{
    in_order, lemma_ranked, lemma_text_total, lemma_text_transitive, ranked, text_le,
};
use crate::outcome::{after_last_slash, operation_of};
use crate::shape::defect::{first_defect, lemma_all_sound, lemma_no_defect};
use crate::shape::schema_apply::{registration_findings, rename_findings};
use crate::shape::validate::{ownership_fault, shape_fault, well_formed};
use crate::sidecar::{RecoverySidecarModel, SIDECAR_SCHEMA_VERSION};
use crate::store::{
    admitted, dir_of, is_sidecar_file, parsed, reread, sweep_order, uri_of, write_fault,
    SidecarBodyModel,
};

verus! {

/// Where two lists of findings are sound at the same places, both are sound or
/// neither is.
proof fn lemma_alike<A>(left: Seq<Option<A>>, right: Seq<Option<A>>)
    requires
        left.len() == right.len(),
        forall|i: int| 0 <= i < left.len() ==> (left[i] is None <==> right[i] is None),
    ensures
        first_defect(left) is None <==> first_defect(right) is None,
{
    if first_defect(left) is None {
        assert forall|i: int| 0 <= i < right.len() implies right[i] is None by {
            lemma_all_sound(left, i);
        }
        lemma_no_defect(right);
    }
    if first_defect(right) is None {
        assert forall|i: int| 0 <= i < left.len() implies left[i] is None by {
            lemma_all_sound(right, i);
        }
        lemma_no_defect(left);
    }
}

/// Whether a sidecar keeps the rules does not depend on where it is stored.
pub proof fn lemma_shape_ignores_place(
    here: Seq<char>,
    there: Seq<char>,
    sidecar: RecoverySidecarModel,
)
    ensures
        shape_fault(here, sidecar) is None <==> shape_fault(there, sidecar) is None,
        shape_fault(here, sidecar) is None <==> well_formed(sidecar),
{
    lemma_alike_shapes(here, there, sidecar);
    lemma_alike_shapes(here, Seq::empty(), sidecar);
}

proof fn lemma_alike_shapes(here: Seq<char>, there: Seq<char>, sidecar: RecoverySidecarModel)
    ensures
        shape_fault(here, sidecar) is None <==> shape_fault(there, sidecar) is None,
{
    if sidecar.protocol_v7 is Some {
        let version = sidecar.schema_version;
        let payload = sidecar.protocol_v7->0;
        lemma_alike(
            registration_findings(here, version, payload),
            registration_findings(there, version, payload),
        );
        lemma_alike(
            rename_findings(here, version, payload),
            rename_findings(there, version, payload),
        );
    }
}

/// A newly armed sidecar can be stored at any place of a graph that its tables lie
/// in.
pub proof fn lemma_armed_can_be_stored(
    root: Seq<char>,
    label: Seq<char>,
    sidecar: RecoverySidecarModel,
)
    requires
        armed(label, sidecar) is Ok,
        ownership_fault(root, uri_of(root, sidecar.operation_id), sidecar) is None,
    ensures
        write_fault(root, sidecar) is None,
{
    lemma_shape_ignores_place(label, uri_of(root, sidecar.operation_id), sidecar);
}

/// The record of a sidecar.
pub open spec fn record_of(sidecar: RecoverySidecarModel) -> SidecarBodyModel {
    SidecarBodyModel { schema_version: Ok(sidecar.schema_version), sidecar: Ok(sidecar) }
}

/// What is stored is read back: a sidecar that may be stored is the one that its
/// record is read as, by a sweep and again under its gates.
pub proof fn lemma_stored_is_read_back(root: Seq<char>, sidecar: RecoverySidecarModel)
    requires
        write_fault(root, sidecar) is None,
        sidecar.schema_version <= SIDECAR_SCHEMA_VERSION,
    ensures
        parsed(uri_of(root, sidecar.operation_id), record_of(sidecar)) == Ok::<
            RecoverySidecarModel,
            crate::error::OmniErrorModel,
        >(sidecar),
        admitted(root, uri_of(root, sidecar.operation_id), record_of(sidecar)) == Ok::<
            RecoverySidecarModel,
            crate::error::OmniErrorModel,
        >(sidecar),
        reread(root, sidecar, record_of(sidecar)) == Ok::<
            RecoverySidecarModel,
            crate::error::OmniErrorModel,
        >(sidecar),
{
}

/// Nothing is read that could not have been stored.
pub proof fn lemma_read_keeps_the_rules(root: Seq<char>, uri: Seq<char>, body: SidecarBodyModel)
    requires
        admitted(root, uri, body) is Ok,
    ensures
        ({
            let sidecar = admitted(root, uri, body)->Ok_0;
            &&& shape_fault(uri, sidecar) is None
            &&& ownership_fault(root, uri, sidecar) is None
        }),
{
}

/// A record of a newer generation is refused, whatever else it holds.
pub proof fn lemma_newer_generation_refused(
    root: Seq<char>,
    uri: Seq<char>,
    body: SidecarBodyModel,
)
    requires
        body.schema_version matches Ok(version) && version > SIDECAR_SCHEMA_VERSION,
    ensures
        parsed(uri, body) is Err,
        admitted(root, uri, body) is Err,
{
}

/// A sweep takes exactly the sidecar files of the directory, in order of their
/// names.
pub proof fn lemma_sweep_takes_every_sidecar(files: Seq<Seq<char>>)
    ensures
        in_order::<String>(sweep_order(files)),
        forall|uri: Seq<char>|
            sweep_order(files).contains(uri) <==> files.contains(uri) && is_sidecar_file(uri),
{
    broadcast use vstd::seq_lib::group_to_multiset_ensures;

    lemma_ranked::<String>(files);
    let sorted = ranked::<String>(files);
    let keep = |uri: Seq<char>| is_sidecar_file(uri);
    lemma_filter_in_order(sorted, keep);
    assert forall|uri: Seq<char>|
        sweep_order(files).contains(uri) <==> files.contains(uri) && is_sidecar_file(uri) by {
        assert(files.contains(uri) <==> files.to_multiset().count(uri) > 0);
        assert(sorted.contains(uri) <==> sorted.to_multiset().count(uri) > 0);
        lemma_filter_members(sorted, keep, uri);
        assert(keep(uri) == is_sidecar_file(uri));
    }
}

/// The members of a filtered sequence.
proof fn lemma_filter_members(s: Seq<Seq<char>>, keep: spec_fn(Seq<char>) -> bool, x: Seq<char>)
    ensures
        s.filter(keep).contains(x) <==> s.contains(x) && keep(x),
    decreases s.len(),
{
    reveal(Seq::filter);
    if s.len() > 0 {
        let rest = s.drop_last();
        let kept = rest.filter(keep);
        lemma_filter_members(rest, keep, x);
        assert(s =~= rest.push(s.last()));
        if keep(s.last()) {
            assert(s.filter(keep) == kept.push(s.last()));
            if kept.contains(x) {
                let i = choose|i: int| 0 <= i < kept.len() && kept[i] == x;
                assert(kept.push(s.last())[i] == x);
            }
            if x == s.last() {
                assert(kept.push(s.last())[kept.len() as int] == x);
            }
        }
        if rest.contains(x) {
            let i = choose|i: int| 0 <= i < rest.len() && rest[i] == x;
            assert(s[i] == x);
        }
    }
}

/// A filtered sequence keeps its order.
proof fn lemma_filter_in_order(s: Seq<Seq<char>>, keep: spec_fn(Seq<char>) -> bool)
    requires
        in_order::<String>(s),
    ensures
        in_order::<String>(s.filter(keep)),
        forall|i: int| 0 <= i < s.filter(keep).len() ==> s.contains(#[trigger] s.filter(keep)[i]),
    decreases s.len(),
{
    reveal(Seq::filter);
    if s.len() > 0 {
        let rest = s.drop_last();
        let kept = rest.filter(keep);
        assert forall|i: int, j: int| 0 <= i <= j < rest.len() implies text_le(
            #[trigger] rest[i],
            #[trigger] rest[j],
        ) by {
            assert(text_le(s[i], s[j]));
        }
        lemma_filter_in_order(rest, keep);
        assert forall|i: int| 0 <= i < kept.len() implies s.contains(#[trigger] kept[i]) by {
            assert(rest.contains(kept[i]));
            let k = choose|k: int| 0 <= k < rest.len() && rest[k] == kept[i];
            assert(s[k] == kept[i]);
        }
        if keep(s.last()) {
            let all = kept.push(s.last());
            assert(s.filter(keep) == all);
            assert(s[s.len() - 1] == s.last());
            assert forall|i: int, j: int| 0 <= i <= j < all.len() implies text_le(
                #[trigger] all[i],
                #[trigger] all[j],
            ) by {
                if j == kept.len() && i < kept.len() {
                    assert(rest.contains(kept[i]));
                    let k = choose|k: int| 0 <= k < rest.len() && rest[k] == kept[i];
                    assert(text_le(s[k], s[s.len() - 1]));
                } else if j < kept.len() {
                    assert(text_le(kept[i], kept[j]));
                }
            }
            assert forall|i: int| 0 <= i < all.len() implies s.contains(#[trigger] all[i]) by {
                if i < kept.len() {
                    assert(s.contains(kept[i]));
                }
            }
        }
    }
}

/// The order of a sweep does not depend on the order in which the store lists the
/// files.
pub proof fn lemma_sweep_order_is_deterministic(left: Seq<Seq<char>>, right: Seq<Seq<char>>)
    requires
        left.to_multiset() == right.to_multiset(),
    ensures
        sweep_order(left) == sweep_order(right),
{
    lemma_ranked::<String>(left);
    lemma_ranked::<String>(right);
    let le = |a: Seq<char>, b: Seq<char>| text_le(a, b);
    let a = ranked::<String>(left);
    let b = ranked::<String>(right);
    assert forall|x: Seq<char>, y: Seq<char>| #[trigger] le(x, y) && #[trigger] le(y, x) implies x
        == y by {
        lemma_text_total(x, y);
    }
    assert forall|x: Seq<char>, y: Seq<char>, z: Seq<char>| #[trigger]
        le(x, y) && #[trigger] le(y, z) implies le(x, z) by {
        lemma_text_transitive(x, y, z);
    }
    assert forall|x: Seq<char>, y: Seq<char>| #[trigger] le(x, y) || #[trigger] le(y, x) by {
        lemma_text_total(x, y);
    }
    assert forall|i: int, j: int| 0 <= i < j < a.len() implies #[trigger] le(a[i], a[j]) by {
        assert(text_le(a[i], a[j]));
    }
    assert forall|i: int, j: int| 0 <= i < j < b.len() implies #[trigger] le(b[i], b[j]) by {
        assert(text_le(b[i], b[j]));
    }
    vstd::seq_lib::lemma_sorted_unique(a, b, le);
}

/// A stored sidecar lies in the recovery directory, is taken by a sweep, and has
/// the name of its attempt.
pub proof fn lemma_place_names_attempt(root: Seq<char>, operation_id: Seq<char>)
    requires
        !operation_id.contains('/'),
    ensures
        dir_of(root).is_prefix_of(uri_of(root, operation_id)),
        is_sidecar_file(uri_of(root, operation_id)),
        operation_of(uri_of(root, operation_id)) == operation_id,
{
    reveal_strlit(".json");
    reveal_strlit("/");
    let dir = dir_of(root);
    let uri = uri_of(root, operation_id);
    let name = operation_id + ".json"@;
    assert(uri =~= dir + "/"@ + name);
    assert(uri.subrange(0, dir.len() as int) =~= dir);
    assert(uri.subrange(uri.len() - 5, uri.len() as int) =~= ".json"@);
    assert forall|i: int| 0 <= i < name.len() implies name[i] != '/' by {
        if i < operation_id.len() {
            assert(name[i] == operation_id[i]);
            assert(operation_id.contains(operation_id[i]));
        } else {
            assert(name[i] == ".json"@[i - operation_id.len()]);
        }
    }
    lemma_slash_before(dir + "/"@, name);
    assert(uri.subrange(dir.len() as int + 1, uri.len() as int) =~= name);
    assert(name.subrange(name.len() - 5, name.len() as int) =~= ".json"@);
    assert(name.subrange(0, name.len() - 5) =~= operation_id);
}

/// What follows the last slash.
proof fn lemma_slash_before(front: Seq<char>, name: Seq<char>)
    requires
        front.len() > 0,
        front.last() == '/',
        forall|i: int| 0 <= i < name.len() ==> name[i] != '/',
    ensures
        after_last_slash(front + name) == front.len(),
    decreases name.len(),
{
    let text = front + name;
    if name.len() == 0 {
        assert(text =~= front);
    } else {
        assert(text.last() == name.last());
        assert(text.drop_last() =~= front + name.drop_last());
        lemma_slash_before(front, name.drop_last());
    }
}

/// Two attempts never share a place.
pub proof fn lemma_places_are_apart(root: Seq<char>, left: Seq<char>, right: Seq<char>)
    requires
        uri_of(root, left) == uri_of(root, right),
    ensures
        left == right,
{
    let a = uri_of(root, left);
    let b = uri_of(root, right);
    let start = dir_of(root).len() + "/"@.len();
    assert(left =~= a.subrange(start as int, a.len() - ".json"@.len()));
    assert(right =~= b.subrange(start as int, b.len() - ".json"@.len()));
}

/// A slash behind the root of a graph changes no place.
pub proof fn lemma_root_slash_ignored(root: Seq<char>, operation_id: Seq<char>)
    ensures
        uri_of(root.push('/'), operation_id) == uri_of(root, operation_id),
{
    assert(root.push('/').drop_last() =~= root);
}

} // verus!
