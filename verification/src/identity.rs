//! Table identity and the locations that are derived from it.

use vstd::prelude::*;

use crate::error::{internal, OmniError, OmniErrorModel};
use crate::text::{cat3, cat5, decimal, decimal_text, has_prefix, starts_with};

verus! {

/// One lifetime of a table. The alias of a table may change and may come back;
/// its identity never does. Both numbers are non-zero in a valid identity.
#[derive(Clone, Copy, Debug, PartialEq, Eq, Structural, Hash)]
pub struct TableIdentity {
    pub stable_table_id: u64,
    pub table_incarnation_id: u64,
}

impl View for TableIdentity {
    type V = TableIdentity;

    open spec fn view(&self) -> TableIdentity {
        *self
    }
}

impl TableIdentity {
    /// Whether both numbers are non-zero.
    pub open spec fn valid(self) -> bool {
        self.stable_table_id != 0 && self.table_incarnation_id != 0
    }

    /// The identity, as messages spell it.
    pub open spec fn text(self) -> Seq<char> {
        decimal(self.stable_table_id as nat) + ":"@ + decimal(self.table_incarnation_id as nat)
    }

    /// An identity of two non-zero numbers.
    pub fn new(stable_table_id: u64, table_incarnation_id: u64) -> (result: Result<Self, OmniError>)
        ensures
            result is Ok <==> (stable_table_id != 0 && table_incarnation_id != 0),
            result matches Ok(identity) ==> identity == (TableIdentity {
                stable_table_id,
                table_incarnation_id,
            }),
            result matches Err(error) ==> error@ == internal(
                invalid_identity_text(),
            ),
    {
        let identity = TableIdentity { stable_table_id, table_incarnation_id };
        match identity.validate() {
            Ok(()) => Ok(identity),
            Err(error) => Err(error),
        }
    }

    /// Refuses an identity with a zero in it.
    pub fn validate(&self) -> (result: Result<(), OmniError>)
        ensures
            result is Ok <==> self.valid(),
            result matches Err(error) ==> error@ == internal(
                invalid_identity_text(),
            ),
    {
        if self.stable_table_id == 0 || self.table_incarnation_id == 0 {
            Err(
                OmniError::manifest_internal(
                    "stable_table_id and table_incarnation_id must be non-zero",
                ),
            )
        } else {
            Ok(())
        }
    }

    /// The identity, as messages spell it.
    pub fn to_text(&self) -> (text: String)
        ensures
            text@ == self.text(),
    {
        let stable: String = decimal_text(self.stable_table_id);
        let incarnation: String = decimal_text(self.table_incarnation_id);
        cat3(stable.as_str(), ":", incarnation.as_str())
    }
}

/// Why an identity is refused.
pub open spec fn invalid_identity_text() -> Seq<char> {
    "stable_table_id and table_incarnation_id must be non-zero"@
}

/// The directory of a table's kind: aliases are `node:<name>` or `edge:<name>`.
pub open spec fn kind_dir(table_key: Seq<char>) -> Option<Seq<char>> {
    if starts_with(table_key, "node:"@) {
        Some("nodes"@)
    } else if starts_with(table_key, "edge:"@) {
        Some("edges"@)
    } else {
        None
    }
}

/// The location of a table relative to the graph root. It depends on the kind
/// and the identity of the table alone, so a change of alias keeps it.
pub open spec fn path_of(table_key: Seq<char>, identity: TableIdentity) -> Option<Seq<char>> {
    match kind_dir(table_key) {
        Some(dir) => Some(
            dir + "/"@ + decimal(identity.stable_table_id as nat) + "-"@ + decimal(
                identity.table_incarnation_id as nat,
            ),
        ),
        None => None,
    }
}

/// The error for an alias of no known kind.
pub open spec fn bad_alias(table_key: Seq<char>) -> OmniErrorModel {
    internal("table key '"@ + table_key + "' is neither a node nor an edge table"@)
}

/// The location of a table relative to the graph root.
pub fn table_path_for_identity(table_key: &str, identity: TableIdentity) -> (result: Result<
    String,
    OmniError,
>)
    ensures
        match path_of(table_key@, identity) {
            Some(path) => result is Ok && result->Ok_0@ == path,
            None => result is Err && result->Err_0@ == bad_alias(table_key@),
        },
{
    let dir: &str = if has_prefix(table_key, "node:") {
        "nodes"
    } else if has_prefix(table_key, "edge:") {
        "edges"
    } else {
        let message: String = cat3(
            "table key '",
            table_key,
            "' is neither a node nor an edge table",
        );
        return Err(OmniError::manifest_internal(message.as_str()));
    };
    let stable: String = decimal_text(identity.stable_table_id);
    let incarnation: String = decimal_text(identity.table_incarnation_id);
    Ok(cat5(dir, "/", stable.as_str(), "-", incarnation.as_str()))
}

/// Values by table identity, at most one for each.
#[derive(Debug)]
pub struct IdentityMap<T: View> {
    entries: Vec<(TableIdentity, T)>,
}

/// The index of the entry for `identity`, if there is one.
pub open spec fn entry_index<T>(entries: Seq<(TableIdentity, T)>, identity: TableIdentity) -> int {
    choose|i: int| 0 <= i < entries.len() && (#[trigger] entries[i]).0 == identity
}

/// The map that a sequence of entries stands for.
pub open spec fn entries_map<T: View>(entries: Seq<(TableIdentity, T)>) -> Map<
    TableIdentity,
    T::V,
> {
    Map::new(
        |identity: TableIdentity|
            exists|i: int| 0 <= i < entries.len() && (#[trigger] entries[i]).0 == identity,
        |identity: TableIdentity| entries[entry_index(entries, identity)].1@,
    )
}

impl<T: View> View for IdentityMap<T> {
    type V = Map<TableIdentity, T::V>;

    closed spec fn view(&self) -> Map<TableIdentity, T::V> {
        entries_map(self.entries@)
    }
}

impl<T: View> IdentityMap<T> {
    /// No identity has two entries.
    #[verifier::type_invariant]
    closed spec fn unique(self) -> bool {
        forall|i: int, j: int|
            0 <= i < self.entries@.len() && 0 <= j < self.entries@.len()
                && (#[trigger] self.entries@[i]).0 == (#[trigger] self.entries@[j]).0 ==> i == j
    }

    /// A map without entries.
    pub fn new() -> (map: Self)
        ensures
            map@ == Map::<TableIdentity, T::V>::empty(),
    {
        let map = IdentityMap { entries: Vec::new() };
        assert(map@ =~= Map::<TableIdentity, T::V>::empty());
        map
    }

    /// The value for `identity`, if there is one.
    pub fn get(&self, identity: TableIdentity) -> (value: Option<&T>)
        ensures
            match value {
                Some(found) => self@.contains_key(identity) && found@ == self@[identity],
                None => !self@.contains_key(identity),
            },
    {
        proof {
            use_type_invariant(self);
        }
        let mut i: usize = 0;
        while i < self.entries.len()
            invariant
                i <= self.entries.len(),
                self.unique(),
                forall|j: int| 0 <= j < i ==> (#[trigger] self.entries@[j]).0 != identity,
            decreases self.entries.len() - i,
        {
            if self.entries[i].0 == identity {
                assert(self.entries@[i as int].0 == identity);
                assert(entry_index(self.entries@, identity) == i);
                return Some(&self.entries[i].1);
            }
            i += 1;
        }
        None
    }

    /// The number of entries.
    pub fn len(&self) -> (count: usize)
        ensures
            self@.dom().finite(),
            count == self@.dom().len(),
    {
        proof {
            use_type_invariant(self);
            lemma_entries_count(self.entries@);
        }
        self.entries.len()
    }

    /// The identities that have an entry.
    pub fn keys(&self) -> (list: Vec<TableIdentity>)
        ensures
            forall|identity: TableIdentity|
                #[trigger] list@.contains(identity) <==> self@.contains_key(identity),
    {
        let mut list: Vec<TableIdentity> = Vec::new();
        let mut i: usize = 0;
        while i < self.entries.len()
            invariant
                i <= self.entries.len(),
                list.len() == i,
                forall|j: int| 0 <= j < i ==> #[trigger] list@[j] == self.entries@[j].0,
            decreases self.entries.len() - i,
        {
            list.push(self.entries[i].0);
            i += 1;
        }
        proof {
            assert forall|identity: TableIdentity|
                #[trigger] list@.contains(identity) <==> self@.contains_key(identity) by {
                if list@.contains(identity) {
                    let j = choose|j: int| 0 <= j < list@.len() && list@[j] == identity;
                    assert(self.entries@[j].0 == identity);
                }
                if self@.contains_key(identity) {
                    let j = choose|j: int|
                        0 <= j < self.entries@.len() && (#[trigger] self.entries@[j]).0 == identity;
                    assert(list@[j] == identity);
                }
            }
        }
        list
    }

    /// The place of the entry for `identity`, if there is one.
    fn place(&self, identity: TableIdentity) -> (place: Option<usize>)
        ensures
            match place {
                Some(i) => i < self.entries@.len() && self.entries@[i as int].0 == identity,
                None => !entries_map(self.entries@).contains_key(identity),
            },
    {
        let mut i: usize = 0;
        while i < self.entries.len()
            invariant
                i <= self.entries.len(),
                forall|j: int| 0 <= j < i ==> (#[trigger] self.entries@[j]).0 != identity,
            decreases self.entries.len() - i,
        {
            if self.entries[i].0 == identity {
                return Some(i);
            }
            i += 1;
        }
        None
    }

    /// Sets the value for `identity`, whether or not it has one already.
    pub fn set(&mut self, identity: TableIdentity, value: T)
        ensures
            final(self)@ == old(self)@.insert(identity, value@),
    {
        proof {
            use_type_invariant(&*self);
        }
        let ghost before = self.entries@;
        let place: Option<usize> = self.place(identity);
        let mut entries: Vec<(TableIdentity, T)> = Vec::new();
        std::mem::swap(&mut entries, &mut self.entries);
        match place {
            Some(i) => {
                entries[i] = (identity, value);
                proof {
                    lemma_entries_update(before, i as int, identity, value);
                }
            },
            None => {
                entries.push((identity, value));
                proof {
                    lemma_entries_push(before, identity, value);
                }
            },
        }
        self.entries = entries;
    }

    /// Adds an entry, unless its identity has one already. Tells whether it did.
    pub fn insert(&mut self, identity: TableIdentity, value: T) -> (added: bool)
        ensures
            added == !old(self)@.contains_key(identity),
            added ==> final(self)@ == old(self)@.insert(identity, value@),
            !added ==> final(self)@ == old(self)@,
    {
        proof {
            use_type_invariant(&*self);
        }
        if self.get(identity).is_some() {
            return false;
        }
        let ghost before = self.entries@;
        let mut entries: Vec<(TableIdentity, T)> = Vec::new();
        std::mem::swap(&mut entries, &mut self.entries);
        entries.push((identity, value));
        proof {
            lemma_entries_push(before, identity, value);
        }
        self.entries = entries;
        true
    }
}

/// An entry for a new identity extends the map by exactly that entry.
proof fn lemma_entries_push<T: View>(
    entries: Seq<(TableIdentity, T)>,
    identity: TableIdentity,
    value: T,
)
    requires
        forall|i: int, j: int|
            0 <= i < entries.len() && 0 <= j < entries.len() && (#[trigger] entries[i]).0 == (
            #[trigger] entries[j]).0 ==> i == j,
        !entries_map(entries).contains_key(identity),
    ensures
        entries_map(entries.push((identity, value))) == entries_map(entries).insert(
            identity,
            value@,
        ),
        forall|i: int, j: int|
            0 <= i <= entries.len() && 0 <= j <= entries.len() && (#[trigger] entries.push(
                (identity, value),
            )[i]).0 == (#[trigger] entries.push((identity, value))[j]).0 ==> i == j,
{
    let longer = entries.push((identity, value));
    assert forall|i: int| 0 <= i < entries.len() implies (#[trigger] entries[i]).0 != identity by {
        assert(entries_map(entries).contains_key(entries[i].0));
    }
    assert forall|other: TableIdentity|
        #[trigger] entries_map(longer).contains_key(other) == entries_map(entries).insert(
            identity,
            value@,
        ).contains_key(other) by {
        if other == identity {
            assert(longer[entries.len() as int].0 == other);
        } else if entries_map(entries).contains_key(other) {
            let i = entry_index(entries, other);
            assert(longer[i].0 == other);
        } else if entries_map(longer).contains_key(other) {
            let i = entry_index(longer, other);
            assert(entries[i].0 == other);
        }
    }
    assert forall|other: TableIdentity| #[trigger]
        entries_map(longer).contains_key(other) implies entries_map(longer)[other] == entries_map(
        entries,
    ).insert(identity, value@)[other] by {
        let i = entry_index(longer, other);
        if other == identity {
            assert(longer[entries.len() as int].0 == other);
        } else {
            assert(entries[i].0 == other);
            let j = entry_index(entries, other);
            assert(entries[j].0 == other);
        }
    }
    assert(entries_map(longer) =~= entries_map(entries).insert(identity, value@));
}

/// A new value for an identity replaces its entry and no other.
proof fn lemma_entries_update<T: View>(
    entries: Seq<(TableIdentity, T)>,
    place: int,
    identity: TableIdentity,
    value: T,
)
    requires
        0 <= place < entries.len(),
        entries[place].0 == identity,
        forall|i: int, j: int|
            0 <= i < entries.len() && 0 <= j < entries.len() && (#[trigger] entries[i]).0 == (
            #[trigger] entries[j]).0 ==> i == j,
    ensures
        entries_map(entries.update(place, (identity, value))) == entries_map(entries).insert(
            identity,
            value@,
        ),
        forall|i: int, j: int|
            0 <= i < entries.len() && 0 <= j < entries.len() && (#[trigger] entries.update(
                place,
                (identity, value),
            )[i]).0 == (#[trigger] entries.update(place, (identity, value))[j]).0 ==> i == j,
{
    let changed = entries.update(place, (identity, value));
    assert forall|i: int| 0 <= i < entries.len() implies (#[trigger] changed[i]).0
        == entries[i].0 by {}
    assert forall|i: int, j: int|
        0 <= i < entries.len() && 0 <= j < entries.len() && (#[trigger] changed[i]).0 == (
        #[trigger] changed[j]).0 implies i == j by {
        assert(entries[i].0 == entries[j].0);
    }
    assert forall|other: TableIdentity|
        #[trigger] entries_map(changed).contains_key(other) == entries_map(entries).insert(
            identity,
            value@,
        ).contains_key(other) by {
        if other == identity {
            assert(changed[place].0 == other);
        } else if entries_map(entries).contains_key(other) {
            assert(changed[entry_index(entries, other)].0 == other);
        } else if entries_map(changed).contains_key(other) {
            assert(entries[entry_index(changed, other)].0 == other);
        }
    }
    assert forall|other: TableIdentity| #[trigger]
        entries_map(changed).contains_key(other) implies entries_map(changed)[other] == entries_map(
        entries,
    ).insert(identity, value@)[other] by {
        let i = entry_index(changed, other);
        assert(changed[i].0 == other);
        if other == identity {
            assert(changed[place].0 == other);
            assert(i == place);
        } else {
            let j = entry_index(entries, other);
            assert(entries[i].0 == other);
            assert(entries[j].0 == other);
        }
    }
    assert(entries_map(changed) =~= entries_map(entries).insert(identity, value@));
}

/// Entries with distinct identities are as many as the map has keys.
proof fn lemma_entries_count<T: View>(entries: Seq<(TableIdentity, T)>)
    requires
        forall|i: int, j: int|
            0 <= i < entries.len() && 0 <= j < entries.len() && (#[trigger] entries[i]).0 == (
            #[trigger] entries[j]).0 ==> i == j,
    ensures
        entries_map(entries).dom().finite(),
        entries_map(entries).dom().len() == entries.len(),
    decreases entries.len(),
{
    if entries.len() == 0 {
        assert(entries_map(entries).dom() =~= Set::<TableIdentity>::empty());
    } else {
        let shorter = entries.drop_last();
        let (identity, value) = entries.last();
        assert forall|i: int, j: int|
            0 <= i < shorter.len() && 0 <= j < shorter.len() && (#[trigger] shorter[i]).0 == (
            #[trigger] shorter[j]).0 implies i == j by {
            assert(entries[i].0 == entries[j].0);
        }
        lemma_entries_count(shorter);
        if entries_map(shorter).contains_key(identity) {
            let i = entry_index(shorter, identity);
            assert(entries[i].0 == entries[entries.len() - 1].0);
        }
        lemma_entries_push(shorter, identity, value);
        assert(shorter.push((identity, value)) =~= entries);
    }
}

} // verus!
