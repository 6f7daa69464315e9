//! The graph lineage: commits and branch heads as manifest rows.

use vstd::prelude::*;

use crate::batch::null_cell;
use crate::batch::required_u64;
use crate::error::{internal, OmniError, OmniErrorModel};
use crate::order::{lemma_text_total, lemma_text_transitive, text_at_most, text_le};
use crate::rows::{ManifestRow, ManifestRowModel};
use crate::text::{cat2, has_prefix, same_text, starts_with};
use crate::value::{opt_view, replicate_opt, views};

verus! {

/// The type of a row that binds a table to its location.
pub const OBJECT_TYPE_TABLE: &'static str = "table";

/// The type of a row that selects a version of a table.
pub const OBJECT_TYPE_TABLE_VERSION: &'static str = "table_version";

/// The type of a row that removes a table.
pub const OBJECT_TYPE_TABLE_TOMBSTONE: &'static str = "table_tombstone";

/// The type of a row that records a commit.
pub const OBJECT_TYPE_GRAPH_COMMIT: &'static str = "graph_commit";

/// The type of a row that points to the head of a branch.
pub const OBJECT_TYPE_GRAPH_HEAD: &'static str = "graph_head";

/// The name of the main branch in the id of its head row.
pub const MAIN_BRANCH_HEAD_KEY: &'static str = "main";

/// What the id of a head row starts with.
pub const GRAPH_HEAD_PREFIX: &'static str = "graph_head:";

/// A commit of the graph lineage.
#[derive(Debug, PartialEq, Eq)]
pub struct GraphLineageRow {
    pub graph_commit_id: String,
    /// Branch that the commit was made on; main is none.
    pub manifest_branch: Option<String>,
    /// Manifest version that the commit made.
    pub manifest_version: u64,
    pub parent_commit_id: Option<String>,
    pub merged_parent_commit_id: Option<String>,
    pub actor_id: Option<String>,
    pub created_at: i64,
}

/// What a [`GraphLineageRow`] stands for.
pub struct GraphLineageRowModel {
    pub graph_commit_id: Seq<char>,
    pub manifest_branch: Option<Seq<char>>,
    pub manifest_version: u64,
    pub parent_commit_id: Option<Seq<char>>,
    pub merged_parent_commit_id: Option<Seq<char>>,
    pub actor_id: Option<Seq<char>>,
    pub created_at: i64,
}

impl View for GraphLineageRow {
    type V = GraphLineageRowModel;

    open spec fn view(&self) -> GraphLineageRowModel {
        GraphLineageRowModel {
            graph_commit_id: self.graph_commit_id@,
            manifest_branch: opt_view(self.manifest_branch),
            manifest_version: self.manifest_version,
            parent_commit_id: opt_view(self.parent_commit_id),
            merged_parent_commit_id: opt_view(self.merged_parent_commit_id),
            actor_id: opt_view(self.actor_id),
            created_at: self.created_at,
        }
    }
}

/// The fields of a commit that have no column of their own.
#[derive(Debug, PartialEq, Eq)]
pub struct GraphCommitMetadata {
    pub parent_commit_id: Option<String>,
    pub merged_parent_commit_id: Option<String>,
    pub actor_id: Option<String>,
    pub created_at: i64,
}

/// What a [`GraphCommitMetadata`] stands for.
pub struct GraphCommitMetadataModel {
    pub parent_commit_id: Option<Seq<char>>,
    pub merged_parent_commit_id: Option<Seq<char>>,
    pub actor_id: Option<Seq<char>>,
    pub created_at: i64,
}

impl View for GraphCommitMetadata {
    type V = GraphCommitMetadataModel;

    open spec fn view(&self) -> GraphCommitMetadataModel {
        GraphCommitMetadataModel {
            parent_commit_id: opt_view(self.parent_commit_id),
            merged_parent_commit_id: opt_view(self.merged_parent_commit_id),
            actor_id: opt_view(self.actor_id),
            created_at: self.created_at,
        }
    }
}

/// What the head row of a branch points to.
#[derive(Debug, PartialEq, Eq)]
pub struct GraphHeadMetadata {
    pub head_commit_id: String,
    pub parent_commit_id: Option<String>,
}

/// What a [`GraphHeadMetadata`] stands for.
pub struct GraphHeadMetadataModel {
    pub head_commit_id: Seq<char>,
    pub parent_commit_id: Option<Seq<char>>,
}

impl View for GraphHeadMetadata {
    type V = GraphHeadMetadataModel;

    open spec fn view(&self) -> GraphHeadMetadataModel {
        GraphHeadMetadataModel {
            head_commit_id: self.head_commit_id@,
            parent_commit_id: opt_view(self.parent_commit_id),
        }
    }
}

/// The id of the head row of a branch.
pub open spec fn head_object_id(branch: Option<Seq<char>>) -> Seq<char> {
    GRAPH_HEAD_PREFIX@ + match branch {
        Some(name) => name,
        None => MAIN_BRANCH_HEAD_KEY@,
    }
}

/// The id of the head row of a branch; main has none for a name.
pub fn graph_head_object_id(branch: &Option<String>) -> (id: String)
    ensures
        id@ == head_object_id(opt_view(*branch)),
{
    match branch {
        Some(name) => cat2(GRAPH_HEAD_PREFIX, name.as_str()),
        None => cat2(GRAPH_HEAD_PREFIX, MAIN_BRANCH_HEAD_KEY),
    }
}

/// The branch that a head row belongs to: what follows the prefix of its id, or
/// nothing where it has another form.
pub open spec fn head_branch(object_id: Seq<char>) -> Seq<char> {
    if starts_with(object_id, GRAPH_HEAD_PREFIX@) {
        object_id.skip(GRAPH_HEAD_PREFIX@.len() as int)
    } else {
        Seq::empty()
    }
}

/// The branch that a head row belongs to.
fn branch_of_head(object_id: &str) -> (branch: String)
    ensures
        branch@ == head_branch(object_id@),
{
    if has_prefix(object_id, GRAPH_HEAD_PREFIX) {
        let length: usize = GRAPH_HEAD_PREFIX.unicode_len();
        let branch: &str = object_id.substring_char(length, object_id.unicode_len());
        assert(branch@ =~= object_id@.skip(length as int));
        return branch.to_owned();
    }
    let branch: String = String::new();
    assert(branch@ =~= Seq::empty());
    branch
}

/// The branch of a head row is the branch that its id was made for.
pub proof fn lemma_head_branch(branch: Seq<char>)
    ensures
        head_branch(head_object_id(Some(branch))) == branch,
        head_branch(head_object_id(None)) == MAIN_BRANCH_HEAD_KEY@,
{
    let id = head_object_id(Some(branch));
    let length = GRAPH_HEAD_PREFIX@.len() as int;
    assert(id.subrange(0, length) =~= GRAPH_HEAD_PREFIX@);
    assert(id.skip(length) =~= branch);
    let main = head_object_id(None);
    assert(main.subrange(0, length) =~= GRAPH_HEAD_PREFIX@);
    assert(main.skip(length) =~= MAIN_BRANCH_HEAD_KEY@);
}

/// The commit that a row records, given its decoded metadata.
pub open spec fn commit_of_row(
    row: ManifestRowModel,
    metadata: GraphCommitMetadataModel,
    version: u64,
) -> GraphLineageRowModel {
    GraphLineageRowModel {
        graph_commit_id: row.object_id,
        manifest_branch: row.table_branch,
        manifest_version: version,
        parent_commit_id: metadata.parent_commit_id,
        merged_parent_commit_id: metadata.merged_parent_commit_id,
        actor_id: metadata.actor_id,
        created_at: metadata.created_at,
    }
}

/// The commit that row `index` of a batch records, or why it cannot be told.
/// `decoded` is its metadata as far as it could be decoded.
pub open spec fn decoded_commit(
    row: ManifestRowModel,
    index: nat,
    decoded: Result<GraphCommitMetadata, String>,
) -> Result<GraphLineageRowModel, OmniErrorModel> {
    if row.metadata is None {
        Err(internal("manifest graph_commit row missing metadata for "@ + row.object_id))
    } else {
        match decoded {
            Err(reason) => Err(
                internal("failed to decode graph_commit metadata: "@ + reason@),
            ),
            Ok(metadata) => match row.table_version {
                None => Err(null_cell("table_version"@, index)),
                Some(version) => Ok(commit_of_row(row, metadata@, version)),
            },
        }
    }
}

/// The commit that row `index` of a batch records.
pub fn decode_graph_commit_row(
    row: &ManifestRow,
    index: usize,
    decoded: &Result<GraphCommitMetadata, String>,
) -> (result: Result<GraphLineageRow, OmniError>)
    ensures
        match decoded_commit(row@, index as nat, *decoded) {
            Ok(commit) => result is Ok && result->Ok_0@ == commit,
            Err(error) => result is Err && result->Err_0@ == error,
        },
{
    if row.metadata.is_none() {
        let message: String = cat2(
            "manifest graph_commit row missing metadata for ",
            row.object_id.as_str(),
        );
        return Err(OmniError::manifest_internal(message.as_str()));
    }
    let metadata: &GraphCommitMetadata = match decoded {
        Ok(metadata) => metadata,
        Err(reason) => {
            let message: String = cat2(
                "failed to decode graph_commit metadata: ",
                reason.as_str(),
            );
            return Err(OmniError::manifest_internal(message.as_str()));
        },
    };
    let manifest_version: u64 = match required_u64(row.table_version, index, "table_version") {
        Ok(version) => version,
        Err(error) => {
            return Err(error);
        },
    };
    Ok(
        GraphLineageRow {
            graph_commit_id: row.object_id.clone(),
            manifest_branch: replicate_opt(&row.table_branch),
            manifest_version,
            parent_commit_id: replicate_opt(&metadata.parent_commit_id),
            merged_parent_commit_id: replicate_opt(&metadata.merged_parent_commit_id),
            actor_id: replicate_opt(&metadata.actor_id),
            created_at: metadata.created_at,
        },
    )
}

/// The metadata of a row as far as it could be decoded. Only rows of the lineage
/// have any.
#[derive(Debug, PartialEq, Eq)]
pub enum LineageMetadata {
    Commit(Result<GraphCommitMetadata, String>),
    Head(Result<GraphHeadMetadata, String>),
    /// Not decoded.
    Unread,
}

/// Whether the metadata of a row was decoded as its type asks.
pub open spec fn lineage_decoded(row: ManifestRowModel, metadata: LineageMetadata) -> bool {
    &&& row.object_type == OBJECT_TYPE_GRAPH_COMMIT@ && row.metadata is Some ==> metadata is Commit
    &&& row.object_type == OBJECT_TYPE_GRAPH_HEAD@ && row.metadata is Some ==> metadata is Head
}

/// The commits and heads that have been read, heads by branch. Of two heads of the
/// same branch the one that was read later counts.
#[derive(Debug, PartialEq, Eq)]
pub struct GraphLineage {
    pub commits: Vec<GraphLineageRow>,
    pub heads: Vec<(String, String)>,
}

/// What a [`GraphLineage`] stands for.
pub struct GraphLineageModel {
    pub commits: Seq<GraphLineageRowModel>,
    pub heads: Seq<(Seq<char>, Seq<char>)>,
}

impl View for GraphLineage {
    type V = GraphLineageModel;

    open spec fn view(&self) -> GraphLineageModel {
        GraphLineageModel { commits: views(self.commits@), heads: views(self.heads@) }
    }
}

/// The last value of a key, if it has one.
pub open spec fn last_value(pairs: Seq<(Seq<char>, Seq<char>)>, key: Seq<char>) -> Option<Seq<char>>
    decreases pairs.len(),
{
    if pairs.len() == 0 {
        None
    } else if pairs.last().0 == key {
        Some(pairs.last().1)
    } else {
        last_value(pairs.drop_last(), key)
    }
}

/// The last value of a key, if it has one.
pub fn value_of<'a>(pairs: &'a Vec<(String, String)>, key: &str) -> (value: Option<&'a String>)
    ensures
        opt_view(value) == last_value(views(pairs@), key@),
{
    let ghost models = views(pairs@);
    let mut end: usize = pairs.len();
    assert(models.subrange(0, end as int) =~= models);
    while end > 0
        invariant
            end <= pairs.len(),
            models == views(pairs@),
            last_value(models, key@) == last_value(models.subrange(0, end as int), key@),
        decreases end,
    {
        let ghost shorter = models.subrange(0, end as int);
        assert(shorter.last() == models[end - 1]);
        assert(models[end - 1] == pairs@[end - 1]@);
        if same_text(pairs[end - 1].0.as_str(), key) {
            return Some(&pairs[end - 1].1);
        }
        assert(shorter.drop_last() =~= models.subrange(0, end - 1));
        end -= 1;
    }
    None
}

/// The commit that a branch's head row points to, if it has one.
pub fn head_of<'a>(lineage: &'a GraphLineage, branch: &str) -> (commit: Option<&'a String>)
    ensures
        opt_view(commit) == last_value(lineage@.heads, branch@),
{
    value_of(&lineage.heads, branch)
}

/// What a row adds to the lineage, or why it cannot be told.
pub open spec fn with_lineage_row(
    lineage: GraphLineageModel,
    row: ManifestRowModel,
    index: nat,
    metadata: LineageMetadata,
) -> Result<GraphLineageModel, OmniErrorModel> {
    if row.object_type == OBJECT_TYPE_GRAPH_COMMIT@ {
        match decoded_commit(row, index, metadata->Commit_0) {
            Err(error) => Err(error),
            Ok(commit) => Ok(
                GraphLineageModel { commits: lineage.commits.push(commit), ..lineage },
            ),
        }
    } else if row.object_type == OBJECT_TYPE_GRAPH_HEAD@ {
        if row.metadata is None {
            Err(internal("manifest graph_head row missing metadata for "@ + row.object_id))
        } else {
            match metadata->Head_0 {
                Err(reason) => Err(
                    internal("failed to decode graph_head metadata: "@ + reason@),
                ),
                Ok(head) => Ok(
                    GraphLineageModel {
                        heads: lineage.heads.push((head_branch(row.object_id), head@.head_commit_id)),
                        ..lineage
                    },
                ),
            }
        }
    } else {
        Ok(lineage)
    }
}

/// What the first `n` rows of a batch add to the lineage.
pub open spec fn with_lineage_rows(
    lineage: GraphLineageModel,
    rows: Seq<ManifestRowModel>,
    metadata: Seq<LineageMetadata>,
    n: int,
) -> Result<GraphLineageModel, OmniErrorModel>
    decreases n,
{
    if n <= 0 {
        Ok(lineage)
    } else {
        match with_lineage_rows(lineage, rows, metadata, n - 1) {
            Err(error) => Err(error),
            Ok(before) => with_lineage_row(
                before,
                rows[n - 1],
                (n - 1) as nat,
                metadata[n - 1],
            ),
        }
    }
}

/// An error among the first rows is the error of all of them.
proof fn lemma_lineage_error(
    lineage: GraphLineageModel,
    rows: Seq<ManifestRowModel>,
    metadata: Seq<LineageMetadata>,
    n: int,
    m: int,
)
    requires
        n <= m,
        with_lineage_rows(lineage, rows, metadata, n) is Err,
    ensures
        with_lineage_rows(lineage, rows, metadata, m) == with_lineage_rows(
            lineage,
            rows,
            metadata,
            n,
        ),
    decreases m - n,
{
    if n < m {
        lemma_lineage_error(lineage, rows, metadata, n, m - 1);
    }
}

impl GraphLineage {
    /// No commits and no heads.
    pub fn new() -> (lineage: Self)
        ensures
            lineage@ == (GraphLineageModel { commits: Seq::empty(), heads: Seq::empty() }),
    {
        let lineage = GraphLineage { commits: Vec::new(), heads: Vec::new() };
        assert(lineage@.commits =~= Seq::empty());
        assert(lineage@.heads =~= Seq::empty());
        lineage
    }
}

/// Reads the lineage rows of one more batch. `metadata` holds what could be decoded
/// of each row's metadata.
pub fn read_graph_lineage(
    lineage: GraphLineage,
    rows: &Vec<ManifestRow>,
    metadata: &Vec<LineageMetadata>,
) -> (result: Result<GraphLineage, OmniError>)
    requires
        metadata.len() == rows.len(),
        forall|i: int|
            0 <= i < rows.len() ==> lineage_decoded((#[trigger] rows@[i])@, metadata@[i]),
    ensures
        match with_lineage_rows(lineage@, views(rows@), metadata@, rows@.len() as int) {
            Ok(read) => result is Ok && result->Ok_0@ == read,
            Err(error) => result is Err && result->Err_0@ == error,
        },
{
    let ghost start = lineage@;
    let ghost models = views(rows@);
    let ghost all = metadata@;
    let mut read: GraphLineage = lineage;
    let mut i: usize = 0;
    while i < rows.len()
        invariant
            i <= rows.len(),
            start == lineage@,
            models == views(rows@),
            all == metadata@,
            all.len() == rows.len(),
            forall|j: int|
                0 <= j < rows.len() ==> lineage_decoded((#[trigger] rows@[j])@, all[j]),
            with_lineage_rows(start, models, all, i as int) == Ok::<
                GraphLineageModel,
                OmniErrorModel,
            >(read@),
        decreases rows.len() - i,
    {
        let row: &ManifestRow = &rows[i];
        assert(models[i as int] == row@);
        assert(lineage_decoded(rows@[i as int]@, all[i as int]));
        let ghost before = read@;
        let ghost step = with_lineage_row(before, row@, i as nat, all[i as int]);
        assert(step == with_lineage_rows(start, models, all, i + 1));
        proof {
            if step is Err {
                lemma_lineage_error(start, models, all, i + 1, rows@.len() as int);
            }
        }
        if same_text(row.object_type.as_str(), OBJECT_TYPE_GRAPH_COMMIT) {
            let payload: &Result<GraphCommitMetadata, String> = match &metadata[i] {
                LineageMetadata::Commit(payload) => payload,
                _ => {
                    assert(row.metadata is None);
                    let message: String = cat2(
                        "manifest graph_commit row missing metadata for ",
                        row.object_id.as_str(),
                    );
                    return Err(OmniError::manifest_internal(message.as_str()));
                },
            };
            match decode_graph_commit_row(row, i, payload) {
                Ok(commit) => {
                    let ghost earlier = read.commits@;
                    read.commits.push(commit);
                    assert(views(read.commits@) =~= views(earlier).push(commit@));
                },
                Err(error) => {
                    return Err(error);
                },
            }
        } else if same_text(row.object_type.as_str(), OBJECT_TYPE_GRAPH_HEAD) {
            if row.metadata.is_none() {
                let message: String = cat2(
                    "manifest graph_head row missing metadata for ",
                    row.object_id.as_str(),
                );
                return Err(OmniError::manifest_internal(message.as_str()));
            }
            match &metadata[i] {
                LineageMetadata::Head(Ok(head)) => {
                    let branch: String = branch_of_head(row.object_id.as_str());
                    let ghost earlier = read.heads@;
                    read.heads.push((branch, head.head_commit_id.clone()));
                    assert(views(read.heads@) =~= views(earlier).push(
                        (branch@, head.head_commit_id@),
                    ));
                },
                LineageMetadata::Head(Err(reason)) => {
                    let message: String = cat2(
                        "failed to decode graph_head metadata: ",
                        reason.as_str(),
                    );
                    return Err(OmniError::manifest_internal(message.as_str()));
                },
                _ => {
                    assert(false);
                },
            }
        }
        i += 1;
    }
    Ok(read)
}

/// Whether commit `a` comes before `b` or at the same place: by manifest version,
/// then by time, then by id.
pub open spec fn commit_le(a: GraphLineageRowModel, b: GraphLineageRowModel) -> bool {
    if a.manifest_version != b.manifest_version {
        a.manifest_version < b.manifest_version
    } else if a.created_at != b.created_at {
        a.created_at < b.created_at
    } else {
        text_le(a.graph_commit_id, b.graph_commit_id)
    }
}

/// Whether a commit is the head: none comes after it, and none behind it in the
/// list is at the same place.
pub open spec fn is_head(rows: Seq<GraphLineageRowModel>, i: int) -> bool {
    &&& 0 <= i < rows.len()
    &&& forall|j: int| 0 <= j < rows.len() ==> commit_le(#[trigger] rows[j], rows[i])
    &&& forall|j: int| i < j < rows.len() ==> !commit_le(rows[i], #[trigger] rows[j])
}

/// The order of commits is transitive.
pub proof fn lemma_commit_transitive(
    a: GraphLineageRowModel,
    b: GraphLineageRowModel,
    c: GraphLineageRowModel,
)
    requires
        commit_le(a, b),
        commit_le(b, c),
    ensures
        commit_le(a, c),
{
    if a.manifest_version == b.manifest_version && a.created_at == b.created_at
        && b.manifest_version == c.manifest_version && b.created_at == c.created_at {
        lemma_text_transitive(a.graph_commit_id, b.graph_commit_id, c.graph_commit_id);
    }
}

/// Any two commits can be ordered.
pub proof fn lemma_commit_total(a: GraphLineageRowModel, b: GraphLineageRowModel)
    ensures
        commit_le(a, b) || commit_le(b, a),
{
    lemma_text_total(a.graph_commit_id, b.graph_commit_id);
}

/// Whether commit `a` comes before `b` or at the same place.
fn is_commit_le(a: &GraphLineageRow, b: &GraphLineageRow) -> (answer: bool)
    ensures
        answer == commit_le(a@, b@),
{
    if a.manifest_version != b.manifest_version {
        return a.manifest_version < b.manifest_version;
    }
    if a.created_at != b.created_at {
        return a.created_at < b.created_at;
    }
    text_at_most(a.graph_commit_id.as_str(), b.graph_commit_id.as_str())
}

/// The head of a lineage: its latest commit. There is none only where there is no
/// commit.
pub fn head_lineage_row(rows: &Vec<GraphLineageRow>) -> (head: Option<&GraphLineageRow>)
    ensures
        head is None <==> rows@.len() == 0,
        head is Some ==> exists|i: int|
            #[trigger] is_head(views(rows@), i) && *head->0 == rows@[i],
{
    let ghost models = views(rows@);
    if rows.len() == 0 {
        return None;
    }
    let mut best: usize = 0;
    let mut i: usize = 1;
    proof {
        lemma_commit_total(models[0], models[0]);
        assert forall|j: int| 0 <= j < 1 implies commit_le(#[trigger] models[j], models[0]) by {
            assert(j == 0);
        }
    }
    while i < rows.len()
        invariant
            best < i <= rows.len(),
            models == views(rows@),
            forall|j: int| 0 <= j < i ==> commit_le(#[trigger] models[j], models[best as int]),
            forall|j: int| best < j < i ==> !commit_le(models[best as int], #[trigger] models[j]),
        decreases rows.len() - i,
    {
        assert(models[i as int] == rows@[i as int]@);
        assert(models[best as int] == rows@[best as int]@);
        if is_commit_le(&rows[best], &rows[i]) {
            proof {
                lemma_commit_total(models[i as int], models[i as int]);
                assert forall|j: int| 0 <= j < i + 1 implies commit_le(
                    #[trigger] models[j],
                    models[i as int],
                ) by {
                    if j < i {
                        lemma_commit_transitive(models[j], models[best as int], models[i as int]);
                    }
                }
            }
            best = i;
        } else {
            proof {
                lemma_commit_total(models[i as int], models[best as int]);
            }
        }
        i += 1;
    }
    assert(is_head(models, best as int));
    Some(&rows[best])
}

/// There is only one head.
pub proof fn lemma_one_head(rows: Seq<GraphLineageRowModel>, i: int, j: int)
    requires
        is_head(rows, i),
        is_head(rows, j),
    ensures
        i == j,
{
    if i < j {
        assert(commit_le(rows[i], rows[j]));
    } else if j < i {
        assert(commit_le(rows[j], rows[i]));
    }
}

/// A row that materialises a piece of a commit.
#[derive(Debug, PartialEq, Eq)]
pub struct GraphLineageRowPart {
    pub object_id: String,
    pub object_type: &'static str,
    pub metadata: String,
    pub table_version: Option<u64>,
    pub table_branch: Option<String>,
}

/// What a [`GraphLineageRowPart`] stands for.
pub struct GraphLineageRowPartModel {
    pub object_id: Seq<char>,
    pub object_type: Seq<char>,
    pub metadata: Seq<char>,
    pub table_version: Option<u64>,
    pub table_branch: Option<Seq<char>>,
}

impl View for GraphLineageRowPart {
    type V = GraphLineageRowPartModel;

    open spec fn view(&self) -> GraphLineageRowPartModel {
        GraphLineageRowPartModel {
            object_id: self.object_id@,
            object_type: self.object_type@,
            metadata: self.metadata@,
            table_version: self.table_version,
            table_branch: opt_view(self.table_branch),
        }
    }
}

/// The fields of a commit that have no column of their own.
pub open spec fn commit_metadata(commit: GraphLineageRowModel) -> GraphCommitMetadataModel {
    GraphCommitMetadataModel {
        parent_commit_id: commit.parent_commit_id,
        merged_parent_commit_id: commit.merged_parent_commit_id,
        actor_id: commit.actor_id,
        created_at: commit.created_at,
    }
}

/// The fields of a commit that have no column of their own, to be encoded.
pub fn graph_commit_metadata(commit: &GraphLineageRow) -> (metadata: GraphCommitMetadata)
    ensures
        metadata@ == commit_metadata(commit@),
{
    GraphCommitMetadata {
        parent_commit_id: replicate_opt(&commit.parent_commit_id),
        merged_parent_commit_id: replicate_opt(&commit.merged_parent_commit_id),
        actor_id: replicate_opt(&commit.actor_id),
        created_at: commit.created_at,
    }
}

/// What the head row of a commit's branch points to, to be encoded.
pub fn graph_head_metadata(commit: &GraphLineageRow) -> (metadata: GraphHeadMetadata)
    ensures
        metadata@ == (GraphHeadMetadataModel {
            head_commit_id: commit@.graph_commit_id,
            parent_commit_id: commit@.parent_commit_id,
        }),
{
    GraphHeadMetadata {
        head_commit_id: commit.graph_commit_id.clone(),
        parent_commit_id: replicate_opt(&commit.parent_commit_id),
    }
}

/// The row of a commit.
pub open spec fn commit_part(
    commit: GraphLineageRowModel,
    metadata: Seq<char>,
) -> GraphLineageRowPartModel {
    GraphLineageRowPartModel {
        object_id: commit.graph_commit_id,
        object_type: OBJECT_TYPE_GRAPH_COMMIT@,
        metadata,
        table_version: Some(commit.manifest_version),
        table_branch: commit.manifest_branch,
    }
}

/// The row of a branch's head.
pub open spec fn head_part(branch: Option<Seq<char>>, metadata: Seq<char>) -> GraphLineageRowPartModel {
    GraphLineageRowPartModel {
        object_id: head_object_id(branch),
        object_type: OBJECT_TYPE_GRAPH_HEAD@,
        metadata,
        table_version: None,
        table_branch: None,
    }
}

/// The two rows of a commit: the commit itself, which never changes, and the head
/// of its branch, which each commit replaces. `commit_json` and `head_json` are
/// their encoded metadata.
pub fn graph_lineage_row_parts(
    commit: &GraphLineageRow,
    branch: &Option<String>,
    commit_json: Result<String, String>,
    head_json: Result<String, String>,
) -> (result: Result<(GraphLineageRowPart, GraphLineageRowPart), OmniError>)
    ensures
        match (commit_json, head_json) {
            (Err(reason), _) => result is Err && result->Err_0@ == internal(
                "failed to encode graph_commit metadata: "@ + reason@,
            ),
            (Ok(_), Err(reason)) => result is Err && result->Err_0@ == internal(
                "failed to encode graph_head metadata: "@ + reason@,
            ),
            (Ok(commit_text), Ok(head_text)) => {
                &&& result is Ok
                &&& (result->Ok_0).0@ == commit_part(commit@, commit_text@)
                &&& (result->Ok_0).1@ == head_part(opt_view(*branch), head_text@)
            },
        },
{
    let commit_text: String = match commit_json {
        Ok(text) => text,
        Err(reason) => {
            let message: String = cat2(
                "failed to encode graph_commit metadata: ",
                reason.as_str(),
            );
            return Err(OmniError::manifest_internal(message.as_str()));
        },
    };
    let head_text: String = match head_json {
        Ok(text) => text,
        Err(reason) => {
            let message: String = cat2("failed to encode graph_head metadata: ", reason.as_str());
            return Err(OmniError::manifest_internal(message.as_str()));
        },
    };
    Ok(
        (
            GraphLineageRowPart {
                object_id: commit.graph_commit_id.clone(),
                object_type: OBJECT_TYPE_GRAPH_COMMIT,
                metadata: commit_text,
                table_version: Some(commit.manifest_version),
                table_branch: replicate_opt(&commit.manifest_branch),
            },
            GraphLineageRowPart {
                object_id: graph_head_object_id(branch),
                object_type: OBJECT_TYPE_GRAPH_HEAD,
                metadata: head_text,
                table_version: None,
                table_branch: None,
            },
        ),
    )
}

/// The manifest row that a piece of a commit becomes. It belongs to no table, so
/// its table key is empty.
pub open spec fn part_row(part: GraphLineageRowPartModel) -> ManifestRowModel {
    ManifestRowModel {
        object_id: part.object_id,
        object_type: part.object_type,
        location: None,
        metadata: Some(part.metadata),
        table_key: Seq::empty(),
        table_version: part.table_version,
        table_branch: part.table_branch,
        row_count: None,
    }
}

/// Reading the row of a commit gives back the commit, where its metadata is decoded
/// as it was encoded.
pub proof fn lemma_commit_read_back(
    commit: GraphLineageRowModel,
    encoded: Seq<char>,
    index: nat,
    decoded: Result<GraphCommitMetadata, String>,
)
    requires
        decoded is Ok,
        decoded->Ok_0@ == commit_metadata(commit),
    ensures
        decoded_commit(part_row(commit_part(commit, encoded)), index, decoded) == Ok::<
            GraphLineageRowModel,
            OmniErrorModel,
        >(commit),
{
}

} // verus!
