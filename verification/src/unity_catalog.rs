//! Loading snapshots of tables whose commits are kept by a catalog: what is asked of the catalog,
//! and what is made of its answer.
use vstd::prelude::*;

use crate::error::{DeltaResult, Error};
use crate::table_url::{
    parse_url, path_ends_with_slash, path_of_url, text_of_url, with_trailing_slash,
};
use crate::text::{cat2, cat3, owned, u64_text};

#[allow(unused_imports)]
use crate::error::ErrorV;
#[allow(unused_imports)]
use crate::table_url::{ends_with_slash, url_as_directory, url_path, url_read, url_text};
#[allow(unused_imports)]
use crate::text::nat_text;

verus! {

/// What the catalog is asked for: the commits of a table from one version to another.
#[derive(Debug)]
pub struct CommitsRequest {
    pub table_id: String,
    pub table_uri: String,
    pub start_version: Option<i64>,
    pub end_version: Option<i64>,
}

/// A commit that the catalog keeps.
#[derive(Debug)]
pub struct Commit {
    pub version: i64,
    pub timestamp: i64,
    pub file_name: String,
    pub file_size: i64,
    pub file_modification_timestamp: i64,
}

/// The answer of the catalog.
#[derive(Debug)]
pub struct CommitsResponse {
    pub commits: Option<Vec<Commit>>,
    /// The latest ratified version
    pub latest_table_version: i64,
}

/// A commit file that is staged below a table.
#[derive(Debug)]
pub struct StagedCommit {
    pub version: i64,
    pub file_name: String,
    pub last_modified: i64,
    pub size: u64,
}

/// How a snapshot is built.
pub struct SnapshotPlan {
    /// The directory of the table
    pub table_url: url::Url,
    /// The latest version that the catalog knows of
    pub max_catalog_version: u64,
    /// The commits that only the catalog knows of, in the order of their versions
    pub log_tail: Vec<StagedCommit>,
    /// The version to load, or the latest
    pub at_version: Option<u64>,
}

/// The model of [`StagedCommit`].
pub struct StagedV {
    pub version: i64,
    pub file_name: Seq<char>,
    pub last_modified: i64,
    pub size: u64,
}

impl View for StagedCommit {
    type V = StagedV;

    open spec fn view(&self) -> StagedV {
        StagedV {
            version: self.version,
            file_name: self.file_name@,
            last_modified: self.last_modified,
            size: self.size,
        }
    }
}

/// The request for the commits of a table, from the first version on, up to the given one or to the
/// latest. A version that the catalog cannot express is left out.
pub fn commits_request(table_id: &str, table_uri: &str, version: Option<u64>) -> (r: CommitsRequest)
    ensures
        r.table_id@ == table_id@,
        r.table_uri@ == table_uri@,
        r.start_version == Some(0i64),
        r.end_version == (match version {
            Some(v) => if v <= i64::MAX {
                Some(v as i64)
            } else {
                None
            },
            None => None,
        }),
{
    let end_version: Option<i64> = match version {
        Some(v) => if v <= i64::MAX as u64 {
            Some(v as i64)
        } else {
            None
        },
        None => None,
    };
    CommitsRequest {
        table_id: owned(table_id),
        table_uri: owned(table_uri),
        start_version: Some(0),
        end_version,
    }
}

/// How many commits at the start of a list do not come after the given version.
pub open spec fn place(commits: Seq<Commit>, version: i64) -> int
    decreases commits.len(),
{
    if commits.len() == 0 {
        0
    } else if commits.last().version <= version {
        commits.len() as int
    } else {
        place(commits.drop_last(), version)
    }
}

/// The commits in the order of their versions. Commits of the same version stay in their order.
pub open spec fn by_version(commits: Seq<Commit>) -> Seq<Commit>
    decreases commits.len(),
{
    if commits.len() == 0 {
        seq![]
    } else {
        let init = by_version(commits.drop_last());
        init.insert(place(init, commits.last().version), commits.last())
    }
}

/// Whether no commit comes before one of a smaller version.
pub open spec fn in_version_order(commits: Seq<Commit>) -> bool {
    forall|i: int, j: int|
        0 <= i < j < commits.len() ==> (#[trigger] commits[i]).version <= (
        #[trigger] commits[j]).version
}

/// The place of a version splits a list in order.
proof fn lemma_place(commits: Seq<Commit>, version: i64)
    requires
        in_version_order(commits),
    ensures
        0 <= place(commits, version) <= commits.len(),
        forall|i: int|
            0 <= i < place(commits, version) ==> (#[trigger] commits[i]).version <= version,
        forall|i: int|
            place(commits, version) <= i < commits.len() ==> version < (
            #[trigger] commits[i]).version,
    decreases commits.len(),
{
    if commits.len() > 0 && commits.last().version > version {
        let init = commits.drop_last();
        assert(in_version_order(init));
        lemma_place(init, version);
        assert forall|i: int| 0 <= i < place(commits, version) implies (
        #[trigger] commits[i]).version <= version by {
            assert(init[i] == commits[i]);
        }
        assert forall|i: int| place(commits, version) <= i < commits.len() implies version < (
        #[trigger] commits[i]).version by {
            if i < init.len() {
                assert(init[i] == commits[i]);
            }
        }
    }
}

/// Putting commits in the order of their versions gives the same commits, each as often as before,
/// with no version before a smaller one.
pub proof fn law_by_version(commits: Seq<Commit>)
    ensures
        in_version_order(by_version(commits)),
        by_version(commits).to_multiset() == commits.to_multiset(),
        by_version(commits).len() == commits.len(),
    decreases commits.len(),
{
    broadcast use vstd::seq_lib::group_to_multiset_ensures;

    if commits.len() > 0 {
        let init = by_version(commits.drop_last());
        let last = commits.last();
        law_by_version(commits.drop_last());
        lemma_place(init, last.version);
        let p = place(init, last.version);
        assert(commits =~= commits.drop_last().push(last));
        vstd::seq_lib::to_multiset_insert(init, p, last);
        let all = init.insert(p, last);
        assert forall|i: int, j: int| 0 <= i < j < all.len() implies (#[trigger] all[i]).version
            <= (#[trigger] all[j]).version by {
            let a = if i < p {
                i
            } else {
                i - 1
            };
            let b = if j < p {
                j
            } else {
                j - 1
            };
            if i != p {
                assert(all[i] == init[a]);
            }
            if j != p {
                assert(all[j] == init[b]);
            }
        }
    }
}

/// Puts commits in the order of their versions.
pub fn sort_commits(commits: Vec<Commit>) -> (r: Vec<Commit>)
    ensures
        r@ == by_version(commits@),
{
    let ghost all = commits@;
    let n: usize = commits.len();
    let mut sorted: Vec<Commit> = Vec::new();
    let mut i: usize = 0;
    for commit in iter: commits
        invariant
            i == iter.index(),
            iter.seq() == commits@,
            i <= n == commits@.len(),
            all == commits@,
            sorted@ == by_version(all.take(i as int)),
    {
        assert(i < commits@.len());
        assert(all.take(i + 1).drop_last() =~= all.take(i as int));
        assert(all.take(i + 1).last() == commit);
        proof {
            law_by_version(all.take(i as int));
            lemma_place(sorted@, commit.version);
        }
        let mut at: usize = sorted.len();
        assert(sorted@.take(at as int) =~= sorted@);
        while at > 0 && sorted[at - 1].version > commit.version
            invariant
                at <= sorted@.len(),
                place(sorted@, commit.version) == place(sorted@.take(at as int), commit.version),
            decreases at,
        {
            assert(sorted@.take(at as int).drop_last() =~= sorted@.take(at - 1));
            at = at - 1;
        }
        assert(at == place(sorted@, commit.version)) by {
            if at > 0 {
                assert(sorted@.take(at as int).last() == sorted@[at - 1]);
            }
        }
        sorted.insert(at, commit);
        i = i + 1;
    }
    assert(all.take(n as int) =~= all);
    sorted
}

/// The commit files of commits, where each size is a size: none is negative.
pub open spec fn staged(commits: Seq<Commit>) -> Seq<StagedV> {
    Seq::new(
        commits.len(),
        |i: int|
            StagedV {
                version: commits[i].version,
                file_name: commits[i].file_name@,
                last_modified: commits[i].file_modification_timestamp,
                size: commits[i].file_size as u64,
            },
    )
}

/// Commit files as models.
pub open spec fn staged_views(commits: Seq<StagedCommit>) -> Seq<StagedV> {
    Seq::new(commits.len(), |i: int| commits[i]@)
}

/// Whether a commit has a size.
pub open spec fn has_size(c: Commit) -> bool {
    c.file_size >= 0
}

/// Whether all commits have a size.
pub open spec fn all_have_size(commits: Seq<Commit>) -> bool {
    forall|i: int| 0 <= i < commits.len() ==> has_size(#[trigger] commits[i])
}

/// The commits of an answer.
pub open spec fn commits_of(response: CommitsResponse) -> Seq<Commit> {
    match response.commits {
        Some(commits) => commits@,
        None => seq![],
    }
}

/// The error for a number that the target type cannot hold.
pub open spec fn out_of_range_error() -> ErrorV {
    ErrorV::Generic("out of range integral type conversion attempted"@)
}

/// What is wrong with an answer of the catalog about a table, or with the location of the table.
pub open spec fn plan_error(table_uri: Seq<char>, response: CommitsResponse) -> Option<ErrorV> {
    if response.latest_table_version < 0 {
        Some(out_of_range_error())
    } else {
        match url_read(table_uri) {
            Err(text) => Some(ErrorV::Generic(text)),
            Ok(u) => if url_as_directory(u) is None {
                Some(ErrorV::Generic("Cannot modify URL path segments"@))
            } else if !all_have_size(commits_of(response)) {
                Some(out_of_range_error())
            } else {
                None
            },
        }
    }
}

/// Whether the location of a table can take a slash at its end.
pub open spec fn location_fits(table_uri: Seq<char>) -> bool {
    match url_read(table_uri) {
        Ok(u) => ends_with_slash(url_path(u)) || url_text(u).len() + 16 <= 0xFFFF_FFFF,
        Err(_) => true,
    }
}

fn stage_commits(commits: Vec<Commit>) -> (r: DeltaResult<Vec<StagedCommit>>)
    ensures
        match r {
            Ok(list) => all_have_size(commits@) && staged_views(list@) == staged(commits@),
            Err(e) => !all_have_size(commits@) && e@ == out_of_range_error(),
        },
{
    let n: usize = commits.len();
    let mut list: Vec<StagedCommit> = Vec::new();
    let mut i: usize = 0;
    assert(staged_views(list@) =~= staged(commits@).take(0));
    for c in iter: commits
        invariant
            i == iter.index(),
            iter.seq() == commits@,
            i <= n == commits@.len(),
            forall|j: int| 0 <= j < i ==> has_size(#[trigger] commits@[j]),
            staged_views(list@) == staged(commits@).take(i as int),
    {
        assert(i < commits@.len());
        assert(c == commits@[i as int]);
        if c.file_size < 0 {
            assert(!has_size(commits@[i as int]));
            return Err(
                Error::Generic(owned("out of range integral type conversion attempted")),
            );
        }
        let ghost before = staged_views(list@);
        list.push(
            StagedCommit {
                version: c.version,
                file_name: c.file_name,
                last_modified: c.file_modification_timestamp,
                size: c.file_size as u64,
            },
        );
        assert(staged_views(list@) =~= before.push(staged(commits@)[i as int]));
        assert(staged_views(list@) =~= staged(commits@).take(i + 1));
        i = i + 1;
    }
    assert(staged(commits@).take(n as int) =~= staged(commits@));
    Ok(list)
}

/// How the snapshot of a table is built from the answer of the catalog: below the table's location,
/// with the commits in the order of their versions. The catalog always returns the latest ratified
/// version.
pub fn snapshot_plan(table_uri: &str, response: CommitsResponse, version: Option<u64>) -> (r:
    DeltaResult<SnapshotPlan>)
    requires
        location_fits(table_uri@),
    ensures
        match r {
            Ok(p) => {
                &&& plan_error(table_uri@, response) is None
                &&& url_as_directory(url_read(table_uri@)->Ok_0) == Some(p.table_url)
                &&& p.max_catalog_version == response.latest_table_version
                &&& staged_views(p.log_tail@) == staged(by_version(commits_of(response)))
                &&& p.at_version == version
            },
            Err(e) => plan_error(table_uri@, response) == Some(e@),
        },
{
    let ghost all = commits_of(response);
    let commits = match response.commits {
        Some(c) => c,
        None => {
            let c: Vec<Commit> = Vec::new();
            assert(c@ =~= seq![]);
            c
        },
    };
    assert(commits@ == all);
    let sorted = sort_commits(commits);
    if response.latest_table_version < 0 {
        return Err(Error::Generic(owned("out of range integral type conversion attempted")));
    }
    let max_catalog_version: u64 = response.latest_table_version as u64;
    let parsed = match parse_url(table_uri) {
        Ok(u) => u,
        Err(text) => {
            return Err(Error::Generic(text));
        },
    };
    let table_url = match with_trailing_slash(parsed) {
        Ok(u) => u,
        Err(e) => {
            return Err(e);
        },
    };
    proof {
        lemma_all_have_size(all);
    }
    let log_tail = match stage_commits(sorted) {
        Ok(list) => list,
        Err(e) => {
            return Err(e);
        },
    };
    Ok(SnapshotPlan { table_url, max_catalog_version, log_tail, at_version: version })
}

/// The order of commits has no part in whether they all have a size.
proof fn lemma_all_have_size(commits: Seq<Commit>)
    ensures
        all_have_size(by_version(commits)) == all_have_size(commits),
{
    broadcast use vstd::seq_lib::group_to_multiset_ensures;

    law_by_version(commits);
    let sorted = by_version(commits);
    if all_have_size(sorted) {
        assert forall|i: int| 0 <= i < commits.len() implies has_size(#[trigger] commits[i]) by {
            assert(commits.to_multiset().contains(commits[i]));
            assert(sorted.contains(commits[i]));
        }
    }
    if all_have_size(commits) {
        assert forall|i: int| 0 <= i < sorted.len() implies has_size(#[trigger] sorted[i]) by {
            assert(sorted.to_multiset().contains(sorted[i]));
            assert(commits.contains(sorted[i]));
        }
    }
}

/// How the snapshot of a table is built, or nothing where the location of the table is too long to
/// take a slash at its end.
pub fn checked_snapshot_plan(
    table_uri: &str,
    response: CommitsResponse,
    version: Option<u64>,
) -> (r: Option<DeltaResult<SnapshotPlan>>)
    ensures
        match r {
            Some(Ok(p)) => {
                &&& plan_error(table_uri@, response) is None
                &&& url_as_directory(url_read(table_uri@)->Ok_0) == Some(p.table_url)
                &&& p.max_catalog_version == response.latest_table_version
                &&& staged_views(p.log_tail@) == staged(by_version(commits_of(response)))
                &&& p.at_version == version
            },
            Some(Err(e)) => plan_error(table_uri@, response) == Some(e@),
            None => !location_fits(table_uri@),
        },
{
    let fits = match parse_url(table_uri) {
        Ok(u) => {
            let n: usize = text_of_url(&u).unicode_len();
            path_ends_with_slash(path_of_url(&u)) || n as u128 + 16 <= 0xFFFF_FFFF
        },
        Err(_) => true,
    };
    if fits {
        Some(snapshot_plan(table_uri, response, version))
    } else {
        None
    }
}

/// Whether each commit file but the first has the version that follows the one before it.
pub open spec fn is_contiguous(tail: Seq<StagedV>) -> bool {
    forall|i: int| 0 < i < tail.len() ==> (#[trigger] tail[i]).version == tail[i - 1].version + 1
}

/// Why no snapshot can be built as planned: the version to load is one that the catalog does not
/// know of, or a commit is missing between two others.
pub open spec fn load_error(p: SnapshotPlan) -> Option<ErrorV> {
    if p.at_version is Some && p.at_version->0 > p.max_catalog_version {
        Some(
            ErrorV::Generic(
                "Time-travel version "@ + nat_text(p.at_version->0 as nat)
                    + " exceeds max_catalog_version "@ + nat_text(p.max_catalog_version as nat),
            ),
        )
    } else if !is_contiguous(staged_views(p.log_tail@)) {
        Some(ErrorV::Generic("log_tail must be sorted and contiguous"@))
    } else {
        None
    }
}

impl SnapshotPlan {
    /// Makes sure that a snapshot can be built as planned.
    pub fn ensure_loadable(&self) -> (r: DeltaResult<()>)
        ensures
            match r {
                Ok(_) => load_error(*self) is None,
                Err(e) => load_error(*self) == Some(e@),
            },
    {
        if let Some(v) = self.at_version {
            if v > self.max_catalog_version {
                let v = u64_text(v);
                let max = u64_text(self.max_catalog_version);
                let head = cat3("Time-travel version ", v.as_str(), " exceeds max_catalog_version ");
                return Err(Error::Generic(cat2(head.as_str(), max.as_str())));
            }
        }
        let ghost tail = staged_views(self.log_tail@);
        let mut i: usize = 1;
        while i < self.log_tail.len()
            invariant
                1 <= i,
                i <= self.log_tail@.len() || i == 1,
                tail == staged_views(self.log_tail@),
                forall|j: int|
                    0 < j < i && j < tail.len() ==> (#[trigger] tail[j]).version == tail[j
                        - 1].version + 1,
                self.at_version is Some ==> self.at_version->0 <= self.max_catalog_version,
            decreases self.log_tail.len() - i,
        {
            assert(tail[i as int].version == self.log_tail@[i as int].version);
            assert(tail[i - 1].version == self.log_tail@[i - 1].version);
            if self.log_tail[i].version as i128 != self.log_tail[i - 1].version as i128 + 1 {
                return Err(Error::Generic(owned("log_tail must be sorted and contiguous")));
            }
            i = i + 1;
        }
        Ok(())
    }
}

/// The commits of one version, in their order.
pub open spec fn of_version(commits: Seq<Commit>, version: i64) -> Seq<Commit>
    decreases commits.len(),
{
    if commits.len() == 0 {
        seq![]
    } else if commits.last().version == version {
        of_version(commits.drop_last(), version).push(commits.last())
    } else {
        of_version(commits.drop_last(), version)
    }
}

proof fn lemma_of_version_add(a: Seq<Commit>, b: Seq<Commit>, version: i64)
    ensures
        of_version(a + b, version) == of_version(a, version) + of_version(b, version),
    decreases b.len(),
{
    if b.len() == 0 {
        assert(a + b =~= a);
        assert(of_version(a, version) + of_version(b, version) =~= of_version(a, version));
    } else {
        assert((a + b).drop_last() =~= a + b.drop_last());
        assert((a + b).last() == b.last());
        lemma_of_version_add(a, b.drop_last(), version);
        assert(of_version(a + b, version) =~= of_version(a, version) + of_version(b, version));
    }
}

proof fn lemma_none_of_version(a: Seq<Commit>, version: i64)
    requires
        forall|i: int| 0 <= i < a.len() ==> (#[trigger] a[i]).version != version,
    ensures
        of_version(a, version) == Seq::<Commit>::empty(),
    decreases a.len(),
{
    if a.len() > 0 {
        assert(a.last() == a[a.len() - 1]);
        assert forall|i: int| 0 <= i < a.drop_last().len() implies (
        #[trigger] a.drop_last()[i]).version != version by {
            assert(a.drop_last()[i] == a[i]);
        }
        lemma_none_of_version(a.drop_last(), version);
    }
}

/// Commits of the same version stay in the order in which they came.
pub proof fn law_same_versions_stay_in_order(commits: Seq<Commit>, version: i64)
    ensures
        of_version(by_version(commits), version) == of_version(commits, version),
    decreases commits.len(),
{
    if commits.len() > 0 {
        let front = commits.drop_last();
        let last = commits.last();
        law_same_versions_stay_in_order(front, version);
        law_by_version(front);
        let init = by_version(front);
        lemma_place(init, last.version);
        let p = place(init, last.version);
        let a = init.take(p);
        let b = init.skip(p);
        assert(init =~= a + b);
        assert(init.insert(p, last) =~= (a + seq![last]) + b);
        lemma_of_version_add(a, b, version);
        lemma_of_version_add(a, seq![last], version);
        lemma_of_version_add(a + seq![last], b, version);
        assert(seq![last].drop_last() =~= seq![]);
        assert(of_version(seq![last].drop_last(), version) =~= seq![]);
        if last.version == version {
            assert forall|i: int| 0 <= i < b.len() implies (#[trigger] b[i]).version != version by {
                assert(b[i] == init[p + i]);
            }
            lemma_none_of_version(b, version);
            assert(of_version(seq![last], version) =~= seq![last]);
            assert(of_version(by_version(commits), version) =~= of_version(init, version).push(
                last,
            ));
        } else {
            assert(of_version(seq![last], version) =~= seq![]);
            assert(of_version(by_version(commits), version) =~= of_version(init, version));
        }
    }
}

/// When an answer of the catalog can be used: the latest version and all sizes are not negative, and
/// the location is a URL whose path can end with a slash.
pub proof fn law_usable_answers(table_uri: Seq<char>, response: CommitsResponse)
    ensures
        plan_error(table_uri, response) is None <==> {
            &&& response.latest_table_version >= 0
            &&& url_read(table_uri) is Ok
            &&& url_as_directory(url_read(table_uri)->Ok_0) is Some
            &&& response.commits matches Some(commits) ==> forall|i: int|
                0 <= i < commits@.len() ==> (#[trigger] commits@[i]).file_size >= 0
        },
{
    if let Some(commits) = response.commits {
        if all_have_size(commits@) {
            assert forall|i: int| 0 <= i < commits@.len() implies (
            #[trigger] commits@[i]).file_size >= 0 by {
                assert(has_size(commits@[i]));
            }
        } else {
            let i = choose|i: int| 0 <= i < commits@.len() && !has_size(#[trigger] commits@[i]);
            assert(commits@[i].file_size < 0);
        }
    }
}

/// A staged commit file has the name, the size and the time of its commit.
pub proof fn law_staged_commits(commits: Seq<Commit>, i: int)
    requires
        0 <= i < commits.len(),
        commits[i].file_size >= 0,
    ensures
        staged(commits).len() == commits.len(),
        staged(commits)[i].version == commits[i].version,
        staged(commits)[i].file_name == commits[i].file_name@,
        staged(commits)[i].last_modified == commits[i].file_modification_timestamp,
        staged(commits)[i].size == commits[i].file_size,
{
}

/// A plan can be carried out exactly where the version to load is not beyond the latest one that the
/// catalog knows of, and each commit file has the version that follows the one before it.
pub proof fn law_loadable_plans(p: SnapshotPlan)
    ensures
        load_error(p) is None <==> {
            &&& p.at_version is None || p.at_version->0 <= p.max_catalog_version
            &&& forall|i: int|
                0 < i < p.log_tail@.len() ==> (#[trigger] p.log_tail@[i]).version == p.log_tail@[i
                    - 1].version + 1
        },
{
    let tail = staged_views(p.log_tail@);
    if is_contiguous(tail) {
        assert forall|i: int| 0 < i < p.log_tail@.len() implies (
        #[trigger] p.log_tail@[i]).version == p.log_tail@[i - 1].version + 1 by {
            assert(tail[i].version == tail[i - 1].version + 1);
        }
    } else {
        let i = choose|i: int|
            0 < i < tail.len() && (#[trigger] tail[i]).version != tail[i - 1].version + 1;
        assert(p.log_tail@[i].version != p.log_tail@[i - 1].version + 1);
    }
}

/// What is said of an answer that cannot be used: a version or a size below zero, a location that is no
/// URL, or one that has no path.
pub proof fn law_errors_of_answers(table_uri: Seq<char>, response: CommitsResponse)
    ensures
        plan_error(table_uri, response) matches Some(e) ==> e == ErrorV::Generic(
            if response.latest_table_version < 0 {
                "out of range integral type conversion attempted"@
            } else if url_read(table_uri) is Err {
                url_read(table_uri)->Err_0
            } else if url_as_directory(url_read(table_uri)->Ok_0) is None {
                "Cannot modify URL path segments"@
            } else {
                "out of range integral type conversion attempted"@
            },
        ),
{
}

/// What is said of a plan that cannot be loaded: a version that the catalog does not have yet, or commits
/// that do not follow each other.
pub proof fn law_errors_of_plans(p: SnapshotPlan)
    ensures
        load_error(p) matches Some(e) ==> e == ErrorV::Generic(
            if p.at_version matches Some(v) && v > p.max_catalog_version {
                "Time-travel version "@ + nat_text(p.at_version->0 as nat)
                    + " exceeds max_catalog_version "@ + nat_text(p.max_catalog_version as nat)
            } else {
                "log_tail must be sorted and contiguous"@
            },
        ),
{
}

} // verus!
