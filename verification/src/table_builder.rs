//! A composable builder of test tables.
//!
//! The builder writes data by default (1 file with 10 rows per commit). Override with
//! [`TestTableBuilder::with_data`] when a test needs specific file and row counts.
//!
//! There are three orthogonal axes:
//! - [`LogState`]: what log files exist (commits)
//! - [`FeatureSet`]: which table features are enabled
//! - [`VersionTarget`]: how the snapshot is loaded (latest, time travel, incremental)
use std::sync::Arc;
use vstd::prelude::*;

use crate::arrow::{ArrowField, ArrowSchema, TryFromKernel};
use crate::column_data::{column_fits, generate_column, ColumnData};
use crate::error::{ArrowError, DeltaResult, Error};
use crate::schema::types::{DataType, SchemaRef, StructField, StructType};
use crate::text::{cat2, cat3, chars_of, join, owned, text_of, u64_text};

#[allow(unused_imports)]
use crate::arrow::{
    arrow_fields_view, entries_to_arrow, field_to_arrow, lemma_arrow_fields_view, primitive_to_arrow,
    type_to_arrow, ArrowFieldV, ArrowV,
};
#[allow(unused_imports)]
use crate::column_data::{generated, is_supported, values_fit, ColumnV};
#[allow(unused_imports)]
use crate::error::{ArrowErrorV, ErrorV};
#[allow(unused_imports)]
use crate::schema::primitive::{DecimalType, PrimitiveType};
#[allow(unused_imports)]
use crate::schema::struct_type::{field_views, put_all, unchecked_struct};
#[allow(unused_imports)]
use crate::schema::types::{EntryV, FieldV, StructV, TypeV};
#[allow(unused_imports)]
use crate::text::{joined, nat_text, texts};

verus! {

/// Describes the structure of a Delta table's log files.
#[derive(Clone, Copy, Debug)]
pub enum LogState {
    /// Only JSON commit files: `num_commits` total versions (0 through `num_commits - 1`). Version
    /// 0 is always the create-table commit; versions 1+ contain data.
    CommitsOnly { num_commits: u64 },
}

impl LogState {
    /// The number of versions.
    pub open spec fn versions(self) -> u64 {
        match self {
            LogState::CommitsOnly { num_commits } => num_commits,
        }
    }

    /// The text of the log state.
    pub open spec fn written(self) -> Seq<char> {
        "commits("@ + nat_text(self.versions() as nat) + ")"@
    }

    /// Table with `n` total versions as JSON commit files.
    ///
    /// `n` must be at least 1. Version 0 is a metadata-only create-table commit.
    pub fn with_commits(n: u64) -> (r: Self)
        requires
            n >= 1,
        ensures
            r == (LogState::CommitsOnly { num_commits: n }),
    {
        LogState::CommitsOnly { num_commits: n }
    }

    /// Number of commit files (versions 0 through `num_versions - 1`).
    pub fn num_versions(&self) -> (r: u64)
        ensures
            r == self.versions(),
    {
        match self {
            LogState::CommitsOnly { num_commits } => *num_commits,
        }
    }

    /// The log state as text, such as `commits(3)`.
    pub fn text(&self) -> (r: String)
        ensures
            r@ == self.written(),
    {
        let n = u64_text(self.num_versions());
        cat3("commits(", n.as_str(), ")")
    }
}

/// Which Delta table features to enable: table properties for the creation of the table.
#[derive(Debug)]
pub struct FeatureSet {
    /// Names and values of table properties.
    pub table_properties: Vec<(String, String)>,
}

/// The text with a prefix taken off, if it starts with it.
pub open spec fn without_prefix(s: Seq<char>, prefix: Seq<char>) -> Option<Seq<char>> {
    if prefix.len() <= s.len() && s.take(prefix.len() as int) == prefix {
        Some(s.skip(prefix.len() as int))
    } else {
        None
    }
}

/// A property name without the common prefixes.
pub open spec fn short_key(key: Seq<char>) -> Seq<char> {
    match without_prefix(key, "delta.feature."@) {
        Some(s) => s,
        None => match without_prefix(key, "delta."@) {
            Some(s) => s,
            None => key,
        },
    }
}

/// The texts of table properties.
pub open spec fn property_texts(properties: Seq<(String, String)>) -> Seq<Seq<char>> {
    Seq::new(
        properties.len(),
        |i: int| short_key(properties[i].0@) + "="@ + properties[i].1@,
    )
}

fn strip_prefix(s: &str, prefix: &str) -> (r: Option<String>)
    ensures
        match r {
            Some(t) => without_prefix(s@, prefix@) == Some(t@),
            None => without_prefix(s@, prefix@) is None,
        },
{
    let chars = chars_of(s);
    let start = chars_of(prefix);
    if start.len() > chars.len() {
        return None;
    }
    let mut i: usize = 0;
    while i < start.len()
        invariant
            i <= start.len() <= chars.len(),
            chars@ == s@,
            start@ == prefix@,
            chars@.take(i as int) == start@.take(i as int),
        decreases start.len() - i,
    {
        if chars[i] != start[i] {
            assert(s@.take(prefix@.len() as int)[i as int] != prefix@[i as int]);
            return None;
        }
        assert(chars@.take(i + 1) =~= start@.take(i + 1)) by {
            assert(chars@.take(i + 1) =~= chars@.take(i as int).push(chars@[i as int]));
            assert(start@.take(i + 1) =~= start@.take(i as int).push(start@[i as int]));
        }
        i = i + 1;
    }
    assert(start@.take(i as int) =~= start@);
    let n: usize = chars.len();
    let t = text_of(&chars, i, n);
    assert(t@ =~= s@.skip(i as int));
    Some(t)
}

impl FeatureSet {
    /// The text of the features.
    pub open spec fn written(self) -> Seq<char> {
        if self.table_properties@.len() == 0 {
            "empty"@
        } else {
            joined(property_texts(self.table_properties@), ", "@)
        }
    }

    /// No features enabled.
    pub fn new() -> (r: Self)
        ensures
            r.table_properties@.len() == 0,
    {
        FeatureSet { table_properties: Vec::new() }
    }

    /// Alias for [`FeatureSet::new`]. Reads better when no features are intended.
    pub fn empty() -> (r: Self)
        ensures
            r.table_properties@.len() == 0,
    {
        FeatureSet::new()
    }

    /// The features as text: `empty`, or `name=value` for each property, the names without the
    /// prefixes `delta.feature.` and `delta.`.
    pub fn text(&self) -> (r: String)
        ensures
            r@ == self.written(),
    {
        if self.table_properties.len() == 0 {
            return owned("empty");
        }
        let ghost all = property_texts(self.table_properties@);
        let mut parts: Vec<String> = Vec::new();
        let mut i: usize = 0;
        while i < self.table_properties.len()
            invariant
                i <= self.table_properties@.len(),
                all == property_texts(self.table_properties@),
                texts(parts@) == all.take(i as int),
            decreases self.table_properties.len() - i,
        {
            let property = &self.table_properties[i];
            let key = match strip_prefix(property.0.as_str(), "delta.feature.") {
                Some(s) => s,
                None => match strip_prefix(property.0.as_str(), "delta.") {
                    Some(s) => s,
                    None => owned(property.0.as_str()),
                },
            };
            let ghost before = texts(parts@);
            parts.push(cat3(key.as_str(), "=", property.1.as_str()));
            assert(texts(parts@) =~= before.push(all[i as int]));
            assert(texts(parts@) =~= all.take(i + 1));
            i = i + 1;
        }
        assert(all.take(i as int) =~= all);
        join(&parts, ", ")
    }
}

impl Default for FeatureSet {
    fn default() -> (r: Self)
        ensures
            r.table_properties@.len() == 0,
    {
        FeatureSet::new()
    }
}

/// How the snapshot should be loaded from the built table.
#[derive(Clone, Copy, Debug)]
pub enum VersionTarget {
    /// Load the latest version.
    Latest,
    /// Time travel to a specific version.
    AtVersion(u64),
    /// Load at `from`, then incrementally update to latest.
    IncrementalToLatest { from: u64 },
}

impl VersionTarget {
    /// The text of the target.
    pub open spec fn written(self) -> Seq<char> {
        match self {
            VersionTarget::Latest => "latest"@,
            VersionTarget::AtVersion(v) => "at_version("@ + nat_text(v as nat) + ")"@,
            VersionTarget::IncrementalToLatest { from } => "incremental("@ + nat_text(from as nat)
                + "->latest)"@,
        }
    }

    /// The target as text.
    pub fn text(&self) -> (r: String)
        ensures
            r@ == self.written(),
    {
        match self {
            VersionTarget::Latest => owned("latest"),
            VersionTarget::AtVersion(v) => {
                let v = u64_text(*v);
                cat3("at_version(", v.as_str(), ")")
            },
            VersionTarget::IncrementalToLatest { from } => {
                let from = u64_text(*from);
                cat3("incremental(", from.as_str(), "->latest)")
            },
        }
    }

    /// The version that is loaded from a table whose latest version is given.
    pub fn loaded_version(&self, latest: u64) -> (r: u64)
        ensures
            r == (match self {
                VersionTarget::AtVersion(v) => *v,
                _ => latest,
            }),
    {
        match self {
            VersionTarget::AtVersion(v) => *v,
            _ => latest,
        }
    }
}

/// One data file: its columns.
#[derive(Debug)]
pub struct DataFile {
    pub columns: Vec<ColumnData>,
}

/// One commit of data files.
#[derive(Debug)]
pub struct DataCommit {
    pub version: u64,
    pub files: Vec<DataFile>,
}

/// The columns of a data file as models.
pub open spec fn column_views(columns: Seq<ColumnData>) -> Seq<ColumnV> {
    Seq::new(columns.len(), |i: int| columns[i]@)
}

/// Data files as models.
pub open spec fn file_views(files: Seq<DataFile>) -> Seq<Seq<ColumnV>> {
    Seq::new(files.len(), |i: int| column_views(files[i].columns@))
}

/// Commits as models: the files of each.
pub open spec fn commit_views(commits: Seq<DataCommit>) -> Seq<(u64, Seq<Seq<ColumnV>>)> {
    Seq::new(commits.len(), |i: int| (commits[i].version, file_views(commits[i].files@)))
}

/// The number from which the values of a file are derived.
pub open spec fn file_base(version: u64, file: int) -> int {
    version * 1000 + file * 100
}

/// The columns of the files of a commit.
pub open spec fn commit_files(
    fields: Seq<ArrowFieldV>,
    num_files: usize,
    rows: usize,
    version: u64,
) -> Seq<Seq<ColumnV>> {
    Seq::new(
        num_files as nat,
        |k: int|
            Seq::new(
                fields.len(),
                |i: int| generated(fields[i].data_type, rows, file_base(version, k) as i32),
            ),
    )
}

/// Whether all the values of a file can be computed.
pub open spec fn file_fits(fields: Seq<ArrowFieldV>, rows: usize, base: int) -> bool {
    &&& i32::MIN <= base <= i32::MAX
    &&& forall|i: int|
        0 <= i < fields.len() ==> is_supported((#[trigger] fields[i]).data_type) && values_fit(
            fields[i].data_type,
            rows,
            base as i32,
        )
}

/// Whether all the values of a commit can be computed.
pub open spec fn commit_fits(
    schema: StructV,
    num_files: usize,
    rows: usize,
    version: u64,
) -> bool {
    match entries_to_arrow(schema.entries) {
        Ok(fields) => forall|k: int|
            0 <= k < num_files ==> file_fits(fields, rows, #[trigger] file_base(version, k)),
        Err(_) => true,
    }
}

/// The text of an error of Arrow.
pub open spec fn arrow_error_text(e: ArrowErrorV) -> Seq<char> {
    match e {
        ArrowErrorV::SchemaError(text) => "Schema error: "@ + text,
        ArrowErrorV::ExternalError(inner) => "External error: "@ + inner.text(),
    }
}

fn write_arrow_error(e: &ArrowError) -> (r: String)
    ensures
        r@ == arrow_error_text(e@),
{
    match e {
        ArrowError::SchemaError(text) => cat2("Schema error: ", text.as_str()),
        ArrowError::ExternalError(inner) => cat2("External error: ", inner.text()),
    }
}

/// The data commit of a version: `num_files` files with `rows_per_file` rows each.
pub fn write_data_commit(
    schema: &StructType,
    num_files: usize,
    rows_per_file: usize,
    version: u64,
) -> (r: DeltaResult<DataCommit>)
    requires
        commit_fits(schema@, num_files, rows_per_file, version),
    ensures
        match r {
            Ok(c) => c.version == version && match entries_to_arrow(schema@.entries) {
                Ok(fields) => file_views(c.files@) == commit_files(
                    fields,
                    num_files,
                    rows_per_file,
                    version,
                ),
                Err(_) => false,
            },
            Err(e) => match entries_to_arrow(schema@.entries) {
                Ok(_) => false,
                Err(a) => e@ == ErrorV::Generic(arrow_error_text(a)),
            },
        },
{
    let arrow_schema = match ArrowSchema::try_from_kernel(schema) {
        Ok(s) => s,
        Err(e) => {
            let text = write_arrow_error(&e);
            return Err(Error::Generic(text));
        },
    };
    let ghost fields = arrow_schema@;
    let mut files: Vec<DataFile> = Vec::new();
    let mut file_idx: usize = 0;
    assert(file_views(files@) =~= commit_files(fields, num_files, rows_per_file, version).take(0));
    while file_idx < num_files
        invariant
            file_idx <= num_files,
            fields == arrow_schema@,
            forall|k: int|
                0 <= k < num_files ==> file_fits(
                    fields,
                    rows_per_file,
                    #[trigger] file_base(version, k),
                ),
            file_views(files@) == commit_files(fields, num_files, rows_per_file, version).take(
                file_idx as int,
            ),
        decreases num_files - file_idx,
    {
        assert(file_fits(fields, rows_per_file, file_base(version, file_idx as int)));
        let base: i32 = version as i32 * 1000 + file_idx as i32 * 100;
        let columns = generate_columns(&arrow_schema.fields, rows_per_file, base);
        let ghost before = file_views(files@);
        let ghost all = commit_files(fields, num_files, rows_per_file, version);
        files.push(DataFile { columns });
        proof {
            lemma_arrow_fields_view(arrow_schema.fields@);
            assert(base == file_base(version, file_idx as int) as i32);
        }
        assert(column_views(columns@) =~= all[file_idx as int]);
        assert(file_views(files@) =~= before.push(all[file_idx as int]));
        assert(file_views(files@) =~= all.take(file_idx + 1));
        file_idx = file_idx + 1;
    }
    proof {
        let all = commit_files(fields, num_files, rows_per_file, version);
        assert(all.take(num_files as int) =~= all);
    }
    Ok(DataCommit { version, files })
}

fn all_files_fit(schema: &ArrowSchema, num_files: usize, rows: usize, version: u64) -> (r: bool)
    ensures
        r == forall|k: int|
            0 <= k < num_files ==> file_fits(schema@, rows, #[trigger] file_base(version, k)),
{
    let mut k: usize = 0;
    while k < num_files
        invariant
            k <= num_files,
            forall|j: int|
                0 <= j < k ==> file_fits(schema@, rows, #[trigger] file_base(version, j)),
        decreases num_files - k,
    {
        let base: i128 = version as i128 * 1000 + k as i128 * 100;
        assert(base == file_base(version, k as int));
        if base > i32::MAX as i128 || !columns_fit(&schema.fields, rows, base as i32) {
            assert(!file_fits(schema@, rows, file_base(version, k as int)));
            return false;
        }
        k = k + 1;
    }
    true
}

fn columns_fit(fields: &Vec<ArrowField>, rows: usize, base: i32) -> (r: bool)
    ensures
        r == file_fits(arrow_fields_view(fields@), rows, base as int),
{
    proof {
        lemma_arrow_fields_view(fields@);
    }
    let ghost views = arrow_fields_view(fields@);
    let mut i: usize = 0;
    while i < fields.len()
        invariant
            i <= fields@.len(),
            views == arrow_fields_view(fields@),
            views.len() == fields@.len(),
            forall|k: int| 0 <= k < fields@.len() ==> #[trigger] views[k] == fields@[k]@,
            forall|k: int|
                0 <= k < i ==> is_supported((#[trigger] views[k]).data_type) && values_fit(
                    views[k].data_type,
                    rows,
                    base,
                ),
        decreases fields.len() - i,
    {
        assert(views[i as int] == fields@[i as int]@);
        if !column_fits(&fields[i].data_type, rows, base) {
            return false;
        }
        i = i + 1;
    }
    true
}

fn generate_columns(fields: &Vec<ArrowField>, rows: usize, base: i32) -> (r: Vec<ColumnData>)
    requires
        file_fits(arrow_fields_view(fields@), rows, base as int),
    ensures
        column_views(r@) == Seq::new(
            fields@.len(),
            |i: int| generated(arrow_fields_view(fields@)[i].data_type, rows, base),
        ),
{
    proof {
        lemma_arrow_fields_view(fields@);
    }
    let ghost views = arrow_fields_view(fields@);
    let mut columns: Vec<ColumnData> = Vec::new();
    let mut i: usize = 0;
    while i < fields.len()
        invariant
            i <= fields@.len(),
            views == arrow_fields_view(fields@),
            views.len() == fields@.len(),
            forall|k: int| 0 <= k < fields@.len() ==> #[trigger] views[k] == fields@[k]@,
            file_fits(views, rows, base as int),
            columns@.len() == i,
            forall|k: int|
                0 <= k < i ==> (#[trigger] columns@[k])@ == generated(
                    views[k].data_type,
                    rows,
                    base,
                ),
        decreases fields.len() - i,
    {
        assert(views[i as int] == fields@[i as int]@);
        columns.push(generate_column(&fields[i].data_type, rows, base));
        i = i + 1;
    }
    assert(column_views(columns@) =~= Seq::new(
        fields@.len(),
        |i: int| generated(views[i].data_type, rows, base),
    ));
    columns
}

/// Builds a test table with the requested configuration.
pub struct TestTableBuilder {
    pub log_state: LogState,
    pub features: FeatureSet,
    pub schema: SchemaRef,
    pub num_data_files: usize,
    pub rows_per_file: usize,
}

/// A built test table: what it is made of.
pub struct TestTable {
    /// The schema with which version 0 creates the table.
    pub schema: SchemaRef,
    /// The table properties with which version 0 creates the table.
    pub table_properties: Vec<(String, String)>,
    /// The data commits, from version 1 on.
    pub commits: Vec<DataCommit>,
    pub table_root: String,
    pub description: String,
}

/// The number of data commits of a table with the given number of versions.
pub open spec fn data_commits(versions: u64) -> nat {
    if versions == 0 {
        0
    } else {
        (versions - 1) as nat
    }
}

/// The data commits of a table: one for each version from 1 on.
pub open spec fn table_commits(
    fields: Seq<ArrowFieldV>,
    versions: u64,
    num_files: usize,
    rows: usize,
) -> Seq<(u64, Seq<Seq<ColumnV>>)> {
    Seq::new(
        data_commits(versions),
        |i: int| ((i + 1) as u64, commit_files(fields, num_files, rows, (i + 1) as u64)),
    )
}

impl TestTableBuilder {
    /// Whether all the values of the table can be computed.
    pub open spec fn data_fits(&self) -> bool {
        forall|v: u64|
            1 <= v < self.log_state.versions() ==> #[trigger] commit_fits(
                self.schema@,
                self.num_data_files,
                self.rows_per_file,
                v,
            )
    }

    /// Create a builder with sensible defaults: 1 commit, no features, 1 data file with 10 rows per
    /// commit.
    pub fn new() -> (r: Self)
        ensures
            r.log_state.versions() == 1,
            r.features.table_properties@.len() == 0,
            r.schema@ == default_struct(),
            r.num_data_files == 1,
            r.rows_per_file == 10,
    {
        TestTableBuilder {
            log_state: LogState::with_commits(1),
            features: FeatureSet::empty(),
            schema: default_schema(),
            num_data_files: 1,
            rows_per_file: 10,
        }
    }

    /// Whether all the values of the table can be computed: each column has a supported type, and no
    /// value overflows.
    pub fn can_build(&self) -> (r: bool)
        ensures
            r == self.data_fits(),
    {
        let arrow_schema = match ArrowSchema::try_from_kernel(&*self.schema) {
            Ok(s) => s,
            Err(_) => {
                return true;
            },
        };
        let total: u64 = self.log_state.num_versions();
        let mut v: u64 = 1;
        while v < total
            invariant
                1 <= v,
                total == self.log_state.versions(),
                entries_to_arrow(self.schema@.entries) == Ok::<Seq<ArrowFieldV>, ArrowErrorV>(
                    arrow_schema@,
                ),
                forall|w: u64|
                    1 <= w < v ==> #[trigger] commit_fits(
                        self.schema@,
                        self.num_data_files,
                        self.rows_per_file,
                        w,
                    ),
            decreases total - v,
        {
            if !all_files_fit(&arrow_schema, self.num_data_files, self.rows_per_file, v) {
                assert(!commit_fits(self.schema@, self.num_data_files, self.rows_per_file, v));
                return false;
            }
            v = v + 1;
        }
        true
    }

    /// Set the log state (what files exist).
    pub fn with_log_state(self, s: LogState) -> (r: Self)
        ensures
            r == (TestTableBuilder { log_state: s, ..self }),
    {
        TestTableBuilder {
            log_state: s,
            features: self.features,
            schema: self.schema,
            num_data_files: self.num_data_files,
            rows_per_file: self.rows_per_file,
        }
    }

    /// Set the table features.
    pub fn with_features(self, f: FeatureSet) -> (r: Self)
        ensures
            r == (TestTableBuilder { features: f, ..self }),
    {
        TestTableBuilder {
            log_state: self.log_state,
            features: f,
            schema: self.schema,
            num_data_files: self.num_data_files,
            rows_per_file: self.rows_per_file,
        }
    }

    /// Override the default schema.
    pub fn with_schema(self, s: SchemaRef) -> (r: Self)
        ensures
            r == (TestTableBuilder { schema: s, ..self }),
    {
        TestTableBuilder {
            log_state: self.log_state,
            features: self.features,
            schema: s,
            num_data_files: self.num_data_files,
            rows_per_file: self.rows_per_file,
        }
    }

    /// Override the number of data files per commit and rows per file.
    pub fn with_data(self, files_per_commit: usize, rows_per_file: usize) -> (r: Self)
        ensures
            r == (TestTableBuilder { num_data_files: files_per_commit, rows_per_file, ..self }),
    {
        TestTableBuilder {
            log_state: self.log_state,
            features: self.features,
            schema: self.schema,
            num_data_files: files_per_commit,
            rows_per_file,
        }
    }

    /// Build the table: version 0 creates it, and each later version commits data. The schema must
    /// have a counterpart in Arrow where there is data to write.
    pub fn build(self) -> (r: DeltaResult<TestTable>)
        requires
            self.data_fits(),
        ensures
            match r {
                Ok(t) => {
                    &&& t.schema == self.schema
                    &&& t.table_properties == self.features.table_properties
                    &&& t.table_root@ == "memory:///"@
                    &&& t.description@ == self.log_state.written() + " + "@
                        + self.features.written()
                    &&& match entries_to_arrow(self.schema@.entries) {
                        Ok(fields) => commit_views(t.commits@) == table_commits(
                            fields,
                            self.log_state.versions(),
                            self.num_data_files,
                            self.rows_per_file,
                        ),
                        Err(_) => self.log_state.versions() <= 1 && t.commits@.len() == 0,
                    }
                },
                Err(e) => self.log_state.versions() > 1 && match entries_to_arrow(
                    self.schema@.entries,
                ) {
                    Ok(_) => false,
                    Err(a) => e@ == ErrorV::Generic(arrow_error_text(a)),
                },
            },
    {
        let total: u64 = self.log_state.num_versions();
        let ghost converted = entries_to_arrow(self.schema@.entries);
        let ghost all = table_commits(
            converted->Ok_0,
            total,
            self.num_data_files,
            self.rows_per_file,
        );
        let mut commits: Vec<DataCommit> = Vec::new();
        let mut v: u64 = 1;
        assert(commit_views(commits@) =~= all.take(0));
        while v < total
            invariant
                1 <= v,
                v <= total || v == 1,
                total == self.log_state.versions(),
                self.data_fits(),
                converted == entries_to_arrow(self.schema@.entries),
                v > 1 ==> converted is Ok,
                all == table_commits(
                    converted->Ok_0,
                    total,
                    self.num_data_files,
                    self.rows_per_file,
                ),
                commits@.len() == v - 1,
                commit_views(commits@) == all.take(v - 1),
            decreases total - v,
        {
            assert(commit_fits(self.schema@, self.num_data_files, self.rows_per_file, v));
            let commit = match write_data_commit(
                &self.schema,
                self.num_data_files,
                self.rows_per_file,
                v,
            ) {
                Ok(c) => c,
                Err(e) => {
                    return Err(e);
                },
            };
            let ghost before = commit_views(commits@);
            commits.push(commit);
            assert(commit_views(commits@) =~= before.push(all[v - 1]));
            assert(commit_views(commits@) =~= all.take(v as int));
            v = v + 1;
        }
        proof {
            assert(all.take(v - 1) =~= all);
        }
        let log_state = self.log_state.text();
        let features = self.features.text();
        let description = cat3(log_state.as_str(), " + ", features.as_str());
        Ok(
            TestTable {
                schema: self.schema,
                table_properties: self.features.table_properties,
                commits,
                table_root: owned("memory:///"),
                description,
            },
        )
    }
}

impl Default for TestTableBuilder {
    fn default() -> (r: Self)
        ensures
            r.log_state.versions() == 1,
            r.features.table_properties@.len() == 0,
            r.schema@ == default_struct(),
            r.num_data_files == 1,
            r.rows_per_file == 10,
    {
        TestTableBuilder::new()
    }
}

impl TestTable {
    /// The table root URL string.
    pub fn table_root(&self) -> (r: &str)
        ensures
            r@ == self.table_root@,
    {
        self.table_root.as_str()
    }

    /// Human-readable description of this table's configuration, such as
    /// `commits(3) + columnMapping.mode=name`.
    pub fn description(&self) -> (r: &str)
        ensures
            r@ == self.description@,
    {
        self.description.as_str()
    }

    /// The latest version of the table.
    pub fn latest_version(&self) -> (r: usize)
        ensures
            r == self.commits@.len(),
    {
        self.commits.len()
    }
}

/// A nullable field of a primitive type.
pub open spec fn primitive_field(name: Seq<char>, p: PrimitiveType) -> FieldV {
    FieldV::plain(name, TypeV::Primitive(p), true)
}

/// The fields of the default schema.
pub open spec fn default_fields() -> Seq<FieldV> {
    seq![
        primitive_field("bool_col"@, PrimitiveType::Boolean),
        primitive_field("byte_col"@, PrimitiveType::Byte),
        primitive_field("short_col"@, PrimitiveType::Short),
        primitive_field("int_col"@, PrimitiveType::Integer),
        primitive_field("long_col"@, PrimitiveType::Long),
        primitive_field("float16_col"@, PrimitiveType::Float16),
        primitive_field("float_col"@, PrimitiveType::Float),
        primitive_field("double_col"@, PrimitiveType::Double),
        primitive_field("string_col"@, PrimitiveType::String),
        primitive_field("binary_col"@, PrimitiveType::Binary),
        primitive_field("date_col"@, PrimitiveType::Date),
        primitive_field("ts_col"@, PrimitiveType::Timestamp),
        primitive_field("ts_ntz_col"@, PrimitiveType::TimestampNtz),
        primitive_field("decimal_col"@, PrimitiveType::Decimal(DecimalType::of(10, 2))),
    ]
}

/// The default schema.
pub open spec fn default_struct() -> StructV {
    unchecked_struct(default_fields())
}

/// Default schema with all Delta primitive types.
pub fn default_schema() -> (r: SchemaRef)
    ensures
        r@ == default_struct(),
{
    let mut fields: Vec<StructField> = Vec::new();
    fields.push(StructField::new("bool_col", DataType::boolean(), true));
    fields.push(StructField::new("byte_col", DataType::byte(), true));
    fields.push(StructField::new("short_col", DataType::short(), true));
    fields.push(StructField::new("int_col", DataType::integer(), true));
    fields.push(StructField::new("long_col", DataType::long(), true));
    fields.push(StructField::new("float16_col", DataType::float16(), true));
    fields.push(StructField::new("float_col", DataType::float(), true));
    fields.push(StructField::new("double_col", DataType::double(), true));
    fields.push(StructField::new("string_col", DataType::string(), true));
    fields.push(StructField::new("binary_col", DataType::binary(), true));
    fields.push(StructField::new("date_col", DataType::date(), true));
    fields.push(StructField::new("ts_col", DataType::timestamp(), true));
    fields.push(StructField::new("ts_ntz_col", DataType::timestamp_ntz(), true));
    if let Ok(decimal) = DataType::decimal(10, 2) {
        fields.push(StructField::new("decimal_col", decimal, true));
    }
    assert(field_views(fields@) =~= default_fields());
    Arc::new(StructType::new_unchecked(fields))
}

/// Whether each entry holds a primitive type of which there is data for files of ten rows.
pub open spec fn has_default_data(entries: Seq<EntryV>, base: int) -> bool {
    forall|i: int|
        0 <= i < entries.len() ==> primitive_has_default_data(
            (#[trigger] entries[i]).field.data_type,
            base,
        )
}

/// Whether a type is primitive and there is data of it for files of ten rows.
pub open spec fn primitive_has_default_data(t: TypeV, base: int) -> bool {
    t matches TypeV::Primitive(p) && is_supported(primitive_to_arrow(p)) && values_fit(
        primitive_to_arrow(p),
        10,
        base as i32,
    )
}

/// Primitive types have a counterpart in Arrow.
proof fn lemma_primitives_convert(entries: Seq<EntryV>, base: int)
    requires
        i32::MIN <= base <= i32::MAX,
        has_default_data(entries, base),
    ensures
        entries_to_arrow(entries) is Ok,
        file_fits(entries_to_arrow(entries)->Ok_0, 10, base),
    decreases entries.len(),
{
    if entries.len() > 0 {
        assert forall|i: int| 0 <= i < entries.drop_last().len() implies primitive_has_default_data(
            (#[trigger] entries.drop_last()[i]).field.data_type,
            base,
        ) by {
            assert(entries.drop_last()[i] == entries[i]);
        }
        lemma_primitives_convert(entries.drop_last(), base);
        assert(primitive_has_default_data(entries[entries.len() - 1].field.data_type, base));
        let t = entries.last().field.data_type;
        assert(type_to_arrow(t) == Ok::<ArrowV, ArrowErrorV>(
            primitive_to_arrow(t->Primitive_0),
        ));
        let init = entries_to_arrow(entries.drop_last())->Ok_0;
        let all = entries_to_arrow(entries)->Ok_0;
        assert(field_to_arrow(entries.last().field) is Ok);
        assert(all == init.push(field_to_arrow(entries.last().field)->Ok_0));
    }
}

/// The entries of an unchecked struct hold the fields that it was made of.
proof fn lemma_default_entries(fields: Seq<FieldV>, n: int, base: int)
    requires
        0 <= n <= fields.len(),
        forall|i: int|
            0 <= i < fields.len() ==> primitive_has_default_data(
                (#[trigger] fields[i]).data_type,
                base,
            ),
    ensures
        has_default_data(put_all(fields, n), base),
    decreases n,
{
    if n > 0 {
        lemma_default_entries(fields, n - 1, base);
        assert(primitive_has_default_data(fields[n - 1].data_type, base));
    }
}

/// There is data of the default schema.
proof fn lemma_default_data(base: int)
    requires
        0 <= base <= 106_733_982,
    ensures
        entries_to_arrow(default_struct().entries) is Ok,
        file_fits(entries_to_arrow(default_struct().entries)->Ok_0, 10, base),
{
    let fields = default_fields();
    assert forall|i: int| 0 <= i < fields.len() implies primitive_has_default_data(
        (#[trigger] fields[i]).data_type,
        base,
    ) by {
        reveal_with_fuel(crate::column_data::power_of_ten, 3);
        assert(crate::column_data::power_of_ten(2) == 100);
        if i == 13 {
            let d = DecimalType::of(10, 2);
            assert(fields[i].data_type == TypeV::Primitive(PrimitiveType::Decimal(d)));
            assert(d.fraction_digits() as i8 == 2i8);
            assert(is_supported(primitive_to_arrow(PrimitiveType::Decimal(d))));
            assert(values_fit(primitive_to_arrow(PrimitiveType::Decimal(d)), 10, base as i32));
        } else {
            assert(is_supported(primitive_to_arrow(fields[i].data_type->Primitive_0)));
            assert(values_fit(primitive_to_arrow(fields[i].data_type->Primitive_0), 10, base as i32));
        }
    }
    lemma_default_entries(fields, fields.len() as int, base);
    lemma_primitives_convert(default_struct().entries, base);
}

/// Convenience wrapper: builds a [`TestTable`] of the default schema from a log state and a feature
/// set.
pub fn test_table(log_state: LogState, feature_set: FeatureSet) -> (r: TestTable)
    requires
        log_state.versions() <= 106_734,
    ensures
        r.schema@ == default_struct(),
        r.table_properties == feature_set.table_properties,
        r.table_root@ == "memory:///"@,
        r.description@ == log_state.written() + " + "@ + feature_set.written(),
        entries_to_arrow(default_struct().entries) is Ok,
        commit_views(r.commits@) == table_commits(
            entries_to_arrow(default_struct().entries)->Ok_0,
            log_state.versions(),
            1,
            10,
        ),
{
    let builder = TestTableBuilder::new().with_log_state(log_state).with_features(feature_set);
    proof {
        lemma_default_data(0);
        assert forall|v: u64| 1 <= v < log_state.versions() implies #[trigger] commit_fits(
            default_struct(),
            1,
            10,
            v,
        ) by {
            let fields = entries_to_arrow(default_struct().entries)->Ok_0;
            assert forall|k: int| 0 <= k < 1 implies file_fits(
                fields,
                10,
                #[trigger] file_base(v, k),
            ) by {
                lemma_default_data(file_base(v, k));
            }
        }
    }
    let built = builder.build();
    match built {
        Ok(t) => t,
        Err(_) => {
            assert(false);
            TestTable {
                schema: default_schema(),
                table_properties: Vec::new(),
                commits: Vec::new(),
                table_root: String::new(),
                description: String::new(),
            }
        },
    }
}

/// The data commits of a table have the versions from 1 on, one after the other; each has as many
/// files as asked for, and each file a column for each field, with values from the base of the file on.
pub proof fn law_data_commits(
    fields: Seq<ArrowFieldV>,
    versions: u64,
    num_files: usize,
    rows: usize,
    i: int,
    k: int,
    c: int,
)
    requires
        0 <= i < versions - 1,
        0 <= k < num_files,
        0 <= c < fields.len(),
        0 <= (i + 1) * 1000 + k * 100 <= i32::MAX,
    ensures
        ({
            let commits = table_commits(fields, versions, num_files, rows);
            &&& commits.len() == versions - 1
            &&& commits[i].0 == i + 1
            &&& commits[i].1.len() == num_files
            &&& commits[i].1[k].len() == fields.len()
            &&& commits[i].1[k][c] == generated(
                fields[c].data_type,
                rows,
                ((i + 1) * 1000 + k * 100) as i32,
            )
        }),
{
}

/// Property names are written without their common prefixes.
pub proof fn law_short_keys(rest: Seq<char>)
    ensures
        short_key("delta.feature."@ + rest) == rest,
        without_prefix("delta."@ + rest, "delta.feature."@) is None ==> short_key(
            "delta."@ + rest,
        ) == rest,
{
    assert(("delta.feature."@ + rest).take("delta.feature."@.len() as int) =~= "delta.feature."@);
    assert(("delta.feature."@ + rest).skip("delta.feature."@.len() as int) =~= rest);
    assert(("delta."@ + rest).take("delta."@.len() as int) =~= "delta."@);
    assert(("delta."@ + rest).skip("delta."@.len() as int) =~= rest);
}

/// The columns of the default schema, one by one: one of each primitive type, all of them nullable.
pub proof fn law_default_columns(i: int)
    requires
        0 <= i < 14,
    ensures
        default_fields().len() == 14,
        default_fields()[i] == FieldV::plain(
            if i == 0 {
                "bool_col"@
            } else if i == 1 {
                "byte_col"@
            } else if i == 2 {
                "short_col"@
            } else if i == 3 {
                "int_col"@
            } else if i == 4 {
                "long_col"@
            } else if i == 5 {
                "float16_col"@
            } else if i == 6 {
                "float_col"@
            } else if i == 7 {
                "double_col"@
            } else if i == 8 {
                "string_col"@
            } else if i == 9 {
                "binary_col"@
            } else if i == 10 {
                "date_col"@
            } else if i == 11 {
                "ts_col"@
            } else if i == 12 {
                "ts_ntz_col"@
            } else {
                "decimal_col"@
            },
            TypeV::Primitive(
                if i == 0 {
                    PrimitiveType::Boolean
                } else if i == 1 {
                    PrimitiveType::Byte
                } else if i == 2 {
                    PrimitiveType::Short
                } else if i == 3 {
                    PrimitiveType::Integer
                } else if i == 4 {
                    PrimitiveType::Long
                } else if i == 5 {
                    PrimitiveType::Float16
                } else if i == 6 {
                    PrimitiveType::Float
                } else if i == 7 {
                    PrimitiveType::Double
                } else if i == 8 {
                    PrimitiveType::String
                } else if i == 9 {
                    PrimitiveType::Binary
                } else if i == 10 {
                    PrimitiveType::Date
                } else if i == 11 {
                    PrimitiveType::Timestamp
                } else if i == 12 {
                    PrimitiveType::TimestampNtz
                } else {
                    PrimitiveType::Decimal(DecimalType::of(10, 2))
                },
            ),
            true,
        ),
{
}

/// The texts of targets: the latest version, a given one, or the latest one after a given one.
pub proof fn law_texts_of_targets(v: u64)
    ensures
        VersionTarget::Latest.written() == "latest"@,
        VersionTarget::AtVersion(v).written() == "at_version("@ + nat_text(v as nat) + ")"@,
        (VersionTarget::IncrementalToLatest { from: v }).written() == "incremental("@ + nat_text(
            v as nat,
        ) + "->latest)"@,
{
}

/// A table without versions, and one with the version that makes it alone, has no commits of data.
pub proof fn law_tables_without_data(
    fields: Seq<ArrowFieldV>,
    versions: u64,
    num_files: usize,
    rows: usize,
)
    requires
        versions <= 1,
    ensures
        table_commits(fields, versions, num_files, rows).len() == 0,
{
}

} // verus!
