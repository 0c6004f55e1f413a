//! Where and how the data files of a table are written.
use std::sync::Arc;
use vstd::prelude::*;

use crate::column_mapping::ColumnMappingMode;
use crate::column_name::ColumnName;
use crate::expressions::{share, ExpressionRef};
use crate::metrics::{random_uuid, write_uuid};
use crate::partition_path::build_partition_path;
use crate::schema::types::SchemaRef;
use crate::table_url::{copy_url, path_of_url, set_url_path, text_of_url};
use crate::text::{cat2, cat3};
use crate::text_map::TextMap;

#[allow(unused_imports)]
use crate::metrics::{is_random_uuid, uuid_text};
#[allow(unused_imports)]
use crate::partition_path::{column_values, partition_path};
#[allow(unused_imports)]
use crate::table_url::{path_fits, url_path, url_text, url_with_path};

verus! {

/// The characters of a random directory prefix.
pub open spec fn alphanumeric(i: nat) -> char {
    if i < 26 {
        (97 + i) as char
    } else if i < 52 {
        (65 + (i - 26)) as char
    } else {
        (48 + (i - 52)) as char
    }
}

/// Whether a character is a letter or a digit of ASCII.
pub open spec fn is_alphanumeric(c: char) -> bool {
    'a' <= c <= 'z' || 'A' <= c <= 'Z' || '0' <= c <= '9'
}

/// `Rng::random_range` of `rand`, on the generator of the thread: a number below `n`. Which one it
/// is rests on chance.
#[verifier::external_body]
fn random_below(n: u8) -> (r: u8)
    requires
        n > 0,
    ensures
        r < n,
{
    rand::Rng::random_range(&mut rand::rng(), 0..n)
}

/// The letter or digit at a position among the small letters, the capital letters and the digits.
pub fn alphanumeric_char(i: u8) -> (r: char)
    requires
        i < 62,
    ensures
        r == alphanumeric(i as nat),
        is_alphanumeric(r),
{
    if i < 26 {
        (97 + i) as char
    } else if i < 52 {
        (65 + (i - 26)) as char
    } else {
        (48 + (i - 52)) as char
    }
}

/// The directory prefix of two positions among letters and digits.
pub fn alphanumeric_prefix(i: u8, j: u8) -> (r: String)
    requires
        i < 62,
        j < 62,
    ensures
        r@ == seq![alphanumeric(i as nat), alphanumeric(j as nat)],
        is_prefix(r@),
{
    let mut r = String::new();
    r.push(alphanumeric_char(i));
    r.push(alphanumeric_char(j));
    assert(r@ =~= seq![alphanumeric(i as nat), alphanumeric(j as nat)]);
    r
}

/// Whether a text is two letters or digits.
pub open spec fn is_prefix(s: Seq<char>) -> bool {
    s.len() == 2 && is_alphanumeric(s[0]) && is_alphanumeric(s[1])
}

/// Generates a random prefix of two letters or digits for partition directory paths. It is used
/// when column mapping is on, to spread files over the object store and to keep physical column
/// names out of paths.
pub fn random_alphanumeric_prefix() -> (r: String)
    ensures
        is_prefix(r@),
{
    let i: u8 = random_below(62);
    let j: u8 = random_below(62);
    alphanumeric_prefix(i, j)
}

/// Table-wide write state, shared by all the write contexts of a transaction.
pub struct SharedWriteState {
    /// The directory of the table.
    pub table_root: url::Url,
    /// The schema of the data as users see it.
    pub logical_schema: SchemaRef,
    /// The schema of the data in files.
    pub physical_schema: SchemaRef,
    /// What turns logical data into physical data.
    pub logical_to_physical: ExpressionRef,
    /// How columns are mapped.
    pub column_mapping_mode: ColumnMappingMode,
    /// The columns whose statistics are collected.
    pub stats_columns: Vec<ColumnName>,
    /// Logical partition column names in metadata-defined order.
    pub logical_partition_columns: Vec<String>,
}

/// A write context for a specific partition or an unpartitioned table.
pub struct WriteContext {
    /// What all the write contexts of the table have in common.
    pub shared: Arc<SharedWriteState>,
    /// Physical column name to serialized value, `None` for a null partition value. Empty for
    /// unpartitioned tables.
    pub physical_partition_values: TextMap<Option<String>>,
}

/// The place of a new deletion vector file: below a table root, under a prefix, with a unique id.
pub struct DeletionVectorPath {
    /// The directory of the table.
    pub table_root: url::Url,
    /// The directory below the table root, or nothing.
    pub prefix: String,
    /// The id of the file.
    pub id: u128,
}

/// A deletion vector file below a table root.
pub open spec fn deletion_vector_text(prefix: Seq<char>, id: u128) -> Seq<char> {
    if prefix.len() == 0 {
        "deletion_vector_"@ + uuid_text(id) + ".bin"@
    } else {
        prefix + "/deletion_vector_"@ + uuid_text(id) + ".bin"@
    }
}

impl DeletionVectorPath {
    /// The path of the file from the table root on.
    pub fn relative_path(&self) -> (r: String)
        ensures
            r@ == deletion_vector_text(self.prefix@, self.id),
    {
        let id = write_uuid(self.id);
        if self.prefix.as_str().unicode_len() == 0 {
            cat3("deletion_vector_", id.as_str(), ".bin")
        } else {
            let head = cat2(self.prefix.as_str(), "/deletion_vector_");
            cat3(head.as_str(), id.as_str(), ".bin")
        }
    }
}

/// The value that a write context holds for a partition column.
pub open spec fn partition_value(values: Map<Seq<char>, Option<String>>, name: Seq<char>) -> Option<
    Seq<char>,
> {
    if values.contains_key(name) {
        match values[name] {
            Some(v) => Some(v@),
            None => None,
        }
    } else {
        None
    }
}

impl WriteContext {
    /// The partition columns with their values, in the order of the table's metadata.
    pub open spec fn partition(&self) -> Seq<(Seq<char>, Option<Seq<char>>)> {
        Seq::new(
            self.shared.logical_partition_columns@.len(),
            |i: int|
                (
                    self.shared.logical_partition_columns@[i]@,
                    partition_value(
                        self.physical_partition_values@,
                        self.shared.logical_partition_columns@[i]@,
                    ),
                ),
        )
    }

    /// What follows the path of the table root in that of the directory for data files: nothing
    /// for an unpartitioned table, the Hive-style partition path for a partitioned one, and the
    /// prefix when column mapping is on.
    pub open spec fn dir_suffix(&self, prefix: Seq<char>) -> Seq<char> {
        match self.shared.column_mapping_mode {
            ColumnMappingMode::Disabled => partition_path(self.partition()),
            _ => prefix + "/"@,
        }
    }

    /// Whether data files go to the table root itself: there is neither column mapping nor a
    /// partition column.
    pub open spec fn dir_is_root(&self) -> bool {
        self.shared.column_mapping_mode == ColumnMappingMode::Disabled
            && self.shared.logical_partition_columns@.len() == 0
    }

    /// The directory for data files under a given prefix.
    pub open spec fn dir(&self, prefix: Seq<char>) -> url::Url {
        if self.dir_is_root() {
            self.shared.table_root
        } else {
            url_with_path(
                self.shared.table_root,
                url_path(self.shared.table_root) + self.dir_suffix(prefix),
            )
        }
    }

    /// Whether the directory for data files is short enough for a URL, whatever its prefix.
    pub open spec fn dir_fits(&self) -> bool {
        let suffix_len = if self.shared.column_mapping_mode == ColumnMappingMode::Disabled {
            partition_path(self.partition()).len()
        } else {
            3
        };
        self.dir_is_root() || path_fits(
            url_text(self.shared.table_root),
            url_text(self.shared.table_root).len() + suffix_len,
        )
    }

    /// Returns the table root URL.
    pub fn table_root_dir(&self) -> (r: &url::Url)
        ensures
            *r == self.shared.table_root,
    {
        &self.shared.table_root
    }

    /// The path of the directory for data files, given the path of the table root and a prefix.
    pub fn dir_path(&self, root_path: &str, prefix: &str) -> (r: String)
        ensures
            r@ == root_path@ + self.dir_suffix(prefix@),
    {
        match self.shared.column_mapping_mode {
            ColumnMappingMode::Disabled => {
                let suffix = self.hive_partition_path_suffix();
                cat2(root_path, suffix.as_str())
            },
            ColumnMappingMode::Id | ColumnMappingMode::Name => {
                let r = cat3(root_path, prefix, "/");
                assert(r@ =~= root_path@ + self.dir_suffix(prefix@));
                r
            },
        }
    }

    /// The directory for data files under a given prefix.
    pub fn prefixed_dir(&self, prefix: &str) -> (r: url::Url)
        requires
            self.dir_fits(),
            prefix@.len() <= 2,
        ensures
            r == self.dir(prefix@),
    {
        let mut url = copy_url(&self.shared.table_root);
        let path = path_of_url(&self.shared.table_root);
        if self.shared.logical_partition_columns.len() > 0 || self.shared.column_mapping_mode
            != ColumnMappingMode::Disabled {
            let dir_path = self.dir_path(path, prefix);
            proof {
                reveal_strlit("/");
            }
            set_url_path(&mut url, dir_path.as_str());
        }
        url
    }

    /// Returns the recommended directory for writing Parquet data files. Connectors should write
    /// files as `<write_dir>/<uuid>.parquet`.
    ///
    /// Without column mapping that is the table root, or the Hive-style partition directory below
    /// it. With column mapping it is a directory of two random letters or digits below the table
    /// root; each call makes a fresh one.
    pub fn write_dir(&self) -> (r: url::Url)
        requires
            self.dir_fits(),
        ensures
            self.dir_is_root() ==> r == self.shared.table_root,
            self.shared.column_mapping_mode == ColumnMappingMode::Disabled && !self.dir_is_root()
                ==> r == url_with_path(
                self.shared.table_root,
                url_path(self.shared.table_root) + partition_path(self.partition()),
            ),
            self.shared.column_mapping_mode != ColumnMappingMode::Disabled ==> exists|
                prefix: Seq<char>,
            | #[trigger] is_prefix(prefix) && r == self.dir(prefix),
    {
        match self.shared.column_mapping_mode {
            ColumnMappingMode::Disabled => {
                proof {
                    reveal_strlit("");
                }
                self.prefixed_dir("")
            },
            ColumnMappingMode::Id | ColumnMappingMode::Name => {
                let prefix = random_alphanumeric_prefix();
                self.prefixed_dir(prefix.as_str())
            },
        }
    }

    /// The recommended directory as [`WriteContext::write_dir`] gives it, or nothing where it may
    /// be too long for a URL.
    pub fn checked_write_dir(&self) -> (r: Option<url::Url>)
        ensures
            r is Some <==> self.dir_fits(),
            match r {
                Some(u) => self.shared.column_mapping_mode == ColumnMappingMode::Disabled && u
                    == self.dir(seq![]) || exists|prefix: Seq<char>| #[trigger]
                    is_prefix(prefix) && u == self.dir(prefix),
                None => true,
            },
    {
        let text_len: usize = text_of_url(&self.shared.table_root).unicode_len();
        let suffix_len: usize = match self.shared.column_mapping_mode {
            ColumnMappingMode::Disabled => self.hive_partition_path_suffix().as_str().unicode_len(),
            ColumnMappingMode::Id | ColumnMappingMode::Name => 3,
        };
        let is_root = self.shared.logical_partition_columns.len() == 0
            && self.shared.column_mapping_mode == ColumnMappingMode::Disabled;
        if is_root || text_len as u128 + 12 * (text_len as u128 + suffix_len as u128) + 16 <= 0xFFFF_FFFF {
            Some(self.write_dir())
        } else {
            None
        }
    }

    /// Returns the logical (user-facing) table schema.
    pub fn logical_schema(&self) -> (r: &SchemaRef)
        ensures
            *r == self.shared.logical_schema,
    {
        &self.shared.logical_schema
    }

    /// Returns the physical schema.
    pub fn physical_schema(&self) -> (r: &SchemaRef)
        ensures
            *r == self.shared.physical_schema,
    {
        &self.shared.physical_schema
    }

    /// Returns the expression that transforms logical data to physical data for writing.
    pub fn logical_to_physical(&self) -> (r: ExpressionRef)
        ensures
            r == self.shared.logical_to_physical,
    {
        share(&self.shared.logical_to_physical)
    }

    /// How the columns of the table are mapped.
    pub fn column_mapping_mode(&self) -> (r: ColumnMappingMode)
        ensures
            r == self.shared.column_mapping_mode,
    {
        self.shared.column_mapping_mode
    }

    /// Returns the column names that should have statistics collected during writes.
    pub fn stats_columns(&self) -> (r: &Vec<ColumnName>)
        ensures
            *r == self.shared.stats_columns,
    {
        &self.shared.stats_columns
    }

    /// Returns the serialized partition values by physical column names.
    pub fn physical_partition_values(&self) -> (r: &TextMap<Option<String>>)
        ensures
            *r == self.physical_partition_values,
    {
        &self.physical_partition_values
    }

    /// Builds the Hive-style partition path suffix, such as `year=2024/region=US/`. A column
    /// without a value counts as null.
    pub fn hive_partition_path_suffix(&self) -> (r: String)
        ensures
            r@ == partition_path(self.partition()),
    {
        let names = &self.shared.logical_partition_columns;
        let mut columns: Vec<(&str, Option<&str>)> = Vec::new();
        let mut i: usize = 0;
        while i < names.len()
            invariant
                i <= names.len(),
                *names == self.shared.logical_partition_columns,
                column_values(columns@) == self.partition().take(i as int),
            decreases names.len() - i,
        {
            let name = names[i].as_str();
            let value: Option<&str> = match self.physical_partition_values.get(name) {
                Some(v) => match v {
                    Some(text) => Some(text.as_str()),
                    None => None,
                },
                None => None,
            };
            let ghost before = columns@;
            columns.push((name, value));
            assert(column_values(columns@) =~= self.partition().take(i + 1)) by {
                assert(self.partition().take(i + 1) =~= self.partition().take(i as int).push(
                    self.partition()[i as int],
                ));
                assert(column_values(columns@) =~= column_values(before).push(
                    column_values(columns@)[i as int],
                ));
            }
            i = i + 1;
        }
        assert(self.partition().take(i as int) =~= self.partition());
        build_partition_path(&columns)
    }

    /// Generate a new unique path for a deletion vector file in the table directory. A non-empty
    /// prefix spreads such files over the object store.
    pub fn new_deletion_vector_path(&self, random_prefix: String) -> (r: DeletionVectorPath)
        ensures
            r.table_root == self.shared.table_root,
            r.prefix == random_prefix,
            is_random_uuid(r.id),
    {
        DeletionVectorPath {
            table_root: copy_url(&self.shared.table_root),
            prefix: random_prefix,
            id: random_uuid(),
        }
    }
}

/// The letters and digits of prefixes in their order: small letters, capital letters, digits.
pub proof fn law_letters_and_digits(i: nat)
    requires
        i < 62,
    ensures
        alphanumeric(i) == "abcdefghijklmnopqrstuvwxyzABCDEFGHIJKLMNOPQRSTUVWXYZ0123456789"@[i as int],
        forall|j: nat| j < 62 && #[trigger] alphanumeric(j) == alphanumeric(i) ==> j == i,
{
    reveal_strlit("abcdefghijklmnopqrstuvwxyzABCDEFGHIJKLMNOPQRSTUVWXYZ0123456789");
    assert("abcdefghijklmnopqrstuvwxyzABCDEFGHIJKLMNOPQRSTUVWXYZ0123456789"@[0] == 'a');
    assert("abcdefghijklmnopqrstuvwxyzABCDEFGHIJKLMNOPQRSTUVWXYZ0123456789"@[1] == 'b');
    assert("abcdefghijklmnopqrstuvwxyzABCDEFGHIJKLMNOPQRSTUVWXYZ0123456789"@[2] == 'c');
    assert("abcdefghijklmnopqrstuvwxyzABCDEFGHIJKLMNOPQRSTUVWXYZ0123456789"@[3] == 'd');
    assert("abcdefghijklmnopqrstuvwxyzABCDEFGHIJKLMNOPQRSTUVWXYZ0123456789"@[4] == 'e');
    assert("abcdefghijklmnopqrstuvwxyzABCDEFGHIJKLMNOPQRSTUVWXYZ0123456789"@[5] == 'f');
    assert("abcdefghijklmnopqrstuvwxyzABCDEFGHIJKLMNOPQRSTUVWXYZ0123456789"@[6] == 'g');
    assert("abcdefghijklmnopqrstuvwxyzABCDEFGHIJKLMNOPQRSTUVWXYZ0123456789"@[7] == 'h');
    assert("abcdefghijklmnopqrstuvwxyzABCDEFGHIJKLMNOPQRSTUVWXYZ0123456789"@[8] == 'i');
    assert("abcdefghijklmnopqrstuvwxyzABCDEFGHIJKLMNOPQRSTUVWXYZ0123456789"@[9] == 'j');
    assert("abcdefghijklmnopqrstuvwxyzABCDEFGHIJKLMNOPQRSTUVWXYZ0123456789"@[10] == 'k');
    assert("abcdefghijklmnopqrstuvwxyzABCDEFGHIJKLMNOPQRSTUVWXYZ0123456789"@[11] == 'l');
    assert("abcdefghijklmnopqrstuvwxyzABCDEFGHIJKLMNOPQRSTUVWXYZ0123456789"@[12] == 'm');
    assert("abcdefghijklmnopqrstuvwxyzABCDEFGHIJKLMNOPQRSTUVWXYZ0123456789"@[13] == 'n');
    assert("abcdefghijklmnopqrstuvwxyzABCDEFGHIJKLMNOPQRSTUVWXYZ0123456789"@[14] == 'o');
    assert("abcdefghijklmnopqrstuvwxyzABCDEFGHIJKLMNOPQRSTUVWXYZ0123456789"@[15] == 'p');
    assert("abcdefghijklmnopqrstuvwxyzABCDEFGHIJKLMNOPQRSTUVWXYZ0123456789"@[16] == 'q');
    assert("abcdefghijklmnopqrstuvwxyzABCDEFGHIJKLMNOPQRSTUVWXYZ0123456789"@[17] == 'r');
    assert("abcdefghijklmnopqrstuvwxyzABCDEFGHIJKLMNOPQRSTUVWXYZ0123456789"@[18] == 's');
    assert("abcdefghijklmnopqrstuvwxyzABCDEFGHIJKLMNOPQRSTUVWXYZ0123456789"@[19] == 't');
    assert("abcdefghijklmnopqrstuvwxyzABCDEFGHIJKLMNOPQRSTUVWXYZ0123456789"@[20] == 'u');
    assert("abcdefghijklmnopqrstuvwxyzABCDEFGHIJKLMNOPQRSTUVWXYZ0123456789"@[21] == 'v');
    assert("abcdefghijklmnopqrstuvwxyzABCDEFGHIJKLMNOPQRSTUVWXYZ0123456789"@[22] == 'w');
    assert("abcdefghijklmnopqrstuvwxyzABCDEFGHIJKLMNOPQRSTUVWXYZ0123456789"@[23] == 'x');
    assert("abcdefghijklmnopqrstuvwxyzABCDEFGHIJKLMNOPQRSTUVWXYZ0123456789"@[24] == 'y');
    assert("abcdefghijklmnopqrstuvwxyzABCDEFGHIJKLMNOPQRSTUVWXYZ0123456789"@[25] == 'z');
    assert("abcdefghijklmnopqrstuvwxyzABCDEFGHIJKLMNOPQRSTUVWXYZ0123456789"@[26] == 'A');
    assert("abcdefghijklmnopqrstuvwxyzABCDEFGHIJKLMNOPQRSTUVWXYZ0123456789"@[27] == 'B');
    assert("abcdefghijklmnopqrstuvwxyzABCDEFGHIJKLMNOPQRSTUVWXYZ0123456789"@[28] == 'C');
    assert("abcdefghijklmnopqrstuvwxyzABCDEFGHIJKLMNOPQRSTUVWXYZ0123456789"@[29] == 'D');
    assert("abcdefghijklmnopqrstuvwxyzABCDEFGHIJKLMNOPQRSTUVWXYZ0123456789"@[30] == 'E');
    assert("abcdefghijklmnopqrstuvwxyzABCDEFGHIJKLMNOPQRSTUVWXYZ0123456789"@[31] == 'F');
    assert("abcdefghijklmnopqrstuvwxyzABCDEFGHIJKLMNOPQRSTUVWXYZ0123456789"@[32] == 'G');
    assert("abcdefghijklmnopqrstuvwxyzABCDEFGHIJKLMNOPQRSTUVWXYZ0123456789"@[33] == 'H');
    assert("abcdefghijklmnopqrstuvwxyzABCDEFGHIJKLMNOPQRSTUVWXYZ0123456789"@[34] == 'I');
    assert("abcdefghijklmnopqrstuvwxyzABCDEFGHIJKLMNOPQRSTUVWXYZ0123456789"@[35] == 'J');
    assert("abcdefghijklmnopqrstuvwxyzABCDEFGHIJKLMNOPQRSTUVWXYZ0123456789"@[36] == 'K');
    assert("abcdefghijklmnopqrstuvwxyzABCDEFGHIJKLMNOPQRSTUVWXYZ0123456789"@[37] == 'L');
    assert("abcdefghijklmnopqrstuvwxyzABCDEFGHIJKLMNOPQRSTUVWXYZ0123456789"@[38] == 'M');
    assert("abcdefghijklmnopqrstuvwxyzABCDEFGHIJKLMNOPQRSTUVWXYZ0123456789"@[39] == 'N');
    assert("abcdefghijklmnopqrstuvwxyzABCDEFGHIJKLMNOPQRSTUVWXYZ0123456789"@[40] == 'O');
    assert("abcdefghijklmnopqrstuvwxyzABCDEFGHIJKLMNOPQRSTUVWXYZ0123456789"@[41] == 'P');
    assert("abcdefghijklmnopqrstuvwxyzABCDEFGHIJKLMNOPQRSTUVWXYZ0123456789"@[42] == 'Q');
    assert("abcdefghijklmnopqrstuvwxyzABCDEFGHIJKLMNOPQRSTUVWXYZ0123456789"@[43] == 'R');
    assert("abcdefghijklmnopqrstuvwxyzABCDEFGHIJKLMNOPQRSTUVWXYZ0123456789"@[44] == 'S');
    assert("abcdefghijklmnopqrstuvwxyzABCDEFGHIJKLMNOPQRSTUVWXYZ0123456789"@[45] == 'T');
    assert("abcdefghijklmnopqrstuvwxyzABCDEFGHIJKLMNOPQRSTUVWXYZ0123456789"@[46] == 'U');
    assert("abcdefghijklmnopqrstuvwxyzABCDEFGHIJKLMNOPQRSTUVWXYZ0123456789"@[47] == 'V');
    assert("abcdefghijklmnopqrstuvwxyzABCDEFGHIJKLMNOPQRSTUVWXYZ0123456789"@[48] == 'W');
    assert("abcdefghijklmnopqrstuvwxyzABCDEFGHIJKLMNOPQRSTUVWXYZ0123456789"@[49] == 'X');
    assert("abcdefghijklmnopqrstuvwxyzABCDEFGHIJKLMNOPQRSTUVWXYZ0123456789"@[50] == 'Y');
    assert("abcdefghijklmnopqrstuvwxyzABCDEFGHIJKLMNOPQRSTUVWXYZ0123456789"@[51] == 'Z');
    assert("abcdefghijklmnopqrstuvwxyzABCDEFGHIJKLMNOPQRSTUVWXYZ0123456789"@[52] == '0');
    assert("abcdefghijklmnopqrstuvwxyzABCDEFGHIJKLMNOPQRSTUVWXYZ0123456789"@[53] == '1');
    assert("abcdefghijklmnopqrstuvwxyzABCDEFGHIJKLMNOPQRSTUVWXYZ0123456789"@[54] == '2');
    assert("abcdefghijklmnopqrstuvwxyzABCDEFGHIJKLMNOPQRSTUVWXYZ0123456789"@[55] == '3');
    assert("abcdefghijklmnopqrstuvwxyzABCDEFGHIJKLMNOPQRSTUVWXYZ0123456789"@[56] == '4');
    assert("abcdefghijklmnopqrstuvwxyzABCDEFGHIJKLMNOPQRSTUVWXYZ0123456789"@[57] == '5');
    assert("abcdefghijklmnopqrstuvwxyzABCDEFGHIJKLMNOPQRSTUVWXYZ0123456789"@[58] == '6');
    assert("abcdefghijklmnopqrstuvwxyzABCDEFGHIJKLMNOPQRSTUVWXYZ0123456789"@[59] == '7');
    assert("abcdefghijklmnopqrstuvwxyzABCDEFGHIJKLMNOPQRSTUVWXYZ0123456789"@[60] == '8');
    assert("abcdefghijklmnopqrstuvwxyzABCDEFGHIJKLMNOPQRSTUVWXYZ0123456789"@[61] == '9');
}

/// Where the data files of a table go. With column mapping, below the table root under the prefix;
/// without it, to the directories of the partition columns, or to the table root itself.
pub proof fn law_directories_of_data_files(c: WriteContext, prefix: Seq<char>)
    ensures
        c.shared.column_mapping_mode == ColumnMappingMode::Id
            || c.shared.column_mapping_mode == ColumnMappingMode::Name ==> c.dir(prefix)
            == url_with_path(
            c.shared.table_root,
            url_path(c.shared.table_root) + prefix + "/"@,
        ),
        c.shared.column_mapping_mode == ColumnMappingMode::Disabled
            && c.shared.logical_partition_columns@.len() == 0 ==> c.dir(prefix)
            == c.shared.table_root,
        c.shared.column_mapping_mode == ColumnMappingMode::Disabled
            && c.shared.logical_partition_columns@.len() > 0 ==> c.dir(prefix) == url_with_path(
            c.shared.table_root,
            url_path(c.shared.table_root) + partition_path(c.partition()),
        ),
{
    assert(url_path(c.shared.table_root) + (prefix + "/"@) =~= url_path(c.shared.table_root)
        + prefix + "/"@);
}

/// The partition columns come in the order of the table's metadata, each with the value that the
/// context holds under its name; a column without a value there is null.
pub proof fn law_partition_values(c: WriteContext, i: int)
    requires
        0 <= i < c.shared.logical_partition_columns@.len(),
    ensures
        c.partition().len() == c.shared.logical_partition_columns@.len(),
        c.partition()[i].0 == c.shared.logical_partition_columns@[i]@,
        ({
            let name = c.shared.logical_partition_columns@[i]@;
            match c.partition()[i].1 {
                Some(v) => c.physical_partition_values@.contains_key(name)
                    && c.physical_partition_values@[name] is Some
                    && c.physical_partition_values@[name]->0@ == v,
                None => !c.physical_partition_values@.contains_key(name)
                    || c.physical_partition_values@[name] is None,
            }
        }),
{
}

/// A random directory has a name of two characters, each of which is a letter or a digit.
pub proof fn law_names_of_random_directories(s: Seq<char>)
    ensures
        is_prefix(s) <==> s.len() == 2 && forall|i: int|
            0 <= i < s.len() ==> 'a' <= #[trigger] s[i] <= 'z' || 'A' <= s[i] <= 'Z' || '0' <= s[i]
                <= '9',
{
    if s.len() == 2 && forall|i: int|
        0 <= i < s.len() ==> 'a' <= #[trigger] s[i] <= 'z' || 'A' <= s[i] <= 'Z' || '0' <= s[i]
            <= '9' {
        assert(is_alphanumeric(s[0]) && is_alphanumeric(s[1]));
    }
}

/// A deletion vector has its file in the directory of its prefix, or in the root of the table where
/// there is no prefix.
pub proof fn law_files_of_deletion_vectors(prefix: Seq<char>, id: u128)
    ensures
        deletion_vector_text(seq![], id) == "deletion_vector_"@ + uuid_text(id) + ".bin"@,
        prefix.len() > 0 ==> deletion_vector_text(prefix, id) == prefix + "/"@
            + deletion_vector_text(seq![], id),
{
    reveal_strlit("/");
    reveal_strlit("deletion_vector_");
    reveal_strlit("/deletion_vector_");
    assert("/deletion_vector_"@ =~= "/"@ + "deletion_vector_"@);
    assert(prefix + "/deletion_vector_"@ + uuid_text(id) + ".bin"@ =~= prefix + "/"@ + (
    "deletion_vector_"@ + uuid_text(id) + ".bin"@));
}

} // verus!
