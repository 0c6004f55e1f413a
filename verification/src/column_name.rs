//! Names of (possibly nested) columns.
use vstd::prelude::*;

use crate::text::{chars_of, owned};

verus! {

/// A column name: the names of the fields that lead to the column, from the top level down.
#[derive(Debug)]
pub struct ColumnName {
    path: Vec<String>,
}

impl View for ColumnName {
    type V = Seq<Seq<char>>;

    closed spec fn view(&self) -> Seq<Seq<char>> {
        crate::text::texts(self.path@)
    }
}

/// Whether a character may stand in a column name without quoting.
pub open spec fn is_simple_char(c: char) -> bool {
    ||| 'a' <= c <= 'z'
    ||| 'A' <= c <= 'Z'
    ||| '0' <= c <= '9'
    ||| c == '_'
}

/// Whether a field name can be written without backticks: it is not empty, does not start with a
/// digit, and holds only letters and digits of ASCII and underscores.
pub open spec fn is_simple_part(part: Seq<char>) -> bool {
    &&& part.len() > 0
    &&& !('0' <= part[0] <= '9')
    &&& forall|i: int| 0 <= i < part.len() ==> is_simple_char(#[trigger] part[i])
}

/// Text with each backtick written twice.
pub open spec fn doubled_backticks(s: Seq<char>) -> Seq<char>
    decreases s.len(),
{
    if s.len() == 0 {
        seq![]
    } else if s.last() == '`' {
        doubled_backticks(s.drop_last()).push('`').push('`')
    } else {
        doubled_backticks(s.drop_last()).push(s.last())
    }
}

/// One field name as it stands in the text of a column name.
pub open spec fn part_text(part: Seq<char>) -> Seq<char> {
    if is_simple_part(part) {
        part
    } else {
        seq!['`'] + doubled_backticks(part) + seq!['`']
    }
}

/// The text of a column name: its parts, quoted where needed, with dots between them.
pub open spec fn column_text(path: Seq<Seq<char>>) -> Seq<char>
    decreases path.len(),
{
    if path.len() == 0 {
        seq![]
    } else if path.len() == 1 {
        part_text(path[0])
    } else {
        column_text(path.drop_last()).push('.') + part_text(path.last())
    }
}

fn simple_char(c: char) -> (r: bool)
    ensures
        r == is_simple_char(c),
{
    ('a' <= c && c <= 'z') || ('A' <= c && c <= 'Z') || ('0' <= c && c <= '9') || c == '_'
}

fn simple_part(part: &Vec<char>) -> (r: bool)
    ensures
        r == is_simple_part(part@),
{
    if part.len() == 0 || ('0' <= part[0] && part[0] <= '9') {
        return false;
    }
    let mut i: usize = 0;
    while i < part.len()
        invariant
            i <= part.len(),
            forall|j: int| 0 <= j < i ==> is_simple_char(#[trigger] part@[j]),
        decreases part.len() - i,
    {
        if !simple_char(part[i]) {
            return false;
        }
        i = i + 1;
    }
    true
}

fn push_part(text: &mut String, part: &str)
    ensures
        final(text)@ == old(text)@ + part_text(part@),
{
    let chars = chars_of(part);
    if simple_part(&chars) {
        text.push_str(part);
    } else {
        text.push('`');
        let mut i: usize = 0;
        while i < chars.len()
            invariant
                i <= chars.len(),
                text@ == old(text)@.push('`') + doubled_backticks(chars@.take(i as int)),
            decreases chars.len() - i,
        {
            assert(chars@.take(i + 1).drop_last() =~= chars@.take(i as int));
            text.push(chars[i]);
            if chars[i] == '`' {
                text.push('`');
            }
            assert(text@ =~= old(text)@.push('`') + doubled_backticks(chars@.take(i + 1)));
            i = i + 1;
        }
        assert(chars@.take(i as int) =~= part@);
        text.push('`');
        assert(text@ =~= old(text)@ + part_text(part@));
    }
}

/// The text of a column name that is given by its parts.
pub(crate) fn path_text(path: &Vec<String>) -> (r: String)
    ensures
        r@ == column_text(crate::text::texts(path@)),
{
    let ghost parts = crate::text::texts(path@);
    let mut r = String::new();
    let mut i: usize = 0;
    while i < path.len()
        invariant
            i <= path.len(),
            parts == crate::text::texts(path@),
            r@ == column_text(parts.take(i as int)),
        decreases path.len() - i,
    {
        assert(parts.take(i + 1).drop_last() =~= parts.take(i as int));
        if i > 0 {
            r.push('.');
        }
        push_part(&mut r, path[i].as_str());
        assert(r@ =~= column_text(parts.take(i + 1)));
        i = i + 1;
    }
    assert(parts.take(i as int) =~= parts);
    r
}

/// A copy of a list of strings.
pub(crate) fn clone_strings(list: &Vec<String>) -> (r: Vec<String>)
    ensures
        r@ == list@,
{
    let mut r: Vec<String> = Vec::new();
    let mut i: usize = 0;
    while i < list.len()
        invariant
            i <= list.len(),
            r@ == list@.take(i as int),
        decreases list.len() - i,
    {
        r.push(list[i].clone());
        assert(r@ =~= list@.take(i + 1));
        i = i + 1;
    }
    assert(r@ =~= list@);
    r
}

impl ColumnName {
    /// The column at the end of the given path of field names.
    pub fn new(path: Vec<String>) -> (r: Self)
        ensures
            r@ == crate::text::texts(path@),
    {
        ColumnName { path }
    }

    /// The column of one name at the top level.
    pub fn simple(name: &str) -> (r: Self)
        ensures
            r@ == seq![name@],
    {
        let mut path: Vec<String> = Vec::new();
        path.push(owned(name));
        let r = ColumnName { path };
        assert(r@ =~= seq![name@]);
        r
    }

    /// The names of the fields that lead to the column.
    pub fn path(&self) -> (r: &Vec<String>)
        ensures
            crate::text::texts(r@) == self@,
    {
        &self.path
    }

    /// The column name as text, with backticks around a part that needs them.
    pub fn text(&self) -> (r: String)
        ensures
            r@ == column_text(self@),
    {
        path_text(&self.path)
    }
}

impl Clone for ColumnName {
    fn clone(&self) -> (r: Self)
        ensures
            r@ == self@,
    {
        ColumnName { path: clone_strings(&self.path) }
    }
}

impl PartialEq for ColumnName {
    fn eq(&self, other: &Self) -> (r: bool) {
        let n: usize = self.path.len();
        if n != other.path.len() {
            assert(self@.len() != other@.len());
            return false;
        }
        let mut i: usize = 0;
        while i < n
            invariant
                i <= n,
                n == self.path@.len(),
                n == other.path@.len(),
                forall|j: int| 0 <= j < i ==> self@[j] == #[trigger] other@[j],
            decreases n - i,
        {
            if self.path[i] != other.path[i] {
                assert(self@[i as int] != other@[i as int]);
                return false;
            }
            i = i + 1;
        }
        assert(self@ =~= other@);
        true
    }
}

impl vstd::std_specs::cmp::PartialEqSpecImpl for ColumnName {
    open spec fn obeys_eq_spec() -> bool {
        true
    }

    open spec fn eq_spec(&self, other: &Self) -> bool {
        self@ == other@
    }
}

impl Eq for ColumnName {

}

/// The text of a column name is that of its parts, with dots between them. A part is quoted in
/// backticks unless it is a plain name, and backticks in it are written twice.
pub proof fn law_text_of_column_names(path: Seq<Seq<char>>, part: Seq<char>, a: Seq<char>, b: Seq<char>)
    ensures
        column_text(seq![part]) == part_text(part),
        path.len() > 0 ==> column_text(path + seq![part]) == column_text(path) + seq!['.']
            + part_text(part),
        is_simple_part(part) ==> part_text(part) == part,
        !is_simple_part(part) ==> part_text(part) == seq!['`'] + doubled_backticks(part) + seq!['`'],
        doubled_backticks(a + b) == doubled_backticks(a) + doubled_backticks(b),
        doubled_backticks(seq!['`']) == seq!['`', '`'],
        forall|c: char| c != '`' ==> #[trigger] doubled_backticks(seq![c]) == seq![c],
    decreases b.len(),
{
    assert((path + seq![part]).drop_last() =~= path);
    assert((path + seq![part]).last() == part);
    if path.len() > 0 {
        assert(column_text(path + seq![part]) =~= column_text(path) + seq!['.'] + part_text(part));
    }
    assert forall|c: char| c != '`' implies #[trigger] doubled_backticks(seq![c]) == seq![c] by {
        assert(seq![c].drop_last() =~= seq![]);
        assert(doubled_backticks(seq![c].drop_last()) =~= seq![]);
        assert(doubled_backticks(seq![c]) =~= seq![c]);
    }
    assert(seq!['`'].drop_last() =~= seq![]);
    assert(doubled_backticks(seq!['`'].drop_last()) =~= seq![]);
    assert(doubled_backticks(seq!['`']) =~= seq!['`', '`']);
    if b.len() == 0 {
        assert(a + b =~= a);
        assert(doubled_backticks(a) + doubled_backticks(b) =~= doubled_backticks(a));
    } else {
        assert((a + b).drop_last() =~= a + b.drop_last());
        assert((a + b).last() == b.last());
        law_text_of_column_names(path, part, a, b.drop_last());
        assert(doubled_backticks(a + b) =~= doubled_backticks(a) + doubled_backticks(b));
    }
}

/// A plain name begins with a letter or an underscore, and goes on with letters, digits and
/// underscores.
pub proof fn law_plain_names(part: Seq<char>)
    ensures
        is_simple_part(part) <==> part.len() > 0 && !('0' <= part[0] <= '9') && forall|i: int|
            0 <= i < part.len() ==> 'a' <= #[trigger] part[i] <= 'z' || 'A' <= part[i] <= 'Z' || '0'
                <= part[i] <= '9' || part[i] == '_',
{
    if is_simple_part(part) {
        assert forall|i: int| 0 <= i < part.len() implies 'a' <= #[trigger] part[i] <= 'z' || 'A'
            <= part[i] <= 'Z' || '0' <= part[i] <= '9' || part[i] == '_' by {
            assert(is_simple_char(part[i]));
        }
    }
}

} // verus!
