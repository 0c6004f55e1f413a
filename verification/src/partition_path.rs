//! Hive-style partition directories: `name=value/` for each partition column.
use vstd::prelude::*;

use crate::text::chars_of;

verus! {

/// The directory value that stands for a null partition value.
pub const HIVE_DEFAULT_PARTITION: &'static str = "__HIVE_DEFAULT_PARTITION__";

/// Whether Hive escapes a character in a partition directory: control characters (but not NUL), the
/// space, and those that
/// have a meaning in paths or patterns.
pub open spec fn is_escaped(c: char) -> bool {
    ||| '\u{1}' <= c <= ' '
    ||| c == '\u{7f}'
    ||| c == '"'
    ||| c == '#'
    ||| c == '%'
    ||| c == '\''
    ||| c == '*'
    ||| c == '/'
    ||| c == ':'
    ||| c == '='
    ||| c == '?'
    ||| c == '\\'
    ||| c == '{'
    ||| c == '['
    ||| c == ']'
    ||| c == '^'
}

/// The capital hexadecimal digit that stands for `d`.
pub open spec fn upper_hex_char(d: nat) -> char {
    if d < 10 {
        (48 + d) as char
    } else {
        (55 + d) as char
    }
}

/// One character in a partition directory: itself, or a percent sign and the two hexadecimal
/// digits of its code.
pub open spec fn escaped_char(c: char) -> Seq<char> {
    if is_escaped(c) {
        seq!['%', upper_hex_char(c as nat / 16), upper_hex_char(c as nat % 16)]
    } else {
        seq![c]
    }
}

/// A name or value with the characters that Hive escapes written as percent codes.
pub open spec fn escaped(s: Seq<char>) -> Seq<char>
    decreases s.len(),
{
    if s.len() == 0 {
        seq![]
    } else {
        escaped(s.drop_last()) + escaped_char(s.last())
    }
}

/// The text of a partition value in a directory name.
pub open spec fn value_text(value: Option<Seq<char>>) -> Seq<char> {
    match value {
        Some(v) => if v.len() == 0 {
            HIVE_DEFAULT_PARTITION@
        } else {
            escaped(v)
        },
        None => HIVE_DEFAULT_PARTITION@,
    }
}

/// The directories of a list of partition columns and their values, each ended by a slash.
pub open spec fn partition_path(columns: Seq<(Seq<char>, Option<Seq<char>>)>) -> Seq<char>
    decreases columns.len(),
{
    if columns.len() == 0 {
        seq![]
    } else {
        partition_path(columns.drop_last()) + escaped(columns.last().0) + "="@ + value_text(
            columns.last().1,
        ) + "/"@
    }
}

/// The columns and values as texts.
pub open spec fn column_values(columns: Seq<(&str, Option<&str>)>) -> Seq<
    (Seq<char>, Option<Seq<char>>),
> {
    Seq::new(
        columns.len(),
        |i: int|
            (
                columns[i].0@,
                match columns[i].1 {
                    Some(v) => Some(v@),
                    None => None,
                },
            ),
    )
}

fn escapes(c: char) -> (r: bool)
    ensures
        r == is_escaped(c),
{
    ('\u{1}' <= c && c <= ' ') || c == '\u{7f}' || c == '"' || c == '#' || c == '%' || c == '\'' || c == '*' || c
        == '/' || c == ':' || c == '=' || c == '?' || c == '\\' || c == '{' || c == '[' || c == ']'
        || c == '^'
}

fn push_hex_digit(text: &mut String, d: u8)
    requires
        d < 16,
    ensures
        final(text)@ == old(text)@.push(upper_hex_char(d as nat)),
{
    if d < 10 {
        text.push((48 + d) as char);
    } else {
        text.push((55 + d) as char);
    }
}

fn push_escaped(text: &mut String, s: &str)
    ensures
        final(text)@ == old(text)@ + escaped(s@),
{
    let chars = chars_of(s);
    let mut i: usize = 0;
    assert(old(text)@ + escaped(chars@.take(0)) =~= old(text)@);
    while i < chars.len()
        invariant
            i <= chars.len(),
            text@ == old(text)@ + escaped(chars@.take(i as int)),
        decreases chars.len() - i,
    {
        let c = chars[i];
        assert(chars@.take(i + 1).drop_last() =~= chars@.take(i as int));
        assert(chars@.take(i + 1).last() == c);
        if escapes(c) {
            let code: u32 = c as u32;
            text.push('%');
            push_hex_digit(text, (code / 16) as u8);
            push_hex_digit(text, (code % 16) as u8);
        } else {
            text.push(c);
        }
        assert(text@ =~= old(text)@ + escaped(chars@.take(i + 1)));
        i = i + 1;
    }
    assert(chars@.take(i as int) =~= s@);
}

/// Builds the Hive-style partition path of the given columns, in their order: `name=value/` for
/// each, with a null or empty value written as [`HIVE_DEFAULT_PARTITION`].
pub fn build_partition_path(columns: &Vec<(&str, Option<&str>)>) -> (r: String)
    ensures
        r@ == partition_path(column_values(columns@)),
{
    let mut text = String::new();
    let mut i: usize = 0;
    while i < columns.len()
        invariant
            i <= columns.len(),
            text@ == partition_path(column_values(columns@).take(i as int)),
        decreases columns.len() - i,
    {
        let ghost done = column_values(columns@).take(i as int);
        let ghost more = column_values(columns@).take(i + 1);
        assert(more.drop_last() =~= done);
        let column = &columns[i];
        push_escaped(&mut text, column.0);
        text.push_str("=");
        match column.1 {
            Some(v) => {
                if v.unicode_len() == 0 {
                    text.push_str(HIVE_DEFAULT_PARTITION);
                } else {
                    push_escaped(&mut text, v);
                }
            },
            None => {
                text.push_str(HIVE_DEFAULT_PARTITION);
            },
        }
        text.push_str("/");
        assert(text@ =~= partition_path(more));
        i = i + 1;
    }
    assert(column_values(columns@).take(i as int) =~= column_values(columns@));
    text
}

/// No directory name breaks out of its level: an escaped name or value holds no slash, and no
/// equals sign.
pub proof fn law_escaped_stays_in_one_directory(s: Seq<char>)
    ensures
        !escaped(s).contains('/'),
        !escaped(s).contains('='),
    decreases s.len(),
{
    if s.len() > 0 {
        law_escaped_stays_in_one_directory(s.drop_last());
        let c = s.last();
        if is_escaped(c) {
            assert(c as nat / 16 < 16);
        }
        assert(forall|i: int| 0 <= i < escaped_char(c).len() ==> escaped_char(c)[i] != '/' && escaped_char(c)[i] != '=');
        let head = escaped(s.drop_last());
        assert forall|i: int| 0 <= i < escaped(s).len() implies escaped(s)[i] != '/' && escaped(s)[i] != '=' by {
            if i < head.len() {
                assert(head.contains(head[i]));
            }
        }
    }
}

/// The value of a capital hexadecimal digit.
pub open spec fn hex_value(c: char) -> int {
    if '0' <= c <= '9' {
        c as int - '0' as int
    } else {
        c as int - 'A' as int + 10
    }
}

/// The characters that are escaped, one by one; each becomes a percent sign and two capital
/// hexadecimal digits that give its code. All others stand for themselves.
pub proof fn law_escaped_characters(c: char)
    ensures
        is_escaped(c) <==> ('\u{1}' <= c <= '\u{1f}') || c == ' ' || c == '"' || c == '#' || c == '%'
            || c == '\'' || c == '*' || c == '/' || c == ':' || c == '=' || c == '?' || c == '['
            || c == '\\' || c == ']' || c == '^' || c == '{' || c == '\u{7f}',
        !is_escaped(c) ==> escaped(seq![c]) == seq![c],
        is_escaped(c) ==> {
            let e = escaped(seq![c]);
            &&& e.len() == 3
            &&& e[0] == '%'
            &&& ('0' <= e[1] <= '9' || 'A' <= e[1] <= 'F')
            &&& ('0' <= e[2] <= '9' || 'A' <= e[2] <= 'F')
            &&& 16 * hex_value(e[1]) + hex_value(e[2]) == c as int
        },
{
    assert(seq![c].drop_last() =~= seq![]);
    assert(seq![c].last() == c);
    assert(escaped(seq![c].drop_last()) =~= seq![]);
    assert(escaped(seq![c]) =~= escaped_char(c));
    if is_escaped(c) {
        assert(c as nat / 16 < 8);
    }
}

/// Escaping goes character by character.
pub proof fn law_escaping_goes_character_by_character(a: Seq<char>, b: Seq<char>)
    ensures
        escaped(a + b) == escaped(a) + escaped(b),
        escaped(Seq::<char>::empty()) == Seq::<char>::empty(),
    decreases b.len(),
{
    if b.len() == 0 {
        assert(a + b =~= a);
        assert(escaped(a) + escaped(b) =~= escaped(a));
    } else {
        assert((a + b).drop_last() =~= a + b.drop_last());
        assert((a + b).last() == b.last());
        law_escaping_goes_character_by_character(a, b.drop_last());
        assert(escaped(a + b) =~= escaped(a) + escaped(b));
    }
}

/// The directories of partition columns follow each other in the order of the columns. Each is the
/// name and the value, both escaped, with an equals sign between them and a slash behind; a null and
/// an empty value have a name of their own.
pub proof fn law_directories_of_partition_columns(
    a: Seq<(Seq<char>, Option<Seq<char>>)>,
    b: Seq<(Seq<char>, Option<Seq<char>>)>,
    name: Seq<char>,
    value: Seq<char>,
)
    ensures
        partition_path(Seq::empty()) == Seq::<char>::empty(),
        partition_path(a + b) == partition_path(a) + partition_path(b),
        value.len() > 0 ==> partition_path(seq![(name, Some(value))]) == escaped(name) + "="@
            + escaped(value) + "/"@,
        value.len() == 0 ==> partition_path(seq![(name, Some(value))]) == partition_path(
            seq![(name, None)],
        ),
        partition_path(seq![(name, None)]) == escaped(name) + "="@
            + "__HIVE_DEFAULT_PARTITION__"@ + "/"@,
    decreases b.len(),
{
    let some = seq![(name, Some(value))];
    let none = seq![(name, None::<Seq<char>>)];
    assert(some.drop_last() =~= seq![]);
    assert(none.drop_last() =~= seq![]);
    assert(partition_path(some.drop_last()) =~= seq![]);
    assert(partition_path(none.drop_last()) =~= seq![]);
    assert(partition_path(none) =~= escaped(name) + "="@ + "__HIVE_DEFAULT_PARTITION__"@ + "/"@);
    if value.len() > 0 {
        assert(partition_path(some) =~= escaped(name) + "="@ + escaped(value) + "/"@);
    }
    if b.len() == 0 {
        assert(a + b =~= a);
        assert(partition_path(a) + partition_path(b) =~= partition_path(a));
    } else {
        assert((a + b).drop_last() =~= a + b.drop_last());
        assert((a + b).last() == b.last());
        law_directories_of_partition_columns(a, b.drop_last(), name, value);
        assert(partition_path(a + b) =~= partition_path(a) + partition_path(b));
    }
}

} // verus!
