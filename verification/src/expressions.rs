//! Expressions and predicates over the columns of a batch.
use std::sync::Arc;
use vstd::prelude::*;

use crate::column_name::ColumnName;
use crate::schema::types::DataType;
use crate::text::{owned, text_eq};

verus! {

/// A constant of an expression.
#[derive(Debug)]
pub enum Scalar {
    /// True or false.
    Boolean(bool),
    /// The null value of a type.
    Null(DataType),
}

/// An expression that is evaluated on each row of a batch.
#[derive(Debug)]
pub enum Expression {
    /// The same value for each row.
    Literal(Scalar),
    /// The value of a column.
    Column(ColumnName),
    /// A struct whose fields are given by expressions, in order.
    Struct(Vec<Expression>),
    /// The row itself with some of its fields replaced.
    Transform(Transform),
}

/// An expression that is shared.
pub type ExpressionRef = Arc<Expression>;

/// Replaces fields of a row and keeps the others as they are.
#[derive(Debug)]
pub struct Transform {
    /// The names of the fields that are replaced, each with what stands in its place.
    pub replacements: Vec<(String, ExpressionRef)>,
}

/// A condition that holds or does not hold of each row of a batch.
#[derive(Debug)]
pub enum Predicate {
    /// That the value of an expression is null.
    IsNull(Box<Expression>),
    /// That another condition does not hold.
    Not(Box<Predicate>),
    /// That at least one of some conditions holds.
    Or(Vec<Predicate>),
}

/// `Arc::clone` of std: another pointer to the same value.
#[verifier::external_body]
pub(crate) fn share<T>(a: &Arc<T>) -> (r: Arc<T>)
    ensures
        r == *a,
{
    Arc::clone(a)
}

impl Expression {
    /// A constant truth value.
    pub fn literal(value: bool) -> (r: Self)
        ensures
            r == Expression::Literal(Scalar::Boolean(value)),
    {
        Expression::Literal(Scalar::Boolean(value))
    }

    /// The null value of a type.
    pub fn null(data_type: DataType) -> (r: Self)
        ensures
            r == Expression::Literal(Scalar::Null(data_type)),
    {
        Expression::Literal(Scalar::Null(data_type))
    }

    /// A column of the top level.
    pub fn column(name: &str) -> (r: Self)
        ensures
            r matches Expression::Column(c) && c@ == seq![name@],
    {
        let c = ColumnName::simple(name);
        Expression::Column(c)
    }

    /// A struct of the given expressions.
    pub fn struct_from(fields: Vec<Expression>) -> (r: Self)
        ensures
            r == Expression::Struct(fields),
    {
        Expression::Struct(fields)
    }
}

impl Transform {
    /// A transform of the top level that replaces nothing.
    pub fn new_top_level() -> (r: Self)
        ensures
            r.replacements@.len() == 0,
    {
        Transform { replacements: Vec::new() }
    }

    /// Replaces one more field.
    pub fn with_replaced_field(self, name: &str, expr: ExpressionRef) -> (r: Self)
        ensures
            r.replacements@.len() == self.replacements@.len() + 1,
            r.replacements@.drop_last() == self.replacements@,
            r.replacements@.last().0@ == name@,
            r.replacements@.last().1 == expr,
    {
        let mut replacements = self.replacements;
        replacements.push((owned(name), expr));
        assert(replacements@.drop_last() =~= self.replacements@);
        Transform { replacements }
    }
}

impl Predicate {
    /// That the value of an expression is not null.
    pub fn is_not_null(e: Expression) -> (r: Self)
        ensures
            r == Predicate::Not(Box::new(Predicate::IsNull(Box::new(e)))),
    {
        Predicate::Not(Box::new(Predicate::IsNull(Box::new(e))))
    }

    /// That at least one of two conditions holds.
    pub fn or(a: Predicate, b: Predicate) -> (r: Self)
        ensures
            r matches Predicate::Or(list) && list@ == seq![a, b],
    {
        let mut list: Vec<Predicate> = Vec::new();
        list.push(a);
        list.push(b);
        assert(list@ =~= seq![a, b]);
        Predicate::Or(list)
    }

    /// That at least one of the given conditions holds.
    pub fn or_from(list: Vec<Predicate>) -> (r: Self)
        ensures
            r == Predicate::Or(list),
    {
        Predicate::Or(list)
    }
}

/// A value in a row: a handle by which the engine finds it again, or null.
pub type Cell = Option<u64>;

/// The first position of a name in a list of names.
pub open spec fn name_position(names: Seq<Seq<char>>, name: Seq<char>) -> Option<int>
    decreases names.len(),
{
    if names.len() == 0 {
        None
    } else {
        match name_position(names.drop_last(), name) {
            Some(i) => Some(i),
            None => if names.last() == name {
                Some(names.len() - 1)
            } else {
                None
            },
        }
    }
}

/// Whether an expression has a cell as its value on rows whose columns have the given names: it is
/// one of these columns, or the null of a type.
pub open spec fn is_cell(e: Expression, names: Seq<Seq<char>>) -> bool {
    match e {
        Expression::Column(c) => c@.len() == 1 && name_position(names, c@[0]) is Some,
        Expression::Literal(Scalar::Null(_)) => true,
        _ => false,
    }
}

/// The cell that is the value of an expression on a row whose columns have the given names. There is
/// one only where the expression is a column of the row or a null.
pub open spec fn cell_of(e: Expression, names: Seq<Seq<char>>, row: Seq<Cell>) -> Cell
    recommends
        is_cell(e, names),
{
    if !is_cell(e, names) {
        arbitrary()
    } else {
        match e {
            Expression::Column(c) => row[name_position(names, c@[0])->0],
            _ => None,
        }
    }
}

/// Whether an expression makes a row of cells of each row whose columns have the given names.
pub open spec fn makes_row(e: Expression, names: Seq<Seq<char>>) -> bool {
    match e {
        Expression::Struct(fields) => forall|i: int|
            0 <= i < fields@.len() ==> is_cell(#[trigger] fields@[i], names),
        Expression::Transform(t) => forall|i: int|
            0 <= i < t.replacements@.len() ==> is_cell(*(#[trigger] t.replacements@[i]).1, names),
        _ => false,
    }
}

/// Whether a condition asks only about cells of rows whose columns have the given names.
pub open spec fn asks_cells(p: Predicate, names: Seq<Seq<char>>) -> bool
    decreases p,
{
    match p {
        Predicate::IsNull(e) => is_cell(*e, names),
        Predicate::Not(q) => asks_cells(*q, names),
        Predicate::Or(list) => all_ask_cells(list@, names),
    }
}

/// Whether all of some conditions ask only about cells.
pub open spec fn all_ask_cells(list: Seq<Predicate>, names: Seq<Seq<char>>) -> bool
    decreases list,
{
    list.len() > 0 ==> all_ask_cells(list.drop_last(), names) && asks_cells(list.last(), names)
}

/// What stands in the place of a field: the last replacement of that name, if there is one.
pub open spec fn replacement(list: Seq<(String, ExpressionRef)>, name: Seq<char>) -> Option<
    ExpressionRef,
>
    decreases list.len(),
{
    if list.len() == 0 {
        None
    } else if list.last().0@ == name {
        Some(list.last().1)
    } else {
        replacement(list.drop_last(), name)
    }
}

/// The row that an expression makes of a row whose columns have the given names.
pub open spec fn row_of(e: Expression, names: Seq<Seq<char>>, row: Seq<Cell>) -> Seq<Cell>
    recommends
        makes_row(e, names),
{
    match e {
        Expression::Struct(fields) => Seq::new(
            fields@.len(),
            |i: int| cell_of(fields@[i], names, row),
        ),
        Expression::Transform(t) => Seq::new(
            row.len(),
            |i: int|
                match replacement(t.replacements@, names[i]) {
                    Some(e) => cell_of(*e, names, row),
                    None => row[i],
                },
        ),
        _ => arbitrary(),
    }
}

/// Whether a condition holds of a row whose columns have the given names.
pub open spec fn holds(p: Predicate, names: Seq<Seq<char>>, row: Seq<Cell>) -> bool
    recommends
        asks_cells(p, names),
    decreases p,
{
    match p {
        Predicate::IsNull(e) => cell_of(*e, names, row) is None,
        Predicate::Not(q) => !holds(*q, names, row),
        Predicate::Or(list) => any_holds(list@, names, row),
    }
}

/// Whether at least one of some conditions holds of a row.
pub open spec fn any_holds(list: Seq<Predicate>, names: Seq<Seq<char>>, row: Seq<Cell>) -> bool
    decreases list,
{
    if list.len() == 0 {
        false
    } else {
        any_holds(list.drop_last(), names, row) || holds(list.last(), names, row)
    }
}

/// A position is found exactly for a name that is in the list, and names it.
pub proof fn lemma_name_position(names: Seq<Seq<char>>, name: Seq<char>)
    ensures
        match name_position(names, name) {
            Some(i) => 0 <= i < names.len() && names[i] == name && forall|j: int|
                0 <= j < i ==> names[j] != name,
            None => forall|j: int| 0 <= j < names.len() ==> names[j] != name,
        },
    decreases names.len(),
{
    if names.len() > 0 {
        lemma_name_position(names.drop_last(), name);
        assert(forall|j: int| 0 <= j < names.len() - 1 ==> names.drop_last()[j] == names[j]);
    }
}

/// Some condition holds exactly when one at some position does.
pub proof fn lemma_any_holds(list: Seq<Predicate>, names: Seq<Seq<char>>, row: Seq<Cell>)
    ensures
        any_holds(list, names, row) == exists|i: int|
            0 <= i < list.len() && #[trigger] holds(list[i], names, row),
    decreases list.len(),
{
    if list.len() > 0 {
        let init = list.drop_last();
        lemma_any_holds(init, names, row);
        assert(any_holds(list, names, row) == (any_holds(init, names, row) || holds(
            list[list.len() - 1],
            names,
            row,
        )));
        if any_holds(init, names, row) {
            let i = choose|i: int| 0 <= i < init.len() && #[trigger] holds(init[i], names, row);
            assert(list[i] == init[i]);
        }
        if exists|i: int| 0 <= i < list.len() && #[trigger] holds(list[i], names, row) {
            let i = choose|i: int| 0 <= i < list.len() && #[trigger] holds(list[i], names, row);
            if i < init.len() {
                assert(init[i] == list[i]);
            }
        }
    }
}

/// Conditions that all ask only about cells do so each.
pub proof fn lemma_all_ask_cells(list: Seq<Predicate>, names: Seq<Seq<char>>)
    ensures
        all_ask_cells(list, names) == forall|i: int|
            0 <= i < list.len() ==> #[trigger] asks_cells(list[i], names),
    decreases list.len(),
{
    if list.len() > 0 {
        let init = list.drop_last();
        lemma_all_ask_cells(init, names);
        assert(asks_cells(list.last(), names) == asks_cells(list[list.len() - 1], names));
        if all_ask_cells(list, names) {
            assert forall|i: int| 0 <= i < list.len() implies #[trigger] asks_cells(
                list[i],
                names,
            ) by {
                if i < init.len() {
                    assert(init[i] == list[i]);
                }
            }
        }
        if forall|i: int| 0 <= i < list.len() ==> #[trigger] asks_cells(list[i], names) {
            assert forall|i: int| 0 <= i < init.len() implies #[trigger] asks_cells(
                init[i],
                names,
            ) by {
                assert(init[i] == list[i]);
            }
        }
    }
}

fn find_name(names: &Vec<String>, name: &str) -> (r: Option<usize>)
    ensures
        match r {
            Some(i) => name_position(crate::text::texts(names@), name@) == Some(i as int),
            None => name_position(crate::text::texts(names@), name@) is None,
        },
        match r {
            Some(i) => i < names@.len(),
            None => true,
        },
{
    let ghost all = crate::text::texts(names@);
    proof {
        lemma_name_position(all, name@);
    }
    let mut i: usize = 0;
    while i < names.len()
        invariant
            i <= names.len(),
            all == crate::text::texts(names@),
            forall|j: int| 0 <= j < i ==> all[j] != name@,
        decreases names.len() - i,
    {
        if text_eq(names[i].as_str(), name) {
            proof {
                lemma_name_position(all, name@);
                assert(all[i as int] == name@);
            }
            return Some(i);
        }
        i = i + 1;
    }
    None
}

impl Expression {
    /// The cell that is the value of the expression on a row.
    pub(crate) fn evaluate_cell(&self, names: &Vec<String>, row: &Vec<Cell>) -> (r: Cell)
        requires
            row@.len() == names@.len(),
            is_cell(*self, crate::text::texts(names@)),
        ensures
            r == cell_of(*self, crate::text::texts(names@), row@),
    {
        match self {
            Expression::Column(c) => {
                let path = c.path();
                match find_name(names, path[0].as_str()) {
                    Some(i) => row[i],
                    None => None,
                }
            },
            _ => None,
        }
    }

    /// The row that the expression makes of a row.
    pub(crate) fn evaluate(&self, names: &Vec<String>, row: &Vec<Cell>) -> (r: Vec<Cell>)
        requires
            row@.len() == names@.len(),
            makes_row(*self, crate::text::texts(names@)),
        ensures
            r@ == row_of(*self, crate::text::texts(names@), row@),
    {
        let ghost all = crate::text::texts(names@);
        let mut out: Vec<Cell> = Vec::new();
        match self {
            Expression::Struct(fields) => {
                let mut i: usize = 0;
                while i < fields.len()
                    invariant
                        i <= fields.len(),
                        forall|j: int| 0 <= j < fields@.len() ==> is_cell(#[trigger] fields@[j], all),
                        row@.len() == names@.len(),
                        all == crate::text::texts(names@),
                        out@.len() == i,
                        forall|j: int| 0 <= j < i ==> out@[j] == cell_of(fields@[j], all, row@),
                    decreases fields.len() - i,
                {
                    assert(is_cell(fields@[i as int], all));
                    out.push(fields[i].evaluate_cell(names, row));
                    i = i + 1;
                }
            },
            Expression::Transform(t) => {
                let mut i: usize = 0;
                while i < row.len()
                    invariant
                        i <= row.len(),
                        forall|j: int|
                            0 <= j < t.replacements@.len() ==> is_cell(
                                *(#[trigger] t.replacements@[j]).1,
                                all,
                            ),
                        row@.len() == names@.len(),
                        all == crate::text::texts(names@),
                        out@.len() == i,
                        forall|j: int|
                            0 <= j < i ==> out@[j] == (match replacement(t.replacements@, all[j]) {
                                Some(e) => cell_of(*e, all, row@),
                                None => row@[j],
                            }),
                    decreases row.len() - i,
                {
                    match t.find(names[i].as_str()) {
                        Some(e) => {
                            proof {
                                let k = choose|k: int|
                                    0 <= k < t.replacements@.len() && (
                                    #[trigger] t.replacements@[k]).1 == *e;
                                assert(is_cell(*t.replacements@[k].1, all));
                            }
                            out.push(e.evaluate_cell(names, row));
                        },
                        None => {
                            out.push(row[i]);
                        },
                    }
                    i = i + 1;
                }
            },
            _ => {},
        }
        assert(out@ =~= row_of(*self, all, row@));
        out
    }
}

impl Transform {
    /// What stands in the place of a field, if it is replaced.
    pub fn find(&self, name: &str) -> (r: Option<&ExpressionRef>)
        ensures
            match r {
                Some(e) => replacement(self.replacements@, name@) == Some(*e) && exists|i: int|
                    0 <= i < self.replacements@.len() && (#[trigger] self.replacements@[i]).1 == *e,
                None => replacement(self.replacements@, name@) is None,
            },
    {
        let ghost list = self.replacements@;
        let mut n: usize = self.replacements.len();
        assert(list.take(n as int) =~= list);
        while n > 0
            invariant
                n <= list.len(),
                list == self.replacements@,
                replacement(list, name@) == replacement(list.take(n as int), name@),
            decreases n,
        {
            n = n - 1;
            assert(list.take(n + 1).drop_last() =~= list.take(n as int));
            assert(list.take(n + 1).last() == list[n as int]);
            let entry = &self.replacements[n];
            if text_eq(entry.0.as_str(), name) {
                return Some(&entry.1);
            }
        }
        None
    }
}

impl Predicate {
    /// Whether the condition holds of a row.
    pub(crate) fn evaluate(&self, names: &Vec<String>, row: &Vec<Cell>) -> (r: bool)
        requires
            row@.len() == names@.len(),
            asks_cells(*self, crate::text::texts(names@)),
        ensures
            r == holds(*self, crate::text::texts(names@), row@),
        decreases self,
    {
        match self {
            Predicate::IsNull(e) => e.evaluate_cell(names, row).is_none(),
            Predicate::Not(q) => !q.evaluate(names, row),
            Predicate::Or(list) => {
                let mut i: usize = 0;
                while i < list.len()
                    invariant
                        i <= list.len(),
                        row@.len() == names@.len(),
                        *self == Predicate::Or(*list),
                        asks_cells(*self, crate::text::texts(names@)),
                        forall|j: int|
                            0 <= j < i ==> !#[trigger] holds(
                                list@[j],
                                crate::text::texts(names@),
                                row@,
                            ),
                    decreases list.len() - i,
                {
                    assert(decreases_to!(*self => self->Or_0));
                    assert(decreases_to!(self->Or_0 => self->Or_0@));
                    assert(decreases_to!(self->Or_0@ => self->Or_0@[i as int]));
                    proof {
                        lemma_all_ask_cells(list@, crate::text::texts(names@));
                        assert(asks_cells(list@[i as int], crate::text::texts(names@)));
                    }
                    if list[i].evaluate(names, row) {
                        proof {
                            lemma_any_holds(list@, crate::text::texts(names@), row@);
                        }
                        return true;
                    }
                    i = i + 1;
                }
                proof {
                    lemma_any_holds(list@, crate::text::texts(names@), row@);
                }
                false
            },
        }
    }
}

/// A column has the cell of the row that stands under its name, and a null literal has a null cell.
pub proof fn law_cells_of_expressions(e: Expression, names: Seq<Seq<char>>, row: Seq<Cell>)
    ensures
        e matches Expression::Column(c) && c@.len() == 1 ==> forall|i: int|
            0 <= i < names.len() && #[trigger] names[i] == e->Column_0@[0] && (forall|j: int|
                0 <= j < i ==> #[trigger] names[j] != e->Column_0@[0]) ==> is_cell(e, names)
                && cell_of(e, names, row) == row[i],
        e matches Expression::Column(c) && is_cell(e, names) ==> e->Column_0@.len() == 1
            && names.contains(e->Column_0@[0]),
        e matches Expression::Literal(Scalar::Null(_)) ==> is_cell(e, names) && cell_of(
            e,
            names,
            row,
        ) is None,
{
    if let Expression::Column(c) = e {
        if c@.len() == 1 {
            lemma_name_position(names, c@[0]);
        }
    }
}

/// A struct makes a row of the cells of its expressions, in order.
pub proof fn law_rows_of_structs(fields: Vec<Expression>, names: Seq<Seq<char>>, row: Seq<Cell>)
    ensures
        row_of(Expression::Struct(fields), names, row).len() == fields@.len(),
        forall|i: int|
            0 <= i < fields@.len() ==> #[trigger] row_of(Expression::Struct(fields), names, row)[i]
                == cell_of(fields@[i], names, row),
{
}

proof fn lemma_replacement(list: Seq<(String, ExpressionRef)>, name: Seq<char>)
    ensures
        match replacement(list, name) {
            Some(e) => exists|k: int|
                0 <= k < list.len() && (#[trigger] list[k]).0@ == name && list[k].1 == e && forall|
                    m: int,
                |
                    k < m < list.len() ==> (#[trigger] list[m]).0@ != name,
            None => forall|k: int| 0 <= k < list.len() ==> (#[trigger] list[k]).0@ != name,
        },
    decreases list.len(),
{
    if list.len() > 0 {
        let front = list.drop_last();
        assert(forall|j: int| 0 <= j < front.len() ==> front[j] == #[trigger] list[j]);
        if list.last().0@ == name {
            assert(list[list.len() - 1].0@ == name);
        } else {
            lemma_replacement(front, name);
            if let Some(e) = replacement(front, name) {
                let k = choose|k: int|
                    0 <= k < front.len() && (#[trigger] front[k]).0@ == name && front[k].1 == e
                        && forall|m: int| k < m < front.len() ==> (#[trigger] front[m]).0@ != name;
                assert(list[k].0@ == name);
                assert forall|m: int| k < m < list.len() implies (#[trigger] list[m]).0@
                    != name by {
                    if m < front.len() {
                        assert(front[m].0@ != name);
                    }
                }
            }
        }
    }
}

/// A transform changes the fields that it names, each to the last of what it names for it, and leaves
/// the others as they are.
pub proof fn law_rows_of_transforms(t: Transform, names: Seq<Seq<char>>, row: Seq<Cell>, i: int)
    requires
        0 <= i < row.len(),
    ensures
        ({
            let out = row_of(Expression::Transform(t), names, row);
            let list = t.replacements@;
            &&& out.len() == row.len()
            &&& (forall|k: int| 0 <= k < list.len() ==> (#[trigger] list[k]).0@ != names[i])
                ==> out[i] == row[i]
            &&& forall|k: int|
                0 <= k < list.len() && (#[trigger] list[k]).0@ == names[i] && (forall|m: int|
                    k < m < list.len() ==> (#[trigger] list[m]).0@ != names[i]) ==> out[i]
                    == cell_of(*list[k].1, names, row)
        }),
{
    let list = t.replacements@;
    lemma_replacement(list, names[i]);
    assert forall|k: int|
        0 <= k < list.len() && (#[trigger] list[k]).0@ == names[i] && (forall|m: int|
            k < m < list.len() ==> (#[trigger] list[m]).0@ != names[i]) implies row_of(
        Expression::Transform(t),
        names,
        row,
    )[i] == cell_of(*list[k].1, names, row) by {
        let e = replacement(list, names[i])->0;
        let at = choose|at: int|
            0 <= at < list.len() && (#[trigger] list[at]).0@ == names[i] && list[at].1 == e && forall|
                m: int,
            |
                at < m < list.len() ==> (#[trigger] list[m]).0@ != names[i];
        assert(at == k);
    }
}

/// What conditions hold of a row: that of a null value where the cell is null, a negation where the
/// other condition does not, and an alternative where one of the conditions does.
pub proof fn law_conditions_of_rows(
    e: Box<Expression>,
    q: Box<Predicate>,
    list: Vec<Predicate>,
    names: Seq<Seq<char>>,
    row: Seq<Cell>,
)
    ensures
        holds(Predicate::IsNull(e), names, row) <==> cell_of(*e, names, row) is None,
        holds(Predicate::Not(q), names, row) <==> !holds(*q, names, row),
        holds(Predicate::Or(list), names, row) <==> exists|i: int|
            0 <= i < list@.len() && holds(#[trigger] list@[i], names, row),
{
    lemma_any_holds(list@, names, row);
    assert forall|i: int|
        0 <= i < list@.len() && holds(#[trigger] list@[i], names, row) implies any_holds(
        list@,
        names,
        row,
    ) by {
        assert(holds(list@[i], names, row));
    }
}

} // verus!
