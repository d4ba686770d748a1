//! Arguments, results and errors of functions that are evaluated row by row.

use vstd::prelude::*;

verus! {

/// A single value, with numbers of type `T`.
pub enum Scalar<T> {
    Number(T),
    Tuple(Vec<Scalar<T>>),
    Array(Column<T>),
    /// A value of a type that no function here looks into.
    Other,
}

/// The values of one argument for all rows, with numbers of type `T`.
pub enum Column<T> {
    Number(Vec<T>),
    /// One column for each field.
    Tuple { fields: Vec<Column<T>>, len: usize },
    /// One array for each row.
    Array(Vec<Column<T>>),
    /// Values of a type that no function here looks into.
    Other { len: usize },
}

impl<T> Column<T> {
    /// How many rows the column has.
    pub open spec fn rows(self) -> nat {
        match self {
            Column::Number(values) => values@.len(),
            Column::Tuple { fields, len } => len as nat,
            Column::Array(arrays) => arrays@.len(),
            Column::Other { len } => len as nat,
        }
    }

    /// How many rows the column has.
    pub fn len(&self) -> (n: usize)
        ensures
            n == self.rows(),
    {
        match self {
            Column::Number(values) => values.len(),
            Column::Tuple { fields, len } => *len,
            Column::Array(arrays) => arrays.len(),
            Column::Other { len } => *len,
        }
    }
}

/// An argument: one value for all rows, or one for each.
pub enum ValueRef<T> {
    Scalar(Scalar<T>),
    Column(Column<T>),
}

/// A result: one value for all rows, or one for each.
#[derive(Debug)]
pub enum Value {
    Scalar(u8),
    Column(Vec<u8>),
}

impl Value {
    /// The result, row by row.
    pub open spec fn rows(self) -> Seq<u8> {
        match self {
            Value::Scalar(v) => seq![v],
            Value::Column(values) => values@,
        }
    }
}

/// How many rows the first column among the arguments has, if there is a column.
pub open spec fn column_rows<T>(args: Seq<ValueRef<T>>) -> Option<nat>
    decreases args.len(),
{
    if args.len() == 0 {
        None
    } else {
        match args[0] {
            ValueRef::Column(column) => Some(column.rows()),
            ValueRef::Scalar(_) => column_rows(args.drop_first()),
        }
    }
}

/// How many rows are evaluated: those of the first column, or one where there is no
/// column.
pub open spec fn input_rows<T>(args: Seq<ValueRef<T>>) -> nat {
    match column_rows(args) {
        Some(n) => n,
        None => 1,
    }
}

/// Arguments that are no columns do not decide how many rows there are.
pub proof fn law_scalars_have_no_rows<T>(args: Seq<ValueRef<T>>, scalars: Seq<ValueRef<T>>)
    requires
        forall|k: int| 0 <= k < scalars.len() ==> #[trigger] scalars[k] is Scalar,
    ensures
        column_rows(args + scalars) == column_rows(args),
    decreases args.len() + scalars.len(),
{
    let all = args + scalars;
    if args.len() > 0 {
        assert(all.drop_first() =~= args.drop_first() + scalars);
        law_scalars_have_no_rows(args.drop_first(), scalars);
    } else if scalars.len() > 0 {
        assert(all[0] == scalars[0]);
        assert(all.drop_first() =~= args + scalars.drop_first());
        law_scalars_have_no_rows(args, scalars.drop_first());
    }
}

/// How many rows the first column among the arguments has.
pub fn find_column_len<T>(args: &[ValueRef<T>]) -> (r: Option<usize>)
    ensures
        match r {
            Some(n) => column_rows(args@) == Some(n as nat),
            None => column_rows(args@) is None,
        },
{
    assert(args@.skip(0) =~= args@);
    for k in 0..args.len()
        invariant
            column_rows(args@) == column_rows(args@.skip(k as int)),
    {
        assert(args@.skip(k as int)[0] == args@[k as int]);
        assert(args@.skip(k as int).drop_first() =~= args@.skip(k + 1));
        match &args[k] {
            ValueRef::Column(column) => {
                return Some(column.len());
            },
            ValueRef::Scalar(_) => {},
        }
    }
    None
}

/// The result of an evaluation: a column where an argument was one, else a scalar.
pub open spec fn has_shape<T>(args: Seq<ValueRef<T>>, value: Value) -> bool {
    &&& value is Column <==> column_rows(args) is Some
    &&& value.rows().len() == input_rows(args)
}

/// Gives the rows the shape that the arguments ask for.
pub fn shape<T>(args: &[ValueRef<T>], len: Option<usize>, rows: Vec<u8>) -> (value: Value)
    requires
        match len {
            Some(n) => column_rows(args@) == Some(n as nat),
            None => column_rows(args@) is None,
        },
        rows@.len() == input_rows(args@),
    ensures
        value.rows() == rows@,
        has_shape(args@, value),
{
    match len {
        Some(_) => Value::Column(rows),
        None => {
            assert(seq![rows@[0]] =~= rows@);
            Value::Scalar(rows[0])
        },
    }
}

/// The errors of an evaluation: the row and the message of each.
#[derive(Debug)]
pub struct EvalContext {
    pub errors: Vec<(usize, String)>,
}

impl View for EvalContext {
    type V = Seq<(int, Seq<char>)>;

    open spec fn view(&self) -> Seq<(int, Seq<char>)> {
        self.errors@.map_values(|e: (usize, String)| (e.0 as int, e.1@))
    }
}

impl EvalContext {
    /// A context without errors.
    pub fn new() -> (ctx: EvalContext)
        ensures
            ctx@ == Seq::<(int, Seq<char>)>::empty(),
    {
        let ctx = EvalContext { errors: Vec::new() };
        assert(ctx@ =~= Seq::<(int, Seq<char>)>::empty());
        ctx
    }

    /// Reports that `row` failed.
    pub fn set_error(&mut self, row: usize, message: String)
        ensures
            final(self)@ == old(self)@.push((row as int, message@)),
    {
        self.errors.push((row, message));
        assert(self@ =~= old(self)@.push((row as int, message@)));
    }
}

/// How many rows a column has, by what it is made of.
pub open spec fn height<T>(column: Column<T>) -> nat {
    match column {
        Column::Number(values) => values@.len(),
        Column::Tuple { fields, len } => len as nat,
        Column::Array(arrays) => arrays@.len(),
        Column::Other { len } => len as nat,
    }
}

/// A column tells its height.
pub proof fn law_column_tells_its_height<T>(column: Column<T>, n: usize)
    requires
        call_ensures(Column::<T>::len, (&column,), n),
    ensures
        n == height(column),
{
}

/// Scalars before other arguments do not decide how many rows there are.
pub proof fn law_scalars_before_have_no_rows<T>(
    scalars: Seq<ValueRef<T>>,
    args: Seq<ValueRef<T>>,
)
    requires
        forall|k: int| 0 <= k < scalars.len() ==> #[trigger] scalars[k] is Scalar,
    ensures
        column_rows(scalars + args) == column_rows(args),
    decreases scalars.len(),
{
    let all = scalars + args;
    if scalars.len() > 0 {
        assert(all[0] == scalars[0]);
        assert(all.drop_first() =~= scalars.drop_first() + args);
        law_scalars_before_have_no_rows(scalars.drop_first(), args);
    } else {
        assert(all =~= args);
    }
}

/// The first column among the arguments tells how many rows there are.
pub proof fn law_first_column_tells_the_rows<T>(args: &[ValueRef<T>], k: int, r: Option<usize>)
    requires
        call_ensures(find_column_len::<T>, (args,), r),
        0 <= k < args@.len(),
        forall|j: int| 0 <= j < k ==> #[trigger] args@[j] is Scalar,
        args@[k] is Column,
    ensures
        r is Some,
        r->Some_0 == height(args@[k]->Column_0),
{
    lemma_first_column(args@, k);
}

/// The rows of the arguments are those of their first column.
pub proof fn lemma_first_column<T>(args: Seq<ValueRef<T>>, k: int)
    requires
        0 <= k < args.len(),
        forall|j: int| 0 <= j < k ==> #[trigger] args[j] is Scalar,
        args[k] is Column,
    ensures
        column_rows(args) == Some(height(args[k]->Column_0)),
{
    law_scalars_before_have_no_rows(args.take(k), args.skip(k));
    assert(args.take(k) + args.skip(k) =~= args);
    assert(args.skip(k)[0] == args[k]);
}

/// Without a column among the arguments there is no number of rows.
pub proof fn law_no_column_tells_no_rows<T>(args: &[ValueRef<T>], r: Option<usize>)
    requires
        call_ensures(find_column_len::<T>, (args,), r),
        forall|j: int| 0 <= j < args@.len() ==> #[trigger] args@[j] is Scalar,
    ensures
        r is None,
{
    law_scalars_before_have_no_rows(args@, Seq::empty());
    assert(args@ + Seq::<ValueRef<T>>::empty() =~= args@);
}

/// A result of the right shape is a scalar where no argument is a column, and has the
/// height of the first column where one is.
pub proof fn law_shape_is_that_of_the_arguments<T>(args: Seq<ValueRef<T>>, k: int, value: Value)
    requires
        has_shape(args, value),
        0 <= k <= args.len(),
        forall|j: int| 0 <= j < k ==> #[trigger] args[j] is Scalar,
        k < args.len() ==> args[k] is Column,
    ensures
        k == args.len() ==> value is Scalar,
        k < args.len() ==> (value matches Value::Column(values) && values@.len() == height(
            args[k]->Column_0,
        )),
{
    if k < args.len() {
        lemma_first_column(args, k);
    } else {
        law_scalars_before_have_no_rows(args, Seq::empty());
        assert(args + Seq::<ValueRef<T>>::empty() =~= args);
    }
}

/// The errors of `after` are those of `before`: the same rows with the same messages.
pub open spec fn are_same_errors(before: EvalContext, after: EvalContext) -> bool {
    &&& after.errors@.len() == before.errors@.len()
    &&& forall|i: int|
        0 <= i < before.errors@.len() ==> (#[trigger] after.errors@[i]).0 == before.errors@[i].0
            && after.errors@[i].1@ == before.errors@[i].1@
}

/// The errors of `after` are those of `before` and one more, of the given row with the
/// given message.
pub open spec fn is_one_more_error(
    before: EvalContext,
    after: EvalContext,
    row: int,
    message: Seq<char>,
) -> bool {
    &&& after.errors@.len() == before.errors@.len() + 1
    &&& forall|i: int|
        0 <= i < before.errors@.len() ==> (#[trigger] after.errors@[i]).0 == before.errors@[i].0
            && after.errors@[i].1@ == before.errors@[i].1@
    &&& after.errors@.last().0 == row
    &&& after.errors@.last().1@ == message
}

/// Equal views have the same errors, and a view with one error more has one error more.
pub proof fn law_view_shows_the_errors(
    before: EvalContext,
    after: EvalContext,
    row: int,
    message: Seq<char>,
)
    ensures
        after@ == before@ ==> are_same_errors(before, after),
        after@ == before@.push((row, message)) ==> is_one_more_error(before, after, row, message),
{
    if after@ == before@ {
        assert(after@.len() == before@.len());
        assert forall|i: int| 0 <= i < before.errors@.len() implies (
        #[trigger] after.errors@[i]).0 == before.errors@[i].0 && after.errors@[i].1@
            == before.errors@[i].1@ by {
            assert(after@[i] == before@[i]);
        }
    }
    if after@ == before@.push((row, message)) {
        assert(after@.len() == before@.len() + 1);
        assert forall|i: int| 0 <= i < before.errors@.len() implies (
        #[trigger] after.errors@[i]).0 == before.errors@[i].0 && after.errors@[i].1@
            == before.errors@[i].1@ by {
            assert(after@[i] == before@[i]);
        }
        assert(after@[before@.len() as int] == (row, message));
    }
}

/// Reporting an error adds it behind the others.
pub proof fn law_reported_error_comes_last(ctx: &mut EvalContext, row: usize, message: String)
    requires
        call_ensures(EvalContext::set_error, (ctx, row, message), ()),
    ensures
        is_one_more_error(*old(ctx), *final(ctx), row as int, message@),
{
    law_view_shows_the_errors(*ctx, *final(ctx), row as int, message@);
}

/// A new context has no errors.
pub proof fn law_new_context_is_empty(ctx: EvalContext)
    requires
        call_ensures(EvalContext::new, (), ctx),
    ensures
        ctx.errors@.len() == 0,
{
    assert(ctx@.len() == ctx.errors@.len());
}

/// How many values a result has.
pub open spec fn value_count(value: Value) -> nat {
    match value {
        Value::Scalar(_) => 1,
        Value::Column(values) => values@.len(),
    }
}

/// The value that a result has in a row.
pub open spec fn value_at(value: Value, row: int) -> u8 {
    match value {
        Value::Scalar(v) => v,
        Value::Column(values) => values@[row],
    }
}

/// The rows of a result are its values.
pub proof fn law_rows_are_the_values(value: Value, row: int)
    requires
        0 <= row < value_count(value),
    ensures
        value.rows().len() == value_count(value),
        value.rows()[row] == value_at(value, row),
{
}

/// The result has the values that it is made of: as a column where there is a number of
/// rows, and else the only one as a scalar.
pub proof fn law_result_has_its_values<T>(
    args: &[ValueRef<T>],
    len: Option<usize>,
    rows: Vec<u8>,
    value: Value,
)
    requires
        call_ensures(shape::<T>, (args, len, rows), value),
        match len {
            Some(n) => column_rows(args@) == Some(n as nat),
            None => column_rows(args@) is None,
        },
        rows@.len() == input_rows(args@),
    ensures
        len is Some ==> (value matches Value::Column(values) && values@ == rows@),
        len is None ==> value == Value::Scalar(rows@[0]),
{
    if len is None {
        assert(value.rows()[0] == rows@[0]);
    }
}

} // verus!
