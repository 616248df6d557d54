//! The query compiler: from a validated selection to one SQL statement.

use vstd::prelude::*;
use crate::schema::{
    dimension_views, measure_views, DataType, Dimension, DimensionView, Measure, MeasureView,
};
use crate::text::{join, join_strings, optional_text, texts};

verus! {

/// A selection whose fields were all found in the schema, bound to the row
/// filter that applies to the caller.
#[derive(Debug, PartialEq, Eq)]
pub struct ValidatedSelection {
    pub block_name: String,
    pub resolved_dimensions: Vec<Dimension>,
    pub resolved_measures: Vec<Measure>,
    pub auth_filter_field: Option<String>,
    pub auth_filter_value: Option<String>,
}

/// The mathematical content of a [`ValidatedSelection`].
pub struct SelectionView {
    pub block_name: Seq<char>,
    pub resolved_dimensions: Seq<DimensionView>,
    pub resolved_measures: Seq<MeasureView>,
    pub auth_filter_field: Option<Seq<char>>,
    pub auth_filter_value: Option<Seq<char>>,
}

impl View for ValidatedSelection {
    type V = SelectionView;

    open spec fn view(&self) -> SelectionView {
        SelectionView {
            block_name: self.block_name@,
            resolved_dimensions: dimension_views(self.resolved_dimensions@),
            resolved_measures: measure_views(self.resolved_measures@),
            auth_filter_field: optional_text(self.auth_filter_field),
            auth_filter_value: optional_text(self.auth_filter_value),
        }
    }
}

/// The expression by which a dimension is selected: its own expression,
/// truncated to a date where the dimension is date-typed.
pub open spec fn selected_expression(dimension: DimensionView) -> Seq<char> {
    if dimension.data_type == DataType::Date {
        "toDate("@ + dimension.sql + ")"@
    } else {
        dimension.sql
    }
}

/// The select-list entry of a dimension: its selected expression aliased to
/// its name.
pub open spec fn dimension_item(dimension: DimensionView) -> Seq<char> {
    selected_expression(dimension) + " AS "@ + dimension.name
}

/// The select-list entry of a measure: its expression aliased to its name.
pub open spec fn measure_item(measure: MeasureView) -> Seq<char> {
    measure.sql + " AS "@ + measure.name
}

impl SelectionView {
    /// The select-list entries of the dimensions, in order.
    pub open spec fn dimension_items(self) -> Seq<Seq<char>> {
        self.resolved_dimensions.map_values(|d: DimensionView| dimension_item(d))
    }

    /// The select-list entries of the measures, in order.
    pub open spec fn measure_items(self) -> Seq<Seq<char>> {
        self.resolved_measures.map_values(|m: MeasureView| measure_item(m))
    }

    /// All select-list entries: the dimensions first, then the measures.
    pub open spec fn select_items(self) -> Seq<Seq<char>> {
        self.dimension_items() + self.measure_items()
    }

    /// The select list.
    pub open spec fn select_list(self) -> Seq<char> {
        join(self.select_items(), ", "@)
    }

    /// Whether a row filter applies: a filter field with a value for it.
    pub open spec fn is_filtered(self) -> bool {
        self.auth_filter_field is Some && self.auth_filter_value is Some
    }

    /// The `WHERE` clause, empty where no row filter applies.
    pub open spec fn where_clause(self) -> Seq<char> {
        if self.is_filtered() {
            " WHERE "@ + self.auth_filter_field->0 + " = '"@ + self.auth_filter_value->0 + "'"@
        } else {
            Seq::empty()
        }
    }

    /// The grouping expressions: the raw expression of each dimension, in order.
    pub open spec fn group_items(self) -> Seq<Seq<char>> {
        self.resolved_dimensions.map_values(|d: DimensionView| d.sql)
    }

    /// The `GROUP BY` clause, empty where no dimension is selected.
    pub open spec fn group_by_clause(self) -> Seq<char> {
        if self.resolved_dimensions.len() > 0 {
            " GROUP BY "@ + join(self.group_items(), ", "@)
        } else {
            Seq::empty()
        }
    }

    /// The whole statement.
    pub open spec fn statement(self) -> Seq<char> {
        "SELECT "@ + self.select_list() + " FROM "@ + self.block_name + self.where_clause()
            + self.group_by_clause()
    }
}

/// A selection without fields compiles to `SELECT  FROM <block>`, followed
/// by the row filter where one applies, and has no `GROUP BY` clause.
pub proof fn lemma_empty_selection(selection: SelectionView)
    requires
        selection.resolved_dimensions.len() == 0,
        selection.resolved_measures.len() == 0,
    ensures
        selection.select_list() == Seq::<char>::empty(),
        selection.group_by_clause() == Seq::<char>::empty(),
        selection.statement() == "SELECT  FROM "@ + selection.block_name
            + selection.where_clause(),
        !selection.is_filtered() ==> selection.statement() == "SELECT  FROM "@
            + selection.block_name,
{
    reveal_strlit("SELECT ");
    reveal_strlit(" FROM ");
    reveal_strlit("SELECT  FROM ");
    assert(selection.select_items() =~= Seq::<Seq<char>>::empty());
    assert("SELECT "@ + Seq::<char>::empty() + " FROM "@ =~= "SELECT  FROM "@);
    assert(selection.statement() =~= "SELECT  FROM "@ + selection.block_name
        + selection.where_clause());
    if !selection.is_filtered() {
        assert(selection.statement() =~= "SELECT  FROM "@ + selection.block_name);
    }
}

/// A date-typed dimension is wrapped in `toDate(..)` in the select list, any
/// other dimension is selected as it stands, and every dimension is grouped
/// by its raw expression.
pub proof fn lemma_date_truncated_in_select_only(selection: SelectionView)
    ensures
        selection.group_items().len() == selection.resolved_dimensions.len(),
        forall|i: int|
            0 <= i < selection.resolved_dimensions.len() ==> {
                let dimension = #[trigger] selection.resolved_dimensions[i];
                &&& dimension.data_type == DataType::Date ==> selection.select_items()[i]
                    == "toDate("@ + dimension.sql + ")"@ + " AS "@ + dimension.name
                &&& dimension.data_type != DataType::Date ==> selection.select_items()[i]
                    == dimension.sql + " AS "@ + dimension.name
                &&& selection.group_items()[i] == dimension.sql
            },
{
}

/// The statement has a `GROUP BY` clause exactly when a dimension is
/// selected. The clause lists the raw expression of each dimension, not its
/// alias, in the order of the select list, and closes the statement.
pub proof fn lemma_group_by_presence(selection: SelectionView)
    ensures
        selection.group_by_clause().len() > 0 <==> selection.resolved_dimensions.len() > 0,
        selection.resolved_dimensions.len() > 0 ==> selection.group_by_clause()
            == " GROUP BY "@ + join(selection.group_items(), ", "@),
        selection.group_items() == selection.resolved_dimensions.map_values(
            |d: DimensionView| d.sql,
        ),
        selection.statement() == "SELECT "@ + selection.select_list() + " FROM "@
            + selection.block_name + selection.where_clause() + selection.group_by_clause(),
{
    reveal_strlit(" GROUP BY ");
}

/// The statement has a `WHERE` clause exactly when a filter field and a
/// value for it are both present; the clause compares the field with the
/// value, quoted and otherwise as it stands.
pub proof fn lemma_where_presence(selection: SelectionView)
    ensures
        selection.where_clause().len() > 0 <==> selection.auth_filter_field is Some
            && selection.auth_filter_value is Some,
        selection.is_filtered() ==> selection.where_clause() == " WHERE "@
            + selection.auth_filter_field->0 + " = '"@ + selection.auth_filter_value->0 + "'"@,
{
    reveal_strlit(" WHERE ");
}

/// The select-list entry of `dimension`.
fn dimension_expression(dimension: &Dimension) -> (item: String)
    ensures
        item@ == dimension_item(dimension@),
{
    match dimension.data_type {
        DataType::Date => {
            let mut item = String::from_str("toDate(");
            item.append(dimension.sql.as_str());
            item.append(")");
            item.append(" AS ");
            item.append(dimension.name.as_str());
            item
        },
        _ => {
            let mut item = dimension.sql.clone();
            item.append(" AS ");
            item.append(dimension.name.as_str());
            item
        },
    }
}

/// The select-list entry of `measure`.
fn measure_expression(measure: &Measure) -> (item: String)
    ensures
        item@ == measure_item(measure@),
{
    let mut item = measure.sql.clone();
    item.append(" AS ");
    item.append(measure.name.as_str());
    item
}

/// Compiles `selection` into a single-line SQL statement.
pub fn build_query(selection: &ValidatedSelection) -> (query: String)
    ensures
        query@ == selection@.statement(),
{
    let ghost view = selection@;
    let mut items: Vec<String> = Vec::new();
    let mut groups: Vec<String> = Vec::new();
    let mut i: usize = 0;
    while i < selection.resolved_dimensions.len()
        invariant
            i <= selection.resolved_dimensions.len(),
            view == selection@,
            texts(items@) =~= view.dimension_items().take(i as int),
            texts(groups@) =~= view.group_items().take(i as int),
        decreases selection.resolved_dimensions.len() - i,
    {
        let dimension = &selection.resolved_dimensions[i];
        let item = dimension_expression(dimension);
        let group = dimension.sql.clone();
        proof {
            let n = i as int;
            assert(view.resolved_dimensions[n] == dimension@);
            assert(texts(items@.push(item)) =~= texts(items@).push(item@));
            assert(texts(groups@.push(group)) =~= texts(groups@).push(group@));
            assert(view.dimension_items().take(n + 1) =~= view.dimension_items().take(n).push(
                dimension_item(dimension@),
            ));
            assert(view.group_items().take(n + 1) =~= view.group_items().take(n).push(
                dimension@.sql,
            ));
        }
        items.push(item);
        groups.push(group);
        i = i + 1;
    }
    assert(texts(groups@) =~= view.group_items());
    assert(texts(items@) =~= view.dimension_items());
    let mut k: usize = 0;
    while k < selection.resolved_measures.len()
        invariant
            k <= selection.resolved_measures.len(),
            view == selection@,
            texts(items@) =~= view.dimension_items() + view.measure_items().take(k as int),
        decreases selection.resolved_measures.len() - k,
    {
        let measure = &selection.resolved_measures[k];
        let item = measure_expression(measure);
        proof {
            let n = k as int;
            assert(view.resolved_measures[n] == measure@);
            assert(texts(items@.push(item)) =~= texts(items@).push(item@));
            assert(view.measure_items().take(n + 1) =~= view.measure_items().take(n).push(
                measure_item(measure@),
            ));
        }
        items.push(item);
        k = k + 1;
    }
    assert(texts(items@) =~= view.select_items());
    let select_list = join_strings(&items, ", ");

    let mut query = String::from_str("SELECT ");
    query.append(select_list.as_str());
    query.append(" FROM ");
    query.append(selection.block_name.as_str());
    let ghost head = query@;
    match (&selection.auth_filter_field, &selection.auth_filter_value) {
        (Some(field), Some(value)) => {
            query.append(" WHERE ");
            query.append(field.as_str());
            query.append(" = '");
            query.append(value.as_str());
            query.append("'");
        },
        _ => {},
    }
    assert(query@ =~= head + view.where_clause());
    let ghost filtered = query@;
    if selection.resolved_dimensions.len() > 0 {
        let group_list = join_strings(&groups, ", ");
        query.append(" GROUP BY ");
        query.append(group_list.as_str());
    }
    assert(query@ =~= filtered + view.group_by_clause());
    query
}

} // verus!
