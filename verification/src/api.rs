//! Requests against the schema: validation of a field selection and the
//! statement that is sent to the store for it.

use vstd::prelude::*;
use serde_json::Value;
use crate::auth::{filter_value, resolve, Claims};
use crate::json::text_of;
use crate::query::{
    build_query, lemma_where_presence, selected_expression, SelectionView, ValidatedSelection,
};
use crate::schema::{
    dimension_views, lemma_dimension_named, lemma_first_position_iff_contains,
    lemma_measure_named, measure_views, Block, BlockView, Dimension, DimensionView, Measure,
    MeasureView,
};
use crate::store::SchemaSnapshot;
use crate::text::{join, optional_text, texts};

verus! {

/// A field selection as a client sends it. Omitted lists select nothing, an
/// omitted `include_meta` keeps the envelope out of the response.
#[derive(Debug, PartialEq, Eq)]
pub struct QueryRequest {
    pub name: String,
    pub dimensions: Option<Vec<String>>,
    pub measures: Option<Vec<String>>,
    pub include_meta: Option<bool>,
}

/// The mathematical content of a [`QueryRequest`].
pub struct RequestView {
    pub name: Seq<char>,
    pub dimensions: Seq<Seq<char>>,
    pub measures: Seq<Seq<char>>,
    pub include_meta: bool,
}

/// The names in an optional list, none where the list is omitted.
pub open spec fn requested_names(names: Option<Vec<String>>) -> Seq<Seq<char>> {
    match names {
        Some(list) => texts(list@),
        None => Seq::empty(),
    }
}

impl View for QueryRequest {
    type V = RequestView;

    open spec fn view(&self) -> RequestView {
        RequestView {
            name: self.name@,
            dimensions: requested_names(self.dimensions),
            measures: requested_names(self.measures),
            include_meta: self.include_meta == Some(true),
        }
    }
}

/// The two kinds of field that a block declares.
#[derive(Debug, Clone, Copy, PartialEq, Eq, Structural)]
pub enum FieldKind {
    Dimension,
    Measure,
}

/// Why a selection was refused.
#[derive(Debug, PartialEq, Eq)]
pub enum ValidationError {
    /// The snapshot has no block of the requested name.
    BlockNotFound,
    /// The block declares no field of that kind called `field`.
    FieldNotFound { kind: FieldKind, field: String, block: String },
}

/// The mathematical content of a [`ValidationError`].
pub enum ErrorView {
    BlockNotFound,
    FieldNotFound { kind: FieldKind, field: Seq<char>, block: Seq<char> },
}

impl View for ValidationError {
    type V = ErrorView;

    open spec fn view(&self) -> ErrorView {
        match self {
            ValidationError::BlockNotFound => ErrorView::BlockNotFound,
            ValidationError::FieldNotFound { kind, field, block } => ErrorView::FieldNotFound {
                kind: *kind,
                field: field@,
                block: block@,
            },
        }
    }
}

/// The content of a validation outcome.
pub open spec fn outcome_view(outcome: Result<ValidatedSelection, ValidationError>) -> Result<
    SelectionView,
    ErrorView,
> {
    match outcome {
        Ok(selection) => Ok(selection@),
        Err(error) => Err(error@),
    }
}

/// Whether `index` is the first requested name that is not among `declared`.
pub open spec fn is_first_undeclared(
    declared: Seq<Seq<char>>,
    requested: Seq<Seq<char>>,
    index: int,
) -> bool {
    &&& 0 <= index < requested.len()
    &&& !declared.contains(requested[index])
    &&& forall|j: int| 0 <= j < index ==> declared.contains(#[trigger] requested[j])
}

/// The position of the first requested name that is not among `declared`.
pub open spec fn first_undeclared(declared: Seq<Seq<char>>, requested: Seq<Seq<char>>) -> Option<
    int,
> {
    if exists|i: int| is_first_undeclared(declared, requested, i) {
        Some(choose|i: int| is_first_undeclared(declared, requested, i))
    } else {
        None
    }
}

/// A first undeclared name, once found, is the one `first_undeclared` names.
pub proof fn lemma_first_undeclared_found(
    declared: Seq<Seq<char>>,
    requested: Seq<Seq<char>>,
    index: int,
)
    requires
        is_first_undeclared(declared, requested, index),
    ensures
        first_undeclared(declared, requested) == Some(index),
{
    let chosen = choose|i: int| is_first_undeclared(declared, requested, i);
    assert(is_first_undeclared(declared, requested, chosen));
    if chosen < index {
        assert(declared.contains(requested[chosen]));
    } else if index < chosen {
        assert(declared.contains(requested[index]));
    }
}

/// Where every requested name is declared, none is the first undeclared one.
pub proof fn lemma_all_declared(declared: Seq<Seq<char>>, requested: Seq<Seq<char>>)
    requires
        forall|j: int| 0 <= j < requested.len() ==> declared.contains(#[trigger] requested[j]),
    ensures
        first_undeclared(declared, requested) is None,
{
    assert forall|i: int| !is_first_undeclared(declared, requested, i) by {
        if 0 <= i < requested.len() {
            assert(declared.contains(requested[i]));
        }
    }
}

/// The dimensions of `block` that `names` call for, in the order of `names`.
pub open spec fn dimensions_for(block: BlockView, names: Seq<Seq<char>>) -> Seq<DimensionView> {
    names.map_values(|name: Seq<char>| block.dimension_named(name)->0)
}

/// The measures of `block` that `names` call for, in the order of `names`.
pub open spec fn measures_for(block: BlockView, names: Seq<Seq<char>>) -> Seq<MeasureView> {
    names.map_values(|name: Seq<char>| block.measure_named(name)->0)
}

/// What a request selects from `block` when rows are filtered by `filter`:
/// the first requested dimension that the block lacks is reported, else the
/// first such measure, else every name is resolved in the order requested.
pub open spec fn selected(
    block: BlockView,
    request: RequestView,
    filter: Option<Seq<char>>,
) -> Result<SelectionView, ErrorView> {
    match first_undeclared(block.dimension_names(), request.dimensions) {
        Some(i) => Err(
            ErrorView::FieldNotFound {
                kind: FieldKind::Dimension,
                field: request.dimensions[i],
                block: request.name,
            },
        ),
        None => match first_undeclared(block.measure_names(), request.measures) {
            Some(i) => Err(
                ErrorView::FieldNotFound {
                    kind: FieldKind::Measure,
                    field: request.measures[i],
                    block: request.name,
                },
            ),
            None => Ok(
                SelectionView {
                    block_name: request.name,
                    resolved_dimensions: dimensions_for(block, request.dimensions),
                    resolved_measures: measures_for(block, request.measures),
                    auth_filter_field: block.auth_filter_field,
                    auth_filter_value: filter,
                },
            ),
        },
    }
}

/// What a request selects from a snapshot for a caller with `claims`.
pub open spec fn validated(
    snapshot: Map<Seq<char>, BlockView>,
    request: RequestView,
    claims: Map<Seq<char>, Value>,
) -> Result<SelectionView, ErrorView> {
    if snapshot.contains_key(request.name) {
        let block = snapshot[request.name];
        selected(block, request, filter_value(block.auth_filter_field, claims))
    } else {
        Err(ErrorView::BlockNotFound)
    }
}

/// A requested name that is not declared has a first such name at or before it.
pub proof fn lemma_first_undeclared_exists(
    declared: Seq<Seq<char>>,
    requested: Seq<Seq<char>>,
    index: int,
)
    requires
        0 <= index < requested.len(),
        !declared.contains(requested[index]),
    ensures
        first_undeclared(declared, requested) is Some,
        first_undeclared(declared, requested)->0 <= index,
        is_first_undeclared(declared, requested, first_undeclared(declared, requested)->0),
    decreases index,
{
    if forall|j: int| 0 <= j < index ==> declared.contains(#[trigger] requested[j]) {
        lemma_first_undeclared_found(declared, requested, index);
    } else {
        let earlier = choose|j: int| 0 <= j < index && !declared.contains(#[trigger] requested[j]);
        lemma_first_undeclared_exists(declared, requested, earlier);
    }
}

/// Selecting declared fields succeeds, and the compiled statement selects
/// exactly the requested fields, in the order requested: each dimension and
/// then each measure stands in the select list as the block declares it,
/// aliased to the requested name.
pub proof fn lemma_declared_fields_are_selected(
    snapshot: Map<Seq<char>, BlockView>,
    request: RequestView,
    claims: Map<Seq<char>, Value>,
)
    requires
        snapshot.contains_key(request.name),
        forall|i: int|
            0 <= i < request.dimensions.len() ==> snapshot[request.name].dimension_names().contains(
                #[trigger] request.dimensions[i],
            ),
        forall|i: int|
            0 <= i < request.measures.len() ==> snapshot[request.name].measure_names().contains(
                #[trigger] request.measures[i],
            ),
    ensures
        validated(snapshot, request, claims) is Ok,
        ({
            let block = snapshot[request.name];
            let selection = validated(snapshot, request, claims)->Ok_0;
            let items = selection.select_items();
            &&& selection.block_name == request.name
            &&& selection.statement() == "SELECT "@ + join(items, ", "@) + " FROM "@ + request.name
                + selection.where_clause() + selection.group_by_clause()
            &&& items.len() == request.dimensions.len() + request.measures.len()
            &&& forall|i: int|
                0 <= i < request.dimensions.len() ==> {
                    let dimension = #[trigger] selection.resolved_dimensions[i];
                    &&& block.dimensions.contains(dimension)
                    &&& dimension.name == request.dimensions[i]
                    &&& items[i] == selected_expression(dimension) + " AS "@
                        + request.dimensions[i]
                }
            &&& forall|i: int|
                0 <= i < request.measures.len() ==> {
                    let measure = #[trigger] selection.resolved_measures[i];
                    &&& block.measures.contains(measure)
                    &&& measure.name == request.measures[i]
                    &&& items[request.dimensions.len() + i] == measure.sql + " AS "@
                        + request.measures[i]
                }
        }),
{
    let block = snapshot[request.name];
    lemma_all_declared(block.dimension_names(), request.dimensions);
    lemma_all_declared(block.measure_names(), request.measures);
    let selection = validated(snapshot, request, claims)->Ok_0;
    assert forall|i: int| 0 <= i < request.dimensions.len() implies {
        let dimension = #[trigger] selection.resolved_dimensions[i];
        &&& block.dimensions.contains(dimension)
        &&& dimension.name == request.dimensions[i]
    } by {
        lemma_dimension_named(block, request.dimensions[i]);
    }
    assert forall|i: int| 0 <= i < request.measures.len() implies {
        let measure = #[trigger] selection.resolved_measures[i];
        &&& block.measures.contains(measure)
        &&& measure.name == request.measures[i]
    } by {
        lemma_measure_named(block, request.measures[i]);
    }
}

/// A row filter is applied exactly when the block declares a filter field and
/// the caller's claims hold a string under that name; the filter then compares
/// the field with that string. A missing or non-string claim leaves the
/// statement unfiltered.
pub proof fn lemma_filter_follows_claims(
    snapshot: Map<Seq<char>, BlockView>,
    request: RequestView,
    claims: Map<Seq<char>, Value>,
)
    requires
        validated(snapshot, request, claims) is Ok,
    ensures
        ({
            let block = snapshot[request.name];
            let selection = validated(snapshot, request, claims)->Ok_0;
            let applies = block.auth_filter_field is Some && claims.contains_key(
                block.auth_filter_field->0,
            ) && text_of(claims[block.auth_filter_field->0]) is Some;
            &&& selection.is_filtered() <==> applies
            &&& selection.where_clause().len() > 0 <==> applies
            &&& applies ==> selection.where_clause() == " WHERE "@ + block.auth_filter_field->0
                + " = '"@ + text_of(claims[block.auth_filter_field->0])->0 + "'"@
            &&& !applies ==> selection.where_clause() == Seq::<char>::empty()
        }),
{
    let selection = validated(snapshot, request, claims)->Ok_0;
    lemma_where_presence(selection);
}

/// A request that names a dimension which the block does not declare is
/// refused with `FieldNotFound`, naming the first such dimension, and yields
/// no statement.
pub proof fn lemma_undeclared_dimension_is_refused(
    snapshot: Map<Seq<char>, BlockView>,
    request: RequestView,
    claims: Map<Seq<char>, Value>,
    index: int,
)
    requires
        snapshot.contains_key(request.name),
        0 <= index < request.dimensions.len(),
        !snapshot[request.name].dimension_names().contains(request.dimensions[index]),
    ensures
        planned(validated(snapshot, request, claims)) is Err,
        validated(snapshot, request, claims) matches Err(
            ErrorView::FieldNotFound { kind, field, block },
        ) && {
            &&& kind == FieldKind::Dimension
            &&& block == request.name
            &&& !snapshot[request.name].dimension_names().contains(field)
            &&& exists|k: int|
                0 <= k <= index && field == request.dimensions[k] && forall|j: int|
                    0 <= j < k ==> snapshot[request.name].dimension_names().contains(
                        #[trigger] request.dimensions[j],
                    )
        },
{
    let declared = snapshot[request.name].dimension_names();
    lemma_first_undeclared_exists(declared, request.dimensions, index);
}

/// A request whose dimensions are all declared but which names a measure that
/// the block does not declare is refused with `FieldNotFound`, naming the
/// first such measure, and yields no statement.
pub proof fn lemma_undeclared_measure_is_refused(
    snapshot: Map<Seq<char>, BlockView>,
    request: RequestView,
    claims: Map<Seq<char>, Value>,
    index: int,
)
    requires
        snapshot.contains_key(request.name),
        forall|i: int|
            0 <= i < request.dimensions.len() ==> snapshot[request.name].dimension_names().contains(
                #[trigger] request.dimensions[i],
            ),
        0 <= index < request.measures.len(),
        !snapshot[request.name].measure_names().contains(request.measures[index]),
    ensures
        planned(validated(snapshot, request, claims)) is Err,
        validated(snapshot, request, claims) matches Err(
            ErrorView::FieldNotFound { kind, field, block },
        ) && {
            &&& kind == FieldKind::Measure
            &&& block == request.name
            &&& !snapshot[request.name].measure_names().contains(field)
            &&& exists|k: int|
                0 <= k <= index && field == request.measures[k] && forall|j: int|
                    0 <= j < k ==> snapshot[request.name].measure_names().contains(
                        #[trigger] request.measures[j],
                    )
        },
{
    let block = snapshot[request.name];
    lemma_all_declared(block.dimension_names(), request.dimensions);
    lemma_first_undeclared_exists(block.measure_names(), request.measures, index);
}

/// The declared dimensions that `names` call for, or the position of the
/// first name that `block` does not declare.
fn resolve_dimensions(block: &Block, names: &Vec<String>) -> (outcome: Result<
    Vec<Dimension>,
    usize,
>)
    ensures
        match outcome {
            Ok(found) => first_undeclared(block@.dimension_names(), texts(names@)) is None
                && dimension_views(found@) == dimensions_for(block@, texts(names@)),
            Err(i) => first_undeclared(block@.dimension_names(), texts(names@)) == Some(i as int),
        },
{
    let ghost declared = block@.dimension_names();
    let ghost requested = texts(names@);
    let mut found: Vec<Dimension> = Vec::new();
    let mut i: usize = 0;
    while i < names.len()
        invariant
            i <= names.len(),
            declared == block@.dimension_names(),
            requested == texts(names@),
            forall|j: int| 0 <= j < i ==> declared.contains(#[trigger] requested[j]),
            dimension_views(found@) =~= dimensions_for(block@, requested.take(i as int)),
        decreases names.len() - i,
    {
        match block.find_dimension(names[i].as_str()) {
            Some(dimension) => {
                let copy = dimension.clone();
                proof {
                    let n = i as int;
                    assert(requested[n] == names[n]@);
                    lemma_first_position_iff_contains(declared, requested[n]);
                    assert(dimension_views(found@.push(copy)) =~= dimension_views(found@).push(
                        copy@,
                    ));
                    assert(requested.take(n + 1) =~= requested.take(n).push(requested[n]));
                    assert(dimensions_for(block@, requested.take(n + 1)) =~= dimensions_for(
                        block@,
                        requested.take(n),
                    ).push(copy@));
                }
                found.push(copy);
            },
            None => {
                proof {
                    assert(requested[i as int] == names[i as int]@);
                    lemma_first_position_iff_contains(declared, requested[i as int]);
                    lemma_first_undeclared_found(declared, requested, i as int);
                }
                return Err(i);
            },
        }
        i = i + 1;
    }
    proof {
        lemma_all_declared(declared, requested);
        assert(requested.take(names.len() as int) =~= requested);
    }
    Ok(found)
}

/// The declared measures that `names` call for, or the position of the first
/// name that `block` does not declare.
fn resolve_measures(block: &Block, names: &Vec<String>) -> (outcome: Result<Vec<Measure>, usize>)
    ensures
        match outcome {
            Ok(found) => first_undeclared(block@.measure_names(), texts(names@)) is None
                && measure_views(found@) == measures_for(block@, texts(names@)),
            Err(i) => first_undeclared(block@.measure_names(), texts(names@)) == Some(i as int),
        },
{
    let ghost declared = block@.measure_names();
    let ghost requested = texts(names@);
    let mut found: Vec<Measure> = Vec::new();
    let mut i: usize = 0;
    while i < names.len()
        invariant
            i <= names.len(),
            declared == block@.measure_names(),
            requested == texts(names@),
            forall|j: int| 0 <= j < i ==> declared.contains(#[trigger] requested[j]),
            measure_views(found@) =~= measures_for(block@, requested.take(i as int)),
        decreases names.len() - i,
    {
        match block.find_measure(names[i].as_str()) {
            Some(measure) => {
                let copy = measure.clone();
                proof {
                    let n = i as int;
                    assert(requested[n] == names[n]@);
                    lemma_first_position_iff_contains(declared, requested[n]);
                    assert(measure_views(found@.push(copy)) =~= measure_views(found@).push(copy@));
                    assert(requested.take(n + 1) =~= requested.take(n).push(requested[n]));
                    assert(measures_for(block@, requested.take(n + 1)) =~= measures_for(
                        block@,
                        requested.take(n),
                    ).push(copy@));
                }
                found.push(copy);
            },
            None => {
                proof {
                    assert(requested[i as int] == names[i as int]@);
                    lemma_first_position_iff_contains(declared, requested[i as int]);
                    lemma_first_undeclared_found(declared, requested, i as int);
                }
                return Err(i);
            },
        }
        i = i + 1;
    }
    proof {
        lemma_all_declared(declared, requested);
        assert(requested.take(names.len() as int) =~= requested);
    }
    Ok(found)
}

/// A copy of an optional string.
fn copy_text(text: &Option<String>) -> (copy: Option<String>)
    ensures
        copy == *text,
{
    match text {
        Some(s) => Some(s.clone()),
        None => None,
    }
}

/// Resolves the fields that `request` names against `block` and binds the
/// selection to the row-filter value `filter`. Stops at the first name that
/// the block does not declare, dimensions before measures.
pub fn select(
    block: &Block,
    request: &QueryRequest,
    filter: Option<String>,
) -> (outcome: Result<ValidatedSelection, ValidationError>)
    ensures
        outcome_view(outcome) == selected(block@, request@, optional_text(filter)),
{
    let resolved_dimensions = match &request.dimensions {
        Some(names) => match resolve_dimensions(block, names) {
            Ok(found) => found,
            Err(i) => {
                return Err(
                    ValidationError::FieldNotFound {
                        kind: FieldKind::Dimension,
                        field: names[i].clone(),
                        block: request.name.clone(),
                    },
                );
            },
        },
        None => {
            proof {
                lemma_all_declared(block@.dimension_names(), Seq::empty());
            }
            Vec::new()
        },
    };
    assert(first_undeclared(block@.dimension_names(), request@.dimensions) is None);
    assert(dimension_views(resolved_dimensions@) =~= dimensions_for(block@, request@.dimensions));
    let resolved_measures = match &request.measures {
        Some(names) => match resolve_measures(block, names) {
            Ok(found) => found,
            Err(i) => {
                return Err(
                    ValidationError::FieldNotFound {
                        kind: FieldKind::Measure,
                        field: names[i].clone(),
                        block: request.name.clone(),
                    },
                );
            },
        },
        None => {
            proof {
                lemma_all_declared(block@.measure_names(), Seq::empty());
            }
            Vec::new()
        },
    };
    assert(first_undeclared(block@.measure_names(), request@.measures) is None);
    assert(measure_views(resolved_measures@) =~= measures_for(block@, request@.measures));
    Ok(
        ValidatedSelection {
            block_name: request.name.clone(),
            resolved_dimensions,
            resolved_measures,
            auth_filter_field: copy_text(&block.auth_filter_field),
            auth_filter_value: filter,
        },
    )
}

/// Validates `request` against `snapshot` for a caller with `claims`: looks
/// the block up, resolves every requested field, and binds the row filter
/// that the block draws from the claims.
pub fn validate(
    snapshot: &SchemaSnapshot,
    request: &QueryRequest,
    claims: &Claims,
) -> (outcome: Result<ValidatedSelection, ValidationError>)
    ensures
        outcome_view(outcome) == validated(snapshot@, request@, claims@),
{
    match snapshot.get(request.name.as_str()) {
        Some(block) => {
            let filter = resolve(block, claims);
            select(block, request, filter)
        },
        None => Err(ValidationError::BlockNotFound),
    }
}

/// The statement for a validation outcome: the compiled query followed by
/// the output-format directive, or the refusal unchanged.
pub open spec fn planned(outcome: Result<SelectionView, ErrorView>) -> Result<
    Seq<char>,
    ErrorView,
> {
    match outcome {
        Ok(selection) => Ok(selection.statement() + " FORMAT JSON"@),
        Err(error) => Err(error),
    }
}

/// The content of a planning outcome.
pub open spec fn plan_view(outcome: Result<String, ValidationError>) -> Result<
    Seq<char>,
    ErrorView,
> {
    match outcome {
        Ok(statement) => Ok(statement@),
        Err(error) => Err(error@),
    }
}

/// The text that is sent to the store for `query`: the query followed by the
/// directive that asks for a JSON answer.
pub fn with_output_format(query: String) -> (body: String)
    ensures
        body@ == query@ + " FORMAT JSON"@,
{
    let mut body = query;
    body.append(" FORMAT JSON");
    body
}

/// Validates `request` and compiles the statement to send to the store. A
/// request that fails validation yields no statement.
pub fn plan_query(
    snapshot: &SchemaSnapshot,
    request: &QueryRequest,
    claims: &Claims,
) -> (outcome: Result<String, ValidationError>)
    ensures
        plan_view(outcome) == planned(validated(snapshot@, request@, claims@)),
{
    match validate(snapshot, request, claims) {
        Ok(selection) => Ok(with_output_format(build_query(&selection))),
        Err(error) => Err(error),
    }
}

impl QueryRequest {
    /// Whether the caller asked for the response envelope to be kept.
    pub fn wants_meta(&self) -> (wanted: bool)
        ensures
            wanted == self@.include_meta,
    {
        match self.include_meta {
            Some(flag) => flag,
            None => false,
        }
    }
}

} // verus!
