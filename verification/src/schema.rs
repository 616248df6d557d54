//! The schema model: blocks with typed dimensions and measures.

use vstd::prelude::*;
use crate::text::{all_distinct, optional_text, texts};

verus! {

/// The semantic type of a dimension.
#[derive(Debug, Clone, Copy, PartialEq, Eq, Structural)]
pub enum DataType {
    String,
    Number,
    Date,
}

/// A groupable column expression.
#[derive(Debug, PartialEq, Eq)]
pub struct Dimension {
    pub name: String,
    pub sql: String,
    pub data_type: DataType,
}

/// An aggregate column expression.
#[derive(Debug, PartialEq, Eq)]
pub struct Measure {
    pub name: String,
    pub sql: String,
}

/// A named fact table with its dimensions and measures, in declaration order.
#[derive(Debug, PartialEq, Eq)]
pub struct Block {
    pub name: String,
    pub dimensions: Vec<Dimension>,
    pub measures: Vec<Measure>,
    pub auth_filter_field: Option<String>,
}

/// The mathematical content of a [`Dimension`].
pub struct DimensionView {
    pub name: Seq<char>,
    pub sql: Seq<char>,
    pub data_type: DataType,
}

/// The mathematical content of a [`Measure`].
pub struct MeasureView {
    pub name: Seq<char>,
    pub sql: Seq<char>,
}

/// The mathematical content of a [`Block`].
pub struct BlockView {
    pub name: Seq<char>,
    pub dimensions: Seq<DimensionView>,
    pub measures: Seq<MeasureView>,
    pub auth_filter_field: Option<Seq<char>>,
}

impl View for Dimension {
    type V = DimensionView;

    open spec fn view(&self) -> DimensionView {
        DimensionView { name: self.name@, sql: self.sql@, data_type: self.data_type }
    }
}

impl View for Measure {
    type V = MeasureView;

    open spec fn view(&self) -> MeasureView {
        MeasureView { name: self.name@, sql: self.sql@ }
    }
}

/// The contents of a list of dimensions.
pub open spec fn dimension_views(dimensions: Seq<Dimension>) -> Seq<DimensionView> {
    dimensions.map_values(|d: Dimension| d@)
}

/// The contents of a list of measures.
pub open spec fn measure_views(measures: Seq<Measure>) -> Seq<MeasureView> {
    measures.map_values(|m: Measure| m@)
}

impl View for Block {
    type V = BlockView;

    open spec fn view(&self) -> BlockView {
        BlockView {
            name: self.name@,
            dimensions: dimension_views(self.dimensions@),
            measures: measure_views(self.measures@),
            auth_filter_field: optional_text(self.auth_filter_field),
        }
    }
}

/// Whether `index` is the first place where `name` stands in `names`.
pub open spec fn is_first_position(names: Seq<Seq<char>>, name: Seq<char>, index: int) -> bool {
    &&& 0 <= index < names.len()
    &&& names[index] == name
    &&& forall|j: int| 0 <= j < index ==> names[j] != name
}

/// The first place where `name` stands in `names`, if it occurs at all.
pub open spec fn first_position(names: Seq<Seq<char>>, name: Seq<char>) -> Option<int> {
    if exists|i: int| is_first_position(names, name, i) {
        Some(choose|i: int| is_first_position(names, name, i))
    } else {
        None
    }
}

/// A first position, once found, is the one `first_position` names.
pub proof fn lemma_first_position_found(names: Seq<Seq<char>>, name: Seq<char>, index: int)
    requires
        is_first_position(names, name, index),
    ensures
        first_position(names, name) == Some(index),
{
    let chosen = choose|i: int| is_first_position(names, name, i);
    assert(is_first_position(names, name, chosen));
    if chosen < index {
        assert(names[chosen] != name);
    } else if index < chosen {
        assert(names[index] != name);
    }
}

/// A name that occurs nowhere has no first position.
pub proof fn lemma_first_position_absent(names: Seq<Seq<char>>, name: Seq<char>)
    requires
        forall|j: int| 0 <= j < names.len() ==> names[j] != name,
    ensures
        first_position(names, name) is None,
{
    assert forall|i: int| !is_first_position(names, name, i) by {
        if 0 <= i < names.len() {
            assert(names[i] != name);
        }
    }
}

/// A name that occurs somewhere has a first position.
pub proof fn lemma_first_position_exists(names: Seq<Seq<char>>, name: Seq<char>, index: int)
    requires
        0 <= index < names.len(),
        names[index] == name,
    ensures
        first_position(names, name) is Some,
    decreases index,
{
    if forall|j: int| 0 <= j < index ==> names[j] != name {
        assert(is_first_position(names, name, index));
    } else {
        let earlier = choose|j: int| 0 <= j < index && names[j] == name;
        lemma_first_position_exists(names, name, earlier);
    }
}

/// A name has a first position exactly where it occurs.
pub proof fn lemma_first_position_iff_contains(names: Seq<Seq<char>>, name: Seq<char>)
    ensures
        first_position(names, name) is Some <==> names.contains(name),
{
    if names.contains(name) {
        lemma_first_position_exists(names, name, names.index_of(name));
    }
    if first_position(names, name) is Some {
        let i = first_position(names, name)->0;
        assert(is_first_position(names, name, i));
    }
}

impl BlockView {
    /// The declared dimension names, in declaration order.
    pub open spec fn dimension_names(self) -> Seq<Seq<char>> {
        self.dimensions.map_values(|d: DimensionView| d.name)
    }

    /// The declared measure names, in declaration order.
    pub open spec fn measure_names(self) -> Seq<Seq<char>> {
        self.measures.map_values(|m: MeasureView| m.name)
    }

    /// The first declared dimension called `name`.
    pub open spec fn dimension_named(self, name: Seq<char>) -> Option<DimensionView> {
        match first_position(self.dimension_names(), name) {
            Some(i) => Some(self.dimensions[i]),
            None => None,
        }
    }

    /// The first declared measure called `name`.
    pub open spec fn measure_named(self, name: Seq<char>) -> Option<MeasureView> {
        match first_position(self.measure_names(), name) {
            Some(i) => Some(self.measures[i]),
            None => None,
        }
    }

    /// Whether no dimension name and no measure name is declared twice.
    pub open spec fn has_unique_names(self) -> bool {
        &&& self.dimension_names().no_duplicates()
        &&& self.measure_names().no_duplicates()
    }
}

/// A dimension found by name is declared by the block under that name, and
/// none is found only where the block declares none of that name.
pub proof fn lemma_dimension_named(block: BlockView, name: Seq<char>)
    ensures
        match block.dimension_named(name) {
            Some(dimension) => block.dimensions.contains(dimension) && dimension.name == name,
            None => !block.dimension_names().contains(name),
        },
{
    let names = block.dimension_names();
    match first_position(names, name) {
        Some(i) => {
            assert(is_first_position(names, name, i));
            assert(block.dimensions[i].name == names[i]);
        },
        None => {
            if names.contains(name) {
                lemma_first_position_exists(names, name, names.index_of(name));
            }
        },
    }
}

/// A measure found by name is declared by the block under that name, and
/// none is found only where the block declares none of that name.
pub proof fn lemma_measure_named(block: BlockView, name: Seq<char>)
    ensures
        match block.measure_named(name) {
            Some(measure) => block.measures.contains(measure) && measure.name == name,
            None => !block.measure_names().contains(name),
        },
{
    let names = block.measure_names();
    match first_position(names, name) {
        Some(i) => {
            assert(is_first_position(names, name, i));
            assert(block.measures[i].name == names[i]);
        },
        None => {
            if names.contains(name) {
                lemma_first_position_exists(names, name, names.index_of(name));
            }
        },
    }
}

/// Where no name is declared twice, every declared field is the one that its
/// name finds: none is hidden behind an earlier field of the same name.
pub proof fn lemma_unique_names_find_every_field(block: BlockView)
    requires
        block.has_unique_names(),
    ensures
        forall|i: int|
            0 <= i < block.dimensions.len() ==> block.dimension_named(
                (#[trigger] block.dimensions[i]).name,
            ) == Some(block.dimensions[i]),
        forall|i: int|
            0 <= i < block.measures.len() ==> block.measure_named(
                (#[trigger] block.measures[i]).name,
            ) == Some(block.measures[i]),
{
    assert forall|i: int| 0 <= i < block.dimensions.len() implies block.dimension_named(
        (#[trigger] block.dimensions[i]).name,
    ) == Some(block.dimensions[i]) by {
        let names = block.dimension_names();
        assert(names[i] == block.dimensions[i].name);
        assert forall|j: int| 0 <= j < i implies names[j] != names[i] by {}
        lemma_first_position_found(names, names[i], i);
    }
    assert forall|i: int| 0 <= i < block.measures.len() implies block.measure_named(
        (#[trigger] block.measures[i]).name,
    ) == Some(block.measures[i]) by {
        let names = block.measure_names();
        assert(names[i] == block.measures[i].name);
        assert forall|j: int| 0 <= j < i implies names[j] != names[i] by {}
        lemma_first_position_found(names, names[i], i);
    }
}

impl Clone for Dimension {
    fn clone(&self) -> (copy: Self)
        ensures
            copy == *self,
    {
        Dimension { name: self.name.clone(), sql: self.sql.clone(), data_type: self.data_type }
    }
}

impl Clone for Measure {
    fn clone(&self) -> (copy: Self)
        ensures
            copy == *self,
    {
        Measure { name: self.name.clone(), sql: self.sql.clone() }
    }
}

impl Clone for Block {
    fn clone(&self) -> (copy: Self)
        ensures
            copy@ == self@,
    {
        let mut dimensions: Vec<Dimension> = Vec::new();
        let mut i: usize = 0;
        while i < self.dimensions.len()
            invariant
                i <= self.dimensions.len(),
                dimension_views(dimensions@) =~= self@.dimensions.take(i as int),
            decreases self.dimensions.len() - i,
        {
            let dimension = self.dimensions[i].clone();
            proof {
                let n = i as int;
                assert(dimension_views(dimensions@.push(dimension)) =~= dimension_views(
                    dimensions@,
                ).push(dimension@));
                assert(self@.dimensions.take(n + 1) =~= self@.dimensions.take(n).push(dimension@));
            }
            dimensions.push(dimension);
            i = i + 1;
        }
        assert(self@.dimensions.take(i as int) =~= self@.dimensions);
        let mut measures: Vec<Measure> = Vec::new();
        let mut k: usize = 0;
        while k < self.measures.len()
            invariant
                k <= self.measures.len(),
                measure_views(measures@) =~= self@.measures.take(k as int),
            decreases self.measures.len() - k,
        {
            let measure = self.measures[k].clone();
            proof {
                let n = k as int;
                assert(measure_views(measures@.push(measure)) =~= measure_views(measures@).push(
                    measure@,
                ));
                assert(self@.measures.take(n + 1) =~= self@.measures.take(n).push(measure@));
            }
            measures.push(measure);
            k = k + 1;
        }
        assert(self@.measures.take(k as int) =~= self@.measures);
        let auth_filter_field = match &self.auth_filter_field {
            Some(field) => Some(field.clone()),
            None => None,
        };
        Block { name: self.name.clone(), dimensions, measures, auth_filter_field }
    }
}

impl Block {
    /// The declared dimension names, in declaration order.
    pub fn dimension_names(&self) -> (names: Vec<String>)
        ensures
            texts(names@) == self@.dimension_names(),
    {
        let mut names: Vec<String> = Vec::new();
        let mut i: usize = 0;
        while i < self.dimensions.len()
            invariant
                i <= self.dimensions.len(),
                texts(names@) =~= self@.dimension_names().take(i as int),
            decreases self.dimensions.len() - i,
        {
            let name = self.dimensions[i].name.clone();
            proof {
                let n = i as int;
                assert(texts(names@.push(name)) =~= texts(names@).push(name@));
                assert(self@.dimension_names().take(n + 1) =~= self@.dimension_names().take(
                    n,
                ).push(name@));
            }
            names.push(name);
            i = i + 1;
        }
        assert(self@.dimension_names().take(i as int) =~= self@.dimension_names());
        names
    }

    /// The declared measure names, in declaration order.
    pub fn measure_names(&self) -> (names: Vec<String>)
        ensures
            texts(names@) == self@.measure_names(),
    {
        let mut names: Vec<String> = Vec::new();
        let mut i: usize = 0;
        while i < self.measures.len()
            invariant
                i <= self.measures.len(),
                texts(names@) =~= self@.measure_names().take(i as int),
            decreases self.measures.len() - i,
        {
            let name = self.measures[i].name.clone();
            proof {
                let n = i as int;
                assert(texts(names@.push(name)) =~= texts(names@).push(name@));
                assert(self@.measure_names().take(n + 1) =~= self@.measure_names().take(n).push(
                    name@,
                ));
            }
            names.push(name);
            i = i + 1;
        }
        assert(self@.measure_names().take(i as int) =~= self@.measure_names());
        names
    }

    /// Whether no dimension name and no measure name is declared twice.
    pub fn has_unique_names(&self) -> (unique: bool)
        ensures
            unique == self@.has_unique_names(),
    {
        all_distinct(&self.dimension_names()) && all_distinct(&self.measure_names())
    }

    /// The first declared dimension called `name`.
    pub fn find_dimension(&self, name: &str) -> (found: Option<&Dimension>)
        ensures
            match found {
                Some(dimension) => self@.dimension_named(name@) == Some(dimension@),
                None => self@.dimension_named(name@) is None,
            },
    {
        let wanted = String::from_str(name);
        let ghost names = self@.dimension_names();
        let mut i: usize = 0;
        while i < self.dimensions.len()
            invariant
                i <= self.dimensions.len(),
                wanted@ == name@,
                names == self@.dimension_names(),
                forall|j: int| 0 <= j < i ==> names[j] != name@,
            decreases self.dimensions.len() - i,
        {
            if self.dimensions[i].name == wanted {
                proof {
                    lemma_first_position_found(names, name@, i as int);
                }
                return Some(&self.dimensions[i]);
            }
            i = i + 1;
        }
        proof {
            lemma_first_position_absent(names, name@);
        }
        None
    }

    /// The first declared measure called `name`.
    pub fn find_measure(&self, name: &str) -> (found: Option<&Measure>)
        ensures
            match found {
                Some(measure) => self@.measure_named(name@) == Some(measure@),
                None => self@.measure_named(name@) is None,
            },
    {
        let wanted = String::from_str(name);
        let ghost names = self@.measure_names();
        let mut i: usize = 0;
        while i < self.measures.len()
            invariant
                i <= self.measures.len(),
                wanted@ == name@,
                names == self@.measure_names(),
                forall|j: int| 0 <= j < i ==> names[j] != name@,
            decreases self.measures.len() - i,
        {
            if self.measures[i].name == wanted {
                proof {
                    lemma_first_position_found(names, name@, i as int);
                }
                return Some(&self.measures[i]);
            }
            i = i + 1;
        }
        proof {
            lemma_first_position_absent(names, name@);
        }
        None
    }
}

} // verus!
