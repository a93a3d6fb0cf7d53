//! The prepared-statement descriptor and the builder that fills it while the
//! definitions stream in.

use vstd::prelude::*;
use crate::message::ColumnDefinition;

verus! {

/// What is kept of a parameter's definition: its scalar type. Parameters are
/// bound by position and type, so the rest of the packet is dropped.
#[derive(Clone, Copy, Debug, PartialEq, Eq)]
pub struct ParameterTypeInfo {
    pub type_tag: u8,
}

impl ParameterTypeInfo {
    pub open spec fn of(definition: ColumnDefinition) -> ParameterTypeInfo {
        ParameterTypeInfo { type_tag: definition.type_tag }
    }

    pub fn new(definition: &ColumnDefinition) -> (info: Self)
        ensures
            info == Self::of(*definition),
    {
        ParameterTypeInfo { type_tag: definition.type_tag }
    }
}

/// A result column: its zero-based position and its definition as it came.
#[derive(Clone, Debug, PartialEq, Eq)]
pub struct ColumnDescriptor {
    pub index: usize,
    pub definition: ColumnDefinition,
}

impl ColumnDescriptor {
    pub fn new(index: usize, definition: ColumnDefinition) -> (column: Self)
        ensures
            column == (ColumnDescriptor { index, definition }),
    {
        ColumnDescriptor { index, definition }
    }
}

/// Every column carries the position at which it stands.
pub open spec fn in_arrival_order(columns: Seq<ColumnDescriptor>) -> bool {
    forall|i: int| 0 <= i < columns.len() ==> (#[trigger] columns[i]).index == i
}

/// The two lists of a statement, as sequences.
#[verifier::ext_equal]
pub struct StatementView {
    pub parameters: Seq<ParameterTypeInfo>,
    pub columns: Seq<ColumnDescriptor>,
}

impl StatementView {
    pub open spec fn empty() -> StatementView {
        StatementView { parameters: Seq::empty(), columns: Seq::empty() }
    }

    /// The lists after one more parameter definition.
    pub open spec fn with_parameter(self, definition: ColumnDefinition) -> StatementView {
        StatementView {
            parameters: self.parameters.push(ParameterTypeInfo::of(definition)),
            columns: self.columns,
        }
    }

    /// The lists after one more column definition. The column's index is
    /// the number of columns that came before it, whatever the packet holds.
    pub open spec fn with_column(self, definition: ColumnDefinition) -> StatementView {
        StatementView {
            parameters: self.parameters,
            columns: self.columns.push(
                ColumnDescriptor { index: self.columns.len() as usize, definition },
            ),
        }
    }
}

/// Appending a column keeps the columns in arrival order.
pub proof fn lemma_with_column_keeps_order(lists: StatementView, definition: ColumnDefinition)
    requires
        in_arrival_order(lists.columns),
        lists.columns.len() <= usize::MAX,
    ensures
        in_arrival_order(lists.with_column(definition).columns),
{
}

/// A prepared statement: the types of its parameters and its result
/// columns, both in the order in which the server named them.
#[derive(Debug, PartialEq, Eq)]
pub struct StatementDescriptor {
    parameters: Vec<ParameterTypeInfo>,
    columns: Vec<ColumnDescriptor>,
}

impl View for StatementDescriptor {
    type V = StatementView;

    closed spec fn view(&self) -> StatementView {
        StatementView { parameters: self.parameters@, columns: self.columns@ }
    }
}

impl StatementDescriptor {
    #[verifier::type_invariant]
    spec fn ordered(self) -> bool {
        in_arrival_order(self.columns@)
    }

    pub fn parameters(&self) -> (parameters: &[ParameterTypeInfo])
        ensures
            parameters@ == self@.parameters,
    {
        self.parameters.as_slice()
    }

    pub fn columns(&self) -> (columns: &[ColumnDescriptor])
        ensures
            columns@ == self@.columns,
            in_arrival_order(columns@),
    {
        proof {
            use_type_invariant(self);
        }
        self.columns.as_slice()
    }
}

/// Gathers the two lists of a statement as their definitions arrive.
#[derive(Debug)]
pub struct StatementBuilder {
    parameters: Vec<ParameterTypeInfo>,
    columns: Vec<ColumnDescriptor>,
}

impl View for StatementBuilder {
    type V = StatementView;

    closed spec fn view(&self) -> StatementView {
        StatementView { parameters: self.parameters@, columns: self.columns@ }
    }
}

impl StatementBuilder {
    #[verifier::type_invariant]
    spec fn ordered(self) -> bool {
        in_arrival_order(self.columns@)
    }

    /// A builder with both lists empty and room for the announced counts.
    pub fn new(parameters: u16, columns: u16) -> (builder: Self)
        ensures
            builder@ == StatementView::empty(),
    {
        StatementBuilder {
            parameters: Vec::with_capacity(parameters as usize),
            columns: Vec::with_capacity(columns as usize),
        }
    }

    pub fn parameter_count(&self) -> (count: usize)
        ensures
            count == self@.parameters.len(),
    {
        self.parameters.len()
    }

    pub fn column_count(&self) -> (count: usize)
        ensures
            count == self@.columns.len(),
            in_arrival_order(self@.columns),
    {
        proof {
            use_type_invariant(self);
        }
        self.columns.len()
    }

    /// Appends the type of one more parameter.
    pub fn push_parameter(self, definition: &ColumnDefinition) -> (builder: Self)
        ensures
            builder@ == self@.with_parameter(*definition),
    {
        proof {
            use_type_invariant(&self);
        }
        let StatementBuilder { mut parameters, columns } = self;
        parameters.push(ParameterTypeInfo::new(definition));
        StatementBuilder { parameters, columns }
    }

    /// Appends one more column, at the next free position.
    pub fn push_column(self, definition: ColumnDefinition) -> (builder: Self)
        ensures
            builder@ == self@.with_column(definition),
            in_arrival_order(builder@.columns),
    {
        proof {
            use_type_invariant(&self);
        }
        let StatementBuilder { parameters, mut columns } = self;
        let index: usize = columns.len();
        columns.push(ColumnDescriptor::new(index, definition));
        StatementBuilder { parameters, columns }
    }

    /// Freezes the lists.
    pub fn finish(self) -> (statement: StatementDescriptor)
        ensures
            statement@ == self@,
            in_arrival_order(statement@.columns),
    {
        proof {
            use_type_invariant(&self);
        }
        StatementDescriptor { parameters: self.parameters, columns: self.columns }
    }
}

} // verus!
