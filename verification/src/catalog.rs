//! The structured results of catalog introspection: user-defined enum types,
//! sequences, tables with their columns, keys, indexes and foreign keys,
//! and the stored rows. All of them are read-only projections of live
//! catalog state, captured once per dump run by the caller's queries.

use vstd::prelude::*;
use crate::encode::CellValue;
use crate::encode::CellView;

verus! {

/// A user-defined enumerated type: its name and its ordered label list.
pub struct EnumType {
    pub name: String,
    /// The labels in the catalog's declared sort order.
    pub labels: Vec<String>,
}

pub ghost struct EnumTypeView {
    pub name: Seq<char>,
    pub labels: Seq<Seq<char>>,
}

impl View for EnumType {
    type V = EnumTypeView;

    open spec fn view(&self) -> EnumTypeView {
        EnumTypeView { name: self.name@, labels: self.labels.deep_view() }
    }
}

impl DeepView for EnumType {
    type V = EnumTypeView;

    open spec fn deep_view(&self) -> EnumTypeView {
        self.view()
    }
}

/// The numeric parameters of a sequence object.
pub struct SequenceParameters {
    pub start: i64,
    pub increment: i64,
    pub min_value: i64,
    pub max_value: i64,
}

pub ghost struct SequenceParametersView {
    pub start: int,
    pub increment: int,
    pub min_value: int,
    pub max_value: int,
}

impl View for SequenceParameters {
    type V = SequenceParametersView;

    open spec fn view(&self) -> SequenceParametersView {
        SequenceParametersView {
            start: self.start as int,
            increment: self.increment as int,
            min_value: self.min_value as int,
            max_value: self.max_value as int,
        }
    }
}

/// The parameter values that stand in when the parameter lookup yields
/// nothing.
pub open spec fn default_sequence_parameters() -> SequenceParametersView {
    SequenceParametersView { start: 1, increment: 1, min_value: 1, max_value: 2147483647 }
}

impl SequenceParameters {
    /// The default parameters: start 1, increment 1, minimum 1,
    /// maximum 2147483647.
    pub fn defaults() -> (r: Self)
        ensures
            r@ == default_sequence_parameters(),
    {
        SequenceParameters { start: 1, increment: 1, min_value: 1, max_value: 2147483647 }
    }
}

/// A failed or empty parameter lookup must not abort the run: the defaults
/// stand in for a sequence whose parameters could not be retrieved.
pub fn sequence_parameters_or_defaults(found: Option<SequenceParameters>) -> (r:
    SequenceParameters)
    ensures
        match found {
            Some(p) => r@ == p@,
            None => r@ == default_sequence_parameters(),
        },
{
    match found {
        Some(p) => p,
        None => SequenceParameters::defaults(),
    }
}

/// A sequence object: its name and its numeric parameters.
pub struct SequenceObject {
    pub name: String,
    pub parameters: SequenceParameters,
}

pub ghost struct SequenceObjectView {
    pub name: Seq<char>,
    pub parameters: SequenceParametersView,
}

impl View for SequenceObject {
    type V = SequenceObjectView;

    open spec fn view(&self) -> SequenceObjectView {
        SequenceObjectView { name: self.name@, parameters: self.parameters@ }
    }
}

impl DeepView for SequenceObject {
    type V = SequenceObjectView;

    open spec fn deep_view(&self) -> SequenceObjectView {
        self.view()
    }
}

/// A table attribute: its name, declared type, optional declared maximum
/// length, nullability and optional default expression.
pub struct Column {
    pub name: String,
    pub data_type: String,
    pub max_length: Option<i32>,
    pub not_null: bool,
    pub default_expr: Option<String>,
}

pub ghost struct ColumnView {
    pub name: Seq<char>,
    pub data_type: Seq<char>,
    pub max_length: Option<int>,
    pub not_null: bool,
    pub default_expr: Option<Seq<char>>,
}

impl View for Column {
    type V = ColumnView;

    open spec fn view(&self) -> ColumnView {
        ColumnView {
            name: self.name@,
            data_type: self.data_type@,
            max_length: match self.max_length {
                Some(n) => Some(n as int),
                None => None,
            },
            not_null: self.not_null,
            default_expr: match self.default_expr {
                Some(e) => Some(e@),
                None => None,
            },
        }
    }
}

impl DeepView for Column {
    type V = ColumnView;

    open spec fn deep_view(&self) -> ColumnView {
        self.view()
    }
}

/// A referential constraint: the constraint name, the local column, the
/// referenced table and column, and the update and delete rule text.
pub struct ForeignKey {
    pub constraint_name: String,
    pub column: String,
    pub referenced_table: String,
    pub referenced_column: String,
    pub update_rule: String,
    pub delete_rule: String,
}

pub ghost struct ForeignKeyView {
    pub constraint_name: Seq<char>,
    pub column: Seq<char>,
    pub referenced_table: Seq<char>,
    pub referenced_column: Seq<char>,
    pub update_rule: Seq<char>,
    pub delete_rule: Seq<char>,
}

impl View for ForeignKey {
    type V = ForeignKeyView;

    open spec fn view(&self) -> ForeignKeyView {
        ForeignKeyView {
            constraint_name: self.constraint_name@,
            column: self.column@,
            referenced_table: self.referenced_table@,
            referenced_column: self.referenced_column@,
            update_rule: self.update_rule@,
            delete_rule: self.delete_rule@,
        }
    }
}

impl DeepView for ForeignKey {
    type V = ForeignKeyView;

    open spec fn deep_view(&self) -> ForeignKeyView {
        self.view()
    }
}

/// One stored tuple of a table: its ordered cell values.
pub struct Row {
    pub cells: Vec<CellValue>,
}

pub ghost struct RowView {
    pub cells: Seq<CellView>,
}

impl View for Row {
    type V = RowView;

    open spec fn view(&self) -> RowView {
        RowView { cells: self.cells.deep_view() }
    }
}

impl DeepView for Row {
    type V = RowView;

    open spec fn deep_view(&self) -> RowView {
        self.view()
    }
}

/// A base relation: its name, ordered column list (catalog attribute order),
/// primary-key column list, index definitions, foreign keys and stored rows.
pub struct Table {
    pub name: String,
    pub columns: Vec<Column>,
    pub primary_key: Vec<String>,
    /// The full definition statement of each index not backing the primary key.
    pub indexes: Vec<String>,
    pub foreign_keys: Vec<ForeignKey>,
    pub rows: Vec<Row>,
}

pub ghost struct TableView {
    pub name: Seq<char>,
    pub columns: Seq<ColumnView>,
    pub primary_key: Seq<Seq<char>>,
    pub indexes: Seq<Seq<char>>,
    pub foreign_keys: Seq<ForeignKeyView>,
    pub rows: Seq<RowView>,
}

impl View for Table {
    type V = TableView;

    open spec fn view(&self) -> TableView {
        TableView {
            name: self.name@,
            columns: self.columns.deep_view(),
            primary_key: self.primary_key.deep_view(),
            indexes: self.indexes.deep_view(),
            foreign_keys: self.foreign_keys.deep_view(),
            rows: self.rows.deep_view(),
        }
    }
}

impl DeepView for Table {
    type V = TableView;

    open spec fn deep_view(&self) -> TableView {
        self.view()
    }
}

/// Everything one dump run discovered about the schema: the enum types,
/// sequences and tables, each in the order the catalog returned them.
pub struct CatalogSnapshot {
    pub enum_types: Vec<EnumType>,
    pub sequences: Vec<SequenceObject>,
    pub tables: Vec<Table>,
}

pub ghost struct CatalogSnapshotView {
    pub enum_types: Seq<EnumTypeView>,
    pub sequences: Seq<SequenceObjectView>,
    pub tables: Seq<TableView>,
}

impl View for CatalogSnapshot {
    type V = CatalogSnapshotView;

    open spec fn view(&self) -> CatalogSnapshotView {
        CatalogSnapshotView {
            enum_types: self.enum_types.deep_view(),
            sequences: self.sequences.deep_view(),
            tables: self.tables.deep_view(),
        }
    }
}

} // verus!
