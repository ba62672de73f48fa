//! The schema serializer: renders session directives, enum types, sequences,
//! tables, constraints, indexes and row data, in dependency order, through
//! the statement sink.
//!
//! The fixed order per dump is: session-level formatting directives, then
//! enum types, then sequences, then — over all tables — a first pass of
//! `CREATE TABLE` statements, a second pass of index definitions and
//! foreign-key `ALTER TABLE ... ADD CONSTRAINT` statements (deferred so that
//! every referenced table already exists), and a third pass of one
//! `INSERT` statement per stored row.

use vstd::prelude::*;
use crate::catalog::CatalogSnapshot;
use crate::catalog::CatalogSnapshotView;
use crate::catalog::Column;
use crate::catalog::ColumnView;
use crate::catalog::EnumType;
use crate::catalog::EnumTypeView;
use crate::catalog::ForeignKey;
use crate::catalog::ForeignKeyView;
use crate::catalog::Row;
use crate::catalog::RowView;
use crate::catalog::SequenceObject;
use crate::catalog::SequenceObjectView;
use crate::catalog::Table;
use crate::catalog::TableView;
use crate::encode::encode_cell;
use crate::encode::encoded_cell;
use crate::encode::marker_type;
use crate::encode::CellValue;
use crate::encode::CellView;
use crate::sink::StatementSink;
use crate::text::contains_chars;
use crate::text::contains_text;
use crate::text::chars_of;
use crate::text::i64_to_dec;
use crate::text::i32_to_dec;
use crate::text::int_rep;
use crate::text::join_with;
use crate::text::joined;
use crate::text::quote_escaped;
use crate::text::quoted;

verus! {

// ---------------------------------------------------------------------------
// Session-level formatting directives.
// ---------------------------------------------------------------------------

/// The session-level formatting directives that open the schema section.
pub open spec fn preamble_lines() -> Seq<Seq<char>> {
    seq![
        "-- Tables, sequences, data types, and table data"@,
        "SET client_encoding = 'UTF8';"@,
        "SET standard_conforming_strings = on;"@,
        "SET check_function_bodies = false;"@,
        "SET client_min_messages = warning;"@,
        "SET search_path = public, pg_catalog;"@,
        ""@,
    ]
}

fn write_preamble(sink: &mut StatementSink)
    ensures
        final(sink)@ == old(sink)@ + preamble_lines(),
{
    sink.write_str("-- Tables, sequences, data types, and table data");
    sink.write_str("SET client_encoding = 'UTF8';");
    sink.write_str("SET standard_conforming_strings = on;");
    sink.write_str("SET check_function_bodies = false;");
    sink.write_str("SET client_min_messages = warning;");
    sink.write_str("SET search_path = public, pg_catalog;");
    sink.write_str("");
    proof {
        assert(sink@ =~= old(sink)@ + preamble_lines());
    }
}

// ---------------------------------------------------------------------------
// Enum types.
// ---------------------------------------------------------------------------

/// The `CREATE TYPE ... AS ENUM (...)` statement for one enum type, each
/// label quoted.
pub open spec fn create_type_line(t: EnumTypeView) -> Seq<char> {
    "CREATE TYPE "@ + t.name + " AS ENUM ("@ + joined(
        t.labels.map_values(|l: Seq<char>| quoted(l)),
        ", "@,
    ) + ");"@
}

/// The lines emitted for one enum type: a comment, then the statement — or a
/// warning comment when no labels are retrievable — then a blank line.
pub open spec fn enum_type_lines(t: EnumTypeView) -> Seq<Seq<char>> {
    seq!["-- Custom Type: "@ + t.name] + (if t.labels.len() > 0 {
        seq![create_type_line(t)]
    } else {
        seq!["-- Warning: Could not retrieve enum values for type "@ + t.name]
    }) + seq![""@]
}

/// The whole enum-type section, one type after the other in catalog order.
pub open spec fn enum_section(ts: Seq<EnumTypeView>) -> Seq<Seq<char>>
    decreases ts.len(),
{
    if ts.len() == 0 {
        Seq::empty()
    } else {
        enum_section(ts.drop_last()) + enum_type_lines(ts.last())
    }
}

fn quote_all(labels: &Vec<String>) -> (r: Vec<String>)
    ensures
        r.deep_view() == labels.deep_view().map_values(|l: Seq<char>| quoted(l)),
{
    let ghost dv = labels.deep_view();
    let ghost target = dv.map_values(|l: Seq<char>| quoted(l));
    let mut r: Vec<String> = Vec::new();
    let mut i: usize = 0;
    while i < labels.len()
        invariant
            i <= labels.len(),
            dv == labels.deep_view(),
            target == dv.map_values(|l: Seq<char>| quoted(l)),
            dv.len() == labels@.len(),
            forall|k: int| 0 <= k < labels@.len() ==> dv[k] == labels@[k]@,
            r.deep_view() =~= target.take(i as int),
        decreases labels.len() - i,
    {
        let ghost before = r.deep_view();
        let q = quote_escaped(labels[i].as_str());
        let ghost qv = q@;
        r.push(q);
        proof {
            assert(r.deep_view() =~= before.push(qv));
            assert(qv == target[i as int]);
            assert(before.push(qv) =~= target.take(i + 1));
        }
        i = i + 1;
    }
    proof {
        assert(target.take(dv.len() as int) =~= target);
    }
    r
}

/// Renders one enum type: its comment line, its `CREATE TYPE` statement (or a
/// warning comment when it has no labels), and a closing blank line.
pub fn render_enum_type(t: &EnumType, sink: &mut StatementSink)
    ensures
        final(sink)@ == old(sink)@ + enum_type_lines(t@),
{
    let mut comment = String::new();
    comment.append("-- Custom Type: ");
    comment.append(t.name.as_str());
    sink.write_line(comment);
    if t.labels.len() > 0 {
        let quoted_labels = quote_all(&t.labels);
        let label_list = join_with(&quoted_labels, ", ");
        let mut line = String::new();
        line.append("CREATE TYPE ");
        line.append(t.name.as_str());
        line.append(" AS ENUM (");
        line.append(label_list.as_str());
        line.append(");");
        proof {
            assert(line@ =~= create_type_line(t@));
        }
        sink.write_line(line);
    } else {
        let mut warn = String::new();
        warn.append("-- Warning: Could not retrieve enum values for type ");
        warn.append(t.name.as_str());
        sink.write_line(warn);
    }
    sink.write_str("");
    proof {
        assert(sink@ =~= old(sink)@ + enum_type_lines(t@));
    }
}

// ---------------------------------------------------------------------------
// Sequences.
// ---------------------------------------------------------------------------

/// The `CREATE SEQUENCE` statement for one sequence.
pub open spec fn create_sequence_line(s: SequenceObjectView) -> Seq<char> {
    "CREATE SEQUENCE "@ + s.name + " START WITH "@ + int_rep(s.parameters.start)
        + " INCREMENT BY "@ + int_rep(s.parameters.increment) + " MINVALUE "@ + int_rep(
        s.parameters.min_value,
    ) + " MAXVALUE "@ + int_rep(s.parameters.max_value) + ";"@
}

/// The lines emitted for one sequence: a comment, the statement, a blank line.
pub open spec fn sequence_lines(s: SequenceObjectView) -> Seq<Seq<char>> {
    seq!["-- Sequence: "@ + s.name, create_sequence_line(s), ""@]
}

/// The whole sequence section, one sequence after the other in catalog order.
pub open spec fn sequence_section(ss: Seq<SequenceObjectView>) -> Seq<Seq<char>>
    decreases ss.len(),
{
    if ss.len() == 0 {
        Seq::empty()
    } else {
        sequence_section(ss.drop_last()) + sequence_lines(ss.last())
    }
}

/// Renders one sequence: its comment line, its `CREATE SEQUENCE` statement
/// and a closing blank line.
pub fn render_sequence(s: &SequenceObject, sink: &mut StatementSink)
    ensures
        final(sink)@ == old(sink)@ + sequence_lines(s@),
{
    let mut comment = String::new();
    comment.append("-- Sequence: ");
    comment.append(s.name.as_str());
    sink.write_line(comment);
    let start = i64_to_dec(s.parameters.start);
    let increment = i64_to_dec(s.parameters.increment);
    let min_value = i64_to_dec(s.parameters.min_value);
    let max_value = i64_to_dec(s.parameters.max_value);
    let mut line = String::new();
    line.append("CREATE SEQUENCE ");
    line.append(s.name.as_str());
    line.append(" START WITH ");
    line.append(start.as_str());
    line.append(" INCREMENT BY ");
    line.append(increment.as_str());
    line.append(" MINVALUE ");
    line.append(min_value.as_str());
    line.append(" MAXVALUE ");
    line.append(max_value.as_str());
    line.append(";");
    proof {
        assert(line@ =~= create_sequence_line(s@));
    }
    sink.write_line(line);
    sink.write_str("");
    proof {
        assert(sink@ =~= old(sink)@ + sequence_lines(s@));
    }
}

// ---------------------------------------------------------------------------
// Tables, first pass: CREATE TABLE statements.
// ---------------------------------------------------------------------------

/// The rendered type of one column: `varchar(n)` or `char(n)` when the
/// declared type is a character type with a declared maximum length, the
/// declared type text itself otherwise.
pub open spec fn column_type_text(c: ColumnView) -> Seq<char> {
    match c.max_length {
        Some(n) => if contains_text(c.data_type, "character varying"@) {
            "varchar("@ + int_rep(n) + ")"@
        } else if contains_text(c.data_type, "character"@) {
            "char("@ + int_rep(n) + ")"@
        } else {
            c.data_type
        },
        None => c.data_type,
    }
}

/// One column definition entry: indented name, type, `NOT NULL` when the
/// column is not nullable, and the default expression when one is declared.
pub open spec fn column_def_text(c: ColumnView) -> Seq<char> {
    "  "@ + c.name + " "@ + column_type_text(c) + (if c.not_null {
        " NOT NULL"@
    } else {
        Seq::<char>::empty()
    }) + (match c.default_expr {
        Some(e) => " DEFAULT "@ + e,
        None => Seq::<char>::empty(),
    })
}

/// The primary-key entry closing a column list.
pub open spec fn primary_key_entry_text(t: TableView) -> Seq<char> {
    "  PRIMARY KEY ("@ + joined(t.primary_key, ", "@) + ")"@
}

/// The entries of a `CREATE TABLE` body: one per column, in catalog attribute
/// order, then the primary-key entry when a primary key exists.
pub open spec fn column_def_entries(t: TableView) -> Seq<Seq<char>> {
    t.columns.map_values(|c: ColumnView| column_def_text(c)) + (if t.primary_key.len() > 0 {
        seq![primary_key_entry_text(t)]
    } else {
        Seq::<Seq<char>>::empty()
    })
}

/// The body entries as lines: every entry but the last carries a trailing
/// comma.
pub open spec fn body_lines(entries: Seq<Seq<char>>) -> Seq<Seq<char>> {
    Seq::new(
        entries.len(),
        |i: int|
            if i + 1 < entries.len() {
                entries[i] + ","@
            } else {
                entries[i]
            },
    )
}

/// The opening line of a `CREATE TABLE` statement.
pub open spec fn create_table_header_line(t: TableView) -> Seq<char> {
    "CREATE TABLE "@ + t.name + " ("@
}

/// The lines emitted for one table in the first pass: a comment, the header,
/// the body entries, the closing parenthesis and a blank line.
pub open spec fn create_table_lines(t: TableView) -> Seq<Seq<char>> {
    seq!["-- Table: "@ + t.name, create_table_header_line(t)] + body_lines(column_def_entries(t))
        + seq![");"@, ""@]
}

/// The first pass over all tables.
pub open spec fn create_pass(ts: Seq<TableView>) -> Seq<Seq<char>>
    decreases ts.len(),
{
    if ts.len() == 0 {
        Seq::empty()
    } else {
        create_pass(ts.drop_last()) + create_table_lines(ts.last())
    }
}

fn column_type_fragment(c: &Column) -> (r: String)
    ensures
        r@ == column_type_text(c@),
{
    let dt = chars_of(c.data_type.as_str());
    let varying = chars_of("character varying");
    let fixed = chars_of("character");
    match c.max_length {
        Some(n) => {
            if contains_chars(&dt, &varying) {
                let mut r = String::new();
                r.append("varchar(");
                let num = i32_to_dec(n);
                r.append(num.as_str());
                r.append(")");
                proof {
                    assert(r@ =~= column_type_text(c@));
                }
                r
            } else if contains_chars(&dt, &fixed) {
                let mut r = String::new();
                r.append("char(");
                let num = i32_to_dec(n);
                r.append(num.as_str());
                r.append(")");
                proof {
                    assert(r@ =~= column_type_text(c@));
                }
                r
            } else {
                c.data_type.clone()
            }
        },
        None => c.data_type.clone(),
    }
}

fn column_def(c: &Column) -> (r: String)
    ensures
        r@ == column_def_text(c@),
{
    let mut r = String::new();
    r.append("  ");
    r.append(c.name.as_str());
    r.append(" ");
    let ty = column_type_fragment(c);
    r.append(ty.as_str());
    if c.not_null {
        r.append(" NOT NULL");
    }
    match &c.default_expr {
        Some(e) => {
            r.append(" DEFAULT ");
            r.append(e.as_str());
        },
        None => {},
    }
    proof {
        assert(r@ =~= column_def_text(c@));
    }
    r
}

fn table_body_entries(t: &Table) -> (r: Vec<String>)
    ensures
        r.deep_view() == column_def_entries(t@),
{
    let ghost target = column_def_entries(t@);
    let mut r: Vec<String> = Vec::new();
    let mut i: usize = 0;
    while i < t.columns.len()
        invariant
            i <= t.columns@.len(),
            target == column_def_entries(t@),
            t@.columns.len() == t.columns@.len(),
            forall|k: int| 0 <= k < t.columns@.len() ==> t@.columns[k] == t.columns@[k]@,
            r.deep_view() =~= t@.columns.map_values(|c: ColumnView| column_def_text(c)).take(
                i as int,
            ),
        decreases t.columns.len() - i,
    {
        let ghost before = r.deep_view();
        let d = column_def(&t.columns[i]);
        let ghost dvx = d@;
        r.push(d);
        proof {
            assert(r.deep_view() =~= before.push(dvx));
            assert(before.push(dvx) =~= t@.columns.map_values(
                |c: ColumnView| column_def_text(c),
            ).take(i + 1));
        }
        i = i + 1;
    }
    proof {
        let m = t@.columns.map_values(|c: ColumnView| column_def_text(c));
        assert(m.take(m.len() as int) =~= m);
    }
    if t.primary_key.len() > 0 {
        let pk_list = join_with(&t.primary_key, ", ");
        let mut entry = String::new();
        entry.append("  PRIMARY KEY (");
        entry.append(pk_list.as_str());
        entry.append(")");
        proof {
            assert(entry@ =~= primary_key_entry_text(t@));
        }
        let ghost before = r.deep_view();
        let ghost ev = entry@;
        r.push(entry);
        proof {
            assert(r.deep_view() =~= before.push(ev));
            assert(r.deep_view() =~= target);
        }
    } else {
        proof {
            assert(r.deep_view() =~= target);
        }
    }
    r
}

/// Renders one table's `CREATE TABLE` statement: comment, header, the column
/// definitions in catalog attribute order, the primary-key entry when one
/// exists, and the closing lines.
pub fn render_create_table(t: &Table, sink: &mut StatementSink)
    ensures
        final(sink)@ == old(sink)@ + create_table_lines(t@),
{
    let mut comment = String::new();
    comment.append("-- Table: ");
    comment.append(t.name.as_str());
    sink.write_line(comment);
    let mut header = String::new();
    header.append("CREATE TABLE ");
    header.append(t.name.as_str());
    header.append(" (");
    proof {
        assert(header@ =~= create_table_header_line(t@));
    }
    sink.write_line(header);
    let ghost opening = old(sink)@ + seq!["-- Table: "@ + t@.name, create_table_header_line(t@)];
    proof {
        assert(sink@ =~= opening);
    }
    let entries = table_body_entries(t);
    let ghost blines = body_lines(column_def_entries(t@));
    let n = entries.len();
    let mut i: usize = 0;
    while i < n
        invariant
            i <= n,
            n == entries@.len(),
            entries.deep_view() == column_def_entries(t@),
            blines == body_lines(column_def_entries(t@)),
            forall|k: int| 0 <= k < entries@.len() ==> entries.deep_view()[k] == entries@[k]@,
            sink@ =~= opening + blines.take(i as int),
        decreases n - i,
    {
        let mut line = entries[i].clone();
        if i + 1 < n {
            line.append(",");
        }
        proof {
            assert(line@ == blines[i as int]);
        }
        sink.write_line(line);
        proof {
            assert(sink@ =~= opening + blines.take(i + 1));
        }
        i = i + 1;
    }
    sink.write_str(");");
    sink.write_str("");
    proof {
        assert(blines.take(blines.len() as int) =~= blines);
        assert(sink@ =~= old(sink)@ + create_table_lines(t@));
    }
}

// ---------------------------------------------------------------------------
// Tables, second pass: index definitions and foreign-key constraints.
// ---------------------------------------------------------------------------

/// An index definition closed into a statement.
pub open spec fn index_line(def: Seq<char>) -> Seq<char> {
    def + ";"@
}

/// The `ALTER TABLE ... ADD CONSTRAINT ... FOREIGN KEY` statement for one
/// foreign key of the named table.
pub open spec fn foreign_key_line(table_name: Seq<char>, fk: ForeignKeyView) -> Seq<char> {
    "ALTER TABLE ONLY "@ + table_name + " ADD CONSTRAINT "@ + fk.constraint_name
        + " FOREIGN KEY ("@ + fk.column + ") REFERENCES "@ + fk.referenced_table + " ("@
        + fk.referenced_column + ") ON UPDATE "@ + fk.update_rule + " ON DELETE "@ + fk.delete_rule
        + ";"@
}

/// The lines emitted for one table in the second pass: its index statements,
/// its foreign-key statements, and a blank line.
pub open spec fn constraint_lines(t: TableView) -> Seq<Seq<char>> {
    t.indexes.map_values(|d: Seq<char>| index_line(d)) + t.foreign_keys.map_values(
        |fk: ForeignKeyView| foreign_key_line(t.name, fk),
    ) + seq![""@]
}

/// The second pass over all tables.
pub open spec fn constraint_pass(ts: Seq<TableView>) -> Seq<Seq<char>>
    decreases ts.len(),
{
    if ts.len() == 0 {
        Seq::empty()
    } else {
        constraint_pass(ts.drop_last()) + constraint_lines(ts.last())
    }
}

fn render_foreign_key(table_name: &String, fk: &ForeignKey) -> (r: String)
    ensures
        r@ == foreign_key_line(table_name@, fk@),
{
    let mut r = String::new();
    r.append("ALTER TABLE ONLY ");
    r.append(table_name.as_str());
    r.append(" ADD CONSTRAINT ");
    r.append(fk.constraint_name.as_str());
    r.append(" FOREIGN KEY (");
    r.append(fk.column.as_str());
    r.append(") REFERENCES ");
    r.append(fk.referenced_table.as_str());
    r.append(" (");
    r.append(fk.referenced_column.as_str());
    r.append(") ON UPDATE ");
    r.append(fk.update_rule.as_str());
    r.append(" ON DELETE ");
    r.append(fk.delete_rule.as_str());
    r.append(";");
    proof {
        assert(r@ =~= foreign_key_line(table_name@, fk@));
    }
    r
}

/// Renders one table's second-pass statements: its index definitions, then
/// its foreign-key constraints, then a blank line.
pub fn render_table_constraints(t: &Table, sink: &mut StatementSink)
    ensures
        final(sink)@ == old(sink)@ + constraint_lines(t@),
{
    let ghost idx_lines = t@.indexes.map_values(|d: Seq<char>| index_line(d));
    let ghost fk_lines = t@.foreign_keys.map_values(
        |fk: ForeignKeyView| foreign_key_line(t@.name, fk),
    );
    let mut i: usize = 0;
    while i < t.indexes.len()
        invariant
            i <= t.indexes@.len(),
            idx_lines == t@.indexes.map_values(|d: Seq<char>| index_line(d)),
            t@.indexes.len() == t.indexes@.len(),
            forall|k: int| 0 <= k < t.indexes@.len() ==> t@.indexes[k] == t.indexes@[k]@,
            sink@ =~= old(sink)@ + idx_lines.take(i as int),
        decreases t.indexes.len() - i,
    {
        let mut line = t.indexes[i].clone();
        line.append(";");
        proof {
            assert(line@ == idx_lines[i as int]);
        }
        sink.write_line(line);
        proof {
            assert(sink@ =~= old(sink)@ + idx_lines.take(i + 1));
        }
        i = i + 1;
    }
    proof {
        assert(idx_lines.take(idx_lines.len() as int) =~= idx_lines);
    }
    let mut j: usize = 0;
    while j < t.foreign_keys.len()
        invariant
            j <= t.foreign_keys@.len(),
            idx_lines == t@.indexes.map_values(|d: Seq<char>| index_line(d)),
            fk_lines == t@.foreign_keys.map_values(
                |fk: ForeignKeyView| foreign_key_line(t@.name, fk),
            ),
            t@.foreign_keys.len() == t.foreign_keys@.len(),
            forall|k: int|
                0 <= k < t.foreign_keys@.len() ==> t@.foreign_keys[k] == t.foreign_keys@[k]@,
            sink@ =~= old(sink)@ + idx_lines + fk_lines.take(j as int),
        decreases t.foreign_keys.len() - j,
    {
        let line = render_foreign_key(&t.name, &t.foreign_keys[j]);
        proof {
            assert(line@ == fk_lines[j as int]);
        }
        sink.write_line(line);
        proof {
            assert(sink@ =~= old(sink)@ + idx_lines + fk_lines.take(j + 1));
        }
        j = j + 1;
    }
    sink.write_str("");
    proof {
        assert(fk_lines.take(fk_lines.len() as int) =~= fk_lines);
        assert(sink@ =~= old(sink)@ + constraint_lines(t@));
    }
}

// ---------------------------------------------------------------------------
// Tables, third pass: row data.
// ---------------------------------------------------------------------------

/// The cell a row holds at a column position; a position past the row's end
/// counts as a cell no representation accepted.
pub open spec fn cell_at(r: RowView, i: int) -> CellView {
    if 0 <= i < r.cells.len() {
        r.cells[i]
    } else {
        CellView::Unrepresentable
    }
}

/// The encoded value list of one row: one literal fragment per table column,
/// in catalog attribute order, each encoded under that column's declared type.
pub open spec fn row_values(t: TableView, r: RowView) -> Seq<Seq<char>> {
    Seq::new(
        t.columns.len(),
        |i: int| encoded_cell(cell_at(r, i), marker_type(t.columns[i].data_type)),
    )
}

/// The column name list of a table, in catalog attribute order.
pub open spec fn column_name_list(t: TableView) -> Seq<char> {
    joined(t.columns.map_values(|c: ColumnView| c.name), ", "@)
}

/// The `INSERT` statement for one row: the column list and the value list
/// both follow the table's catalog attribute order.
pub open spec fn insert_line(t: TableView, r: RowView) -> Seq<char> {
    "INSERT INTO "@ + t.name + " ("@ + column_name_list(t) + ") VALUES ("@ + joined(
        row_values(t, r),
        ", "@,
    ) + ");"@
}

/// The lines emitted for one table in the third pass: a comment, one `INSERT`
/// statement per stored row, and a blank line. A table with zero columns is
/// skipped for data emission.
pub open spec fn table_data_lines(t: TableView) -> Seq<Seq<char>> {
    if t.columns.len() == 0 {
        Seq::empty()
    } else {
        seq!["-- Data for table: "@ + t.name] + t.rows.map_values(|r: RowView| insert_line(t, r))
            + seq![""@]
    }
}

/// The third pass over all tables.
pub open spec fn data_pass(ts: Seq<TableView>) -> Seq<Seq<char>>
    decreases ts.len(),
{
    if ts.len() == 0 {
        Seq::empty()
    } else {
        data_pass(ts.drop_last()) + table_data_lines(ts.last())
    }
}

fn column_names(t: &Table) -> (r: Vec<String>)
    ensures
        r.deep_view() == t@.columns.map_values(|c: ColumnView| c.name),
{
    let ghost target = t@.columns.map_values(|c: ColumnView| c.name);
    let mut r: Vec<String> = Vec::new();
    let mut i: usize = 0;
    while i < t.columns.len()
        invariant
            i <= t.columns@.len(),
            target == t@.columns.map_values(|c: ColumnView| c.name),
            t@.columns.len() == t.columns@.len(),
            forall|k: int| 0 <= k < t.columns@.len() ==> t@.columns[k] == t.columns@[k]@,
            r.deep_view() =~= target.take(i as int),
        decreases t.columns.len() - i,
    {
        let ghost before = r.deep_view();
        let name = t.columns[i].name.clone();
        let ghost nv = name@;
        r.push(name);
        proof {
            assert(r.deep_view() =~= before.push(nv));
            assert(before.push(nv) =~= target.take(i + 1));
        }
        i = i + 1;
    }
    proof {
        assert(target.take(target.len() as int) =~= target);
    }
    r
}

fn encoded_row_values(t: &Table, row: &Row) -> (r: Vec<String>)
    ensures
        r.deep_view() == row_values(t@, row@),
{
    let ghost target = row_values(t@, row@);
    let mut r: Vec<String> = Vec::new();
    let mut i: usize = 0;
    while i < t.columns.len()
        invariant
            i <= t.columns@.len(),
            target == row_values(t@, row@),
            t@.columns.len() == t.columns@.len(),
            forall|k: int| 0 <= k < t.columns@.len() ==> t@.columns[k] == t.columns@[k]@,
            row@.cells.len() == row.cells@.len(),
            forall|k: int| 0 <= k < row.cells@.len() ==> row@.cells[k] == row.cells@[k]@,
            r.deep_view() =~= target.take(i as int),
        decreases t.columns.len() - i,
    {
        let ghost before = r.deep_view();
        let val = if i < row.cells.len() {
            encode_cell(&row.cells[i], t.columns[i].data_type.as_str())
        } else {
            encode_cell(&CellValue::Unrepresentable, t.columns[i].data_type.as_str())
        };
        let ghost vv = val@;
        r.push(val);
        proof {
            assert(vv == target[i as int]);
            assert(r.deep_view() =~= before.push(vv));
            assert(before.push(vv) =~= target.take(i + 1));
        }
        i = i + 1;
    }
    proof {
        assert(target.take(target.len() as int) =~= target);
    }
    r
}

/// Renders the `INSERT` statement for one row. The column list and the value
/// list both follow the order of the table's column list.
pub fn render_insert(t: &Table, row: &Row) -> (r: String)
    ensures
        r@ == insert_line(t@, row@),
{
    let names = column_names(t);
    let name_list = join_with(&names, ", ");
    let values = encoded_row_values(t, row);
    let value_list = join_with(&values, ", ");
    let mut r = String::new();
    r.append("INSERT INTO ");
    r.append(t.name.as_str());
    r.append(" (");
    r.append(name_list.as_str());
    r.append(") VALUES (");
    r.append(value_list.as_str());
    r.append(");");
    proof {
        assert(r@ =~= insert_line(t@, row@));
    }
    r
}

/// Renders one table's data: a comment, one `INSERT` statement per stored
/// row, and a blank line. A table with zero columns is skipped.
pub fn render_table_data(t: &Table, sink: &mut StatementSink)
    ensures
        final(sink)@ == old(sink)@ + table_data_lines(t@),
{
    if t.columns.len() == 0 {
        proof {
            assert(sink@ =~= old(sink)@ + table_data_lines(t@));
        }
        return ;
    }
    let mut comment = String::new();
    comment.append("-- Data for table: ");
    comment.append(t.name.as_str());
    sink.write_line(comment);
    let ghost opening = old(sink)@ + seq!["-- Data for table: "@ + t@.name];
    let ghost ins_lines = t@.rows.map_values(|r: RowView| insert_line(t@, r));
    let mut i: usize = 0;
    while i < t.rows.len()
        invariant
            i <= t.rows@.len(),
            ins_lines == t@.rows.map_values(|r: RowView| insert_line(t@, r)),
            t@.rows.len() == t.rows@.len(),
            forall|k: int| 0 <= k < t.rows@.len() ==> t@.rows[k] == t.rows@[k]@,
            sink@ =~= opening + ins_lines.take(i as int),
        decreases t.rows.len() - i,
    {
        let line = render_insert(t, &t.rows[i]);
        proof {
            assert(line@ == ins_lines[i as int]);
        }
        sink.write_line(line);
        proof {
            assert(sink@ =~= opening + ins_lines.take(i + 1));
        }
        i = i + 1;
    }
    sink.write_str("");
    proof {
        assert(ins_lines.take(ins_lines.len() as int) =~= ins_lines);
        assert(sink@ =~= old(sink)@ + table_data_lines(t@));
    }
}

// ---------------------------------------------------------------------------
// The whole schema section.
// ---------------------------------------------------------------------------

/// Every line of the schema section of a dump, in order: the session
/// directives, the enum types, the sequences, then the three passes over the
/// tables.
pub open spec fn schema_section(s: CatalogSnapshotView) -> Seq<Seq<char>> {
    preamble_lines() + enum_section(s.enum_types) + sequence_section(s.sequences) + create_pass(
        s.tables,
    ) + constraint_pass(s.tables) + data_pass(s.tables)
}

/// Serializes the whole schema section of the snapshot through the sink:
/// session directives, enum types, sequences, then the `CREATE TABLE` pass,
/// the constraint pass and the data pass over all tables, in that fixed
/// order, with no reordering, buffering or deduplication across tables.
pub fn dump_tables_to(snapshot: &CatalogSnapshot, sink: &mut StatementSink)
    ensures
        final(sink)@ == old(sink)@ + schema_section(snapshot@),
{
    write_preamble(sink);
    let ghost ets = snapshot@.enum_types;
    let mut i: usize = 0;
    while i < snapshot.enum_types.len()
        invariant
            i <= snapshot.enum_types@.len(),
            ets == snapshot@.enum_types,
            ets.len() == snapshot.enum_types@.len(),
            forall|k: int|
                0 <= k < snapshot.enum_types@.len() ==> ets[k] == snapshot.enum_types@[k]@,
            sink@ =~= old(sink)@ + preamble_lines() + enum_section(ets.take(i as int)),
        decreases snapshot.enum_types.len() - i,
    {
        render_enum_type(&snapshot.enum_types[i], sink);
        proof {
            let x = ets.take(i + 1);
            assert(x.drop_last() =~= ets.take(i as int));
            assert(x.last() == ets[i as int]);
            assert(sink@ =~= old(sink)@ + preamble_lines() + enum_section(x));
        }
        i = i + 1;
    }
    proof {
        assert(ets.take(ets.len() as int) =~= ets);
    }
    let ghost sqs = snapshot@.sequences;
    let ghost base1 = old(sink)@ + preamble_lines() + enum_section(ets);
    let mut i: usize = 0;
    while i < snapshot.sequences.len()
        invariant
            i <= snapshot.sequences@.len(),
            sqs == snapshot@.sequences,
            sqs.len() == snapshot.sequences@.len(),
            forall|k: int|
                0 <= k < snapshot.sequences@.len() ==> sqs[k] == snapshot.sequences@[k]@,
            sink@ =~= base1 + sequence_section(sqs.take(i as int)),
        decreases snapshot.sequences.len() - i,
    {
        render_sequence(&snapshot.sequences[i], sink);
        proof {
            let x = sqs.take(i + 1);
            assert(x.drop_last() =~= sqs.take(i as int));
            assert(x.last() == sqs[i as int]);
            assert(sink@ =~= base1 + sequence_section(x));
        }
        i = i + 1;
    }
    proof {
        assert(sqs.take(sqs.len() as int) =~= sqs);
    }
    let ghost tbs = snapshot@.tables;
    let ghost base2 = base1 + sequence_section(sqs);
    let mut i: usize = 0;
    while i < snapshot.tables.len()
        invariant
            i <= snapshot.tables@.len(),
            tbs == snapshot@.tables,
            tbs.len() == snapshot.tables@.len(),
            forall|k: int| 0 <= k < snapshot.tables@.len() ==> tbs[k] == snapshot.tables@[k]@,
            sink@ =~= base2 + create_pass(tbs.take(i as int)),
        decreases snapshot.tables.len() - i,
    {
        render_create_table(&snapshot.tables[i], sink);
        proof {
            let x = tbs.take(i + 1);
            assert(x.drop_last() =~= tbs.take(i as int));
            assert(x.last() == tbs[i as int]);
            assert(sink@ =~= base2 + create_pass(x));
        }
        i = i + 1;
    }
    let ghost base3 = base2 + create_pass(tbs);
    proof {
        assert(tbs.take(tbs.len() as int) =~= tbs);
        assert(sink@ =~= base3);
    }
    let mut i: usize = 0;
    while i < snapshot.tables.len()
        invariant
            i <= snapshot.tables@.len(),
            tbs == snapshot@.tables,
            tbs.len() == snapshot.tables@.len(),
            forall|k: int| 0 <= k < snapshot.tables@.len() ==> tbs[k] == snapshot.tables@[k]@,
            sink@ =~= base3 + constraint_pass(tbs.take(i as int)),
        decreases snapshot.tables.len() - i,
    {
        render_table_constraints(&snapshot.tables[i], sink);
        proof {
            let x = tbs.take(i + 1);
            assert(x.drop_last() =~= tbs.take(i as int));
            assert(x.last() == tbs[i as int]);
            assert(sink@ =~= base3 + constraint_pass(x));
        }
        i = i + 1;
    }
    let ghost base4 = base3 + constraint_pass(tbs);
    proof {
        assert(tbs.take(tbs.len() as int) =~= tbs);
        assert(sink@ =~= base4);
    }
    let mut i: usize = 0;
    while i < snapshot.tables.len()
        invariant
            i <= snapshot.tables@.len(),
            tbs == snapshot@.tables,
            tbs.len() == snapshot.tables@.len(),
            forall|k: int| 0 <= k < snapshot.tables@.len() ==> tbs[k] == snapshot.tables@[k]@,
            sink@ =~= base4 + data_pass(tbs.take(i as int)),
        decreases snapshot.tables.len() - i,
    {
        render_table_data(&snapshot.tables[i], sink);
        proof {
            let x = tbs.take(i + 1);
            assert(x.drop_last() =~= tbs.take(i as int));
            assert(x.last() == tbs[i as int]);
            assert(sink@ =~= base4 + data_pass(x));
        }
        i = i + 1;
    }
    proof {
        assert(tbs.take(tbs.len() as int) =~= tbs);
        assert(sink@ =~= old(sink)@ + schema_section(snapshot@));
    }
}

/// The column list and the value list of an `INSERT` statement follow one and
/// the same order — the table's catalog attribute order: there is one value
/// per column, and the value at each position is the encoding of the row's
/// cell at that position under that column's declared type.
pub proof fn lemma_insert_orders_match(t: TableView, r: RowView)
    ensures
        row_values(t, r).len() == t.columns.len(),
        forall|i: int|
            0 <= i < t.columns.len() ==> row_values(t, r)[i] == encoded_cell(
                cell_at(r, i),
                marker_type(t.columns[i].data_type),
            ),
        insert_line(t, r) == "INSERT INTO "@ + t.name + " ("@ + joined(
            t.columns.map_values(|c: ColumnView| c.name),
            ", "@,
        ) + ") VALUES ("@ + joined(row_values(t, r), ", "@) + ");"@,
{
}

// ---------------------------------------------------------------------------
// Statement ordering.
// ---------------------------------------------------------------------------

proof fn lemma_create_pass_covers(ts: Seq<TableView>, k: int)
    requires
        0 <= k < ts.len(),
    ensures
        exists|i: int|
            0 <= i < create_pass(ts).len() && create_pass(ts)[i] == create_table_header_line(
                ts[k],
            ),
    decreases ts.len(),
{
    let pre = create_pass(ts.drop_last());
    let lines = create_table_lines(ts.last());
    if k == ts.len() - 1 {
        assert(lines[1] == create_table_header_line(ts.last()));
        assert(create_pass(ts)[pre.len() as int + 1] == create_table_header_line(ts[k]));
    } else {
        lemma_create_pass_covers(ts.drop_last(), k);
        let i = choose|i: int|
            0 <= i < pre.len() && pre[i] == create_table_header_line(ts.drop_last()[k]);
        assert(ts.drop_last()[k] == ts[k]);
        assert(create_pass(ts)[i] == create_table_header_line(ts[k]));
    }
}

proof fn lemma_constraint_pass_covers(ts: Seq<TableView>, k: int, fki: int)
    requires
        0 <= k < ts.len(),
        0 <= fki < ts[k].foreign_keys.len(),
    ensures
        exists|j: int|
            0 <= j < constraint_pass(ts).len() && constraint_pass(ts)[j] == foreign_key_line(
                ts[k].name,
                ts[k].foreign_keys[fki],
            ),
    decreases ts.len(),
{
    let pre = constraint_pass(ts.drop_last());
    if k == ts.len() - 1 {
        let t = ts.last();
        let lines = constraint_lines(t);
        let j0 = t.indexes.len() + fki;
        assert(lines[j0] == foreign_key_line(t.name, t.foreign_keys[fki]));
        assert(constraint_pass(ts)[pre.len() as int + j0] == foreign_key_line(
            ts[k].name,
            ts[k].foreign_keys[fki],
        ));
    } else {
        lemma_constraint_pass_covers(ts.drop_last(), k, fki);
        let j = choose|j: int|
            0 <= j < pre.len() && pre[j] == foreign_key_line(
                ts.drop_last()[k].name,
                ts.drop_last()[k].foreign_keys[fki],
            );
        assert(ts.drop_last()[k] == ts[k]);
        assert(constraint_pass(ts)[j] == foreign_key_line(ts[k].name, ts[k].foreign_keys[fki]));
    }
}

proof fn lemma_data_pass_covers(ts: Seq<TableView>, k: int, ri: int)
    requires
        0 <= k < ts.len(),
        0 <= ri < ts[k].rows.len(),
        ts[k].columns.len() > 0,
    ensures
        exists|j: int|
            0 <= j < data_pass(ts).len() && data_pass(ts)[j] == insert_line(ts[k], ts[k].rows[ri]),
    decreases ts.len(),
{
    let pre = data_pass(ts.drop_last());
    if k == ts.len() - 1 {
        let t = ts.last();
        let lines = table_data_lines(t);
        let j0 = 1 + ri;
        assert(t.rows.map_values(|r: RowView| insert_line(t, r))[ri] == insert_line(t, t.rows[ri]));
        assert(lines[j0] == insert_line(t, t.rows[ri]));
        assert(data_pass(ts)[pre.len() as int + j0] == insert_line(ts[k], ts[k].rows[ri]));
    } else {
        lemma_data_pass_covers(ts.drop_last(), k, ri);
        let j = choose|j: int|
            0 <= j < pre.len() && pre[j] == insert_line(
                ts.drop_last()[k],
                ts.drop_last()[k].rows[ri],
            );
        assert(ts.drop_last()[k] == ts[k]);
        assert(data_pass(ts)[j] == insert_line(ts[k], ts[k].rows[ri]));
    }
}

/// Schema-before-data ordering: a table's `CREATE TABLE` statement appears in
/// the schema section before every `INSERT` statement carrying its rows.
pub proof fn lemma_table_created_before_its_data(s: CatalogSnapshotView, ti: int, ri: int)
    requires
        0 <= ti < s.tables.len(),
        0 <= ri < s.tables[ti].rows.len(),
        s.tables[ti].columns.len() > 0,
    ensures
        exists|i: int, j: int|
            0 <= i < j < schema_section(s).len() && schema_section(s)[i]
                == create_table_header_line(s.tables[ti]) && schema_section(s)[j] == insert_line(
                s.tables[ti],
                s.tables[ti].rows[ri],
            ),
{
    let pre = preamble_lines() + enum_section(s.enum_types) + sequence_section(s.sequences);
    let cp = create_pass(s.tables);
    let ctp = constraint_pass(s.tables);
    let dp = data_pass(s.tables);
    let all = schema_section(s);
    assert(all =~= pre + cp + ctp + dp);
    lemma_create_pass_covers(s.tables, ti);
    let i0 = choose|i: int|
        0 <= i < cp.len() && cp[i] == create_table_header_line(s.tables[ti]);
    lemma_data_pass_covers(s.tables, ti, ri);
    let j0 = choose|j: int|
        0 <= j < dp.len() && dp[j] == insert_line(s.tables[ti], s.tables[ti].rows[ri]);
    let i = pre.len() + i0;
    let j = pre.len() + cp.len() + ctp.len() + j0;
    assert(all[i] == cp[i0]);
    assert(all[j] == dp[j0]);
    assert(0 <= i < j < all.len() && all[i] == create_table_header_line(s.tables[ti]) && all[j]
        == insert_line(s.tables[ti], s.tables[ti].rows[ri]));
}

/// Statement ordering is stable: for any table whose foreign key references a
/// second table of the snapshot, the second table's `CREATE TABLE` statement
/// appears in the schema section before the first table's
/// `ALTER TABLE ... ADD CONSTRAINT` statement.
pub proof fn lemma_referenced_table_created_before_constraint(
    s: CatalogSnapshotView,
    ti: int,
    fki: int,
    ri: int,
)
    requires
        0 <= ti < s.tables.len(),
        0 <= fki < s.tables[ti].foreign_keys.len(),
        0 <= ri < s.tables.len(),
        s.tables[ri].name == s.tables[ti].foreign_keys[fki].referenced_table,
    ensures
        exists|i: int, j: int|
            0 <= i < j < schema_section(s).len() && schema_section(s)[i]
                == create_table_header_line(s.tables[ri]) && schema_section(s)[j]
                == foreign_key_line(s.tables[ti].name, s.tables[ti].foreign_keys[fki]),
{
    let pre = preamble_lines() + enum_section(s.enum_types) + sequence_section(s.sequences);
    let cp = create_pass(s.tables);
    let ctp = constraint_pass(s.tables);
    let dp = data_pass(s.tables);
    let all = schema_section(s);
    assert(all =~= pre + cp + ctp + dp);
    lemma_create_pass_covers(s.tables, ri);
    let i0 = choose|i: int|
        0 <= i < cp.len() && cp[i] == create_table_header_line(s.tables[ri]);
    lemma_constraint_pass_covers(s.tables, ti, fki);
    let j0 = choose|j: int|
        0 <= j < ctp.len() && ctp[j] == foreign_key_line(
            s.tables[ti].name,
            s.tables[ti].foreign_keys[fki],
        );
    let i = pre.len() + i0;
    let j = pre.len() + cp.len() + j0;
    assert(all[i] == cp[i0]);
    assert(all[j] == ctp[j0]);
    assert(0 <= i < j < all.len() && all[i] == create_table_header_line(s.tables[ri]) && all[j]
        == foreign_key_line(s.tables[ti].name, s.tables[ti].foreign_keys[fki]));
}

} // verus!
