use pg_dump::catalog::{
    sequence_parameters_or_defaults, CatalogSnapshot, Column, EnumType, ForeignKey, Row,
    SequenceObject, SequenceParameters, Table,
};
use pg_dump::dump::{dump_all_to, header_lines};
use pg_dump::encode::CellValue;
use pg_dump::roles::RoleCatalog;
use pg_dump::schema::{dump_tables_to, render_enum_type, render_insert, render_sequence, render_table_data};
use pg_dump::sink::StatementSink;

fn empty_role_catalog() -> RoleCatalog {
    RoleCatalog {
        accessible: true,
        database_owner: String::from("postgres"),
        current_principal: String::from("postgres"),
        object_owners: Vec::new(),
        roles: Vec::new(),
    }
}

fn plain_column(name: &str, data_type: &str) -> Column {
    Column {
        name: String::from(name),
        data_type: String::from(data_type),
        max_length: None,
        not_null: false,
        default_expr: None,
    }
}

#[test]
fn sequence_defaults_stand_in_for_a_failed_lookup() {
    let p = sequence_parameters_or_defaults(None);
    assert_eq!(p.start, 1);
    assert_eq!(p.increment, 1);
    assert_eq!(p.min_value, 1);
    assert_eq!(p.max_value, 2147483647);

    let seq = SequenceObject { name: String::from("order_id_seq"), parameters: p };
    let mut sink = StatementSink::new();
    render_sequence(&seq, &mut sink);
    assert_eq!(
        sink.lines[1],
        "CREATE SEQUENCE order_id_seq START WITH 1 INCREMENT BY 1 MINVALUE 1 MAXVALUE 2147483647;"
    );
}

#[test]
fn retrieved_sequence_parameters_are_kept() {
    let p = sequence_parameters_or_defaults(Some(SequenceParameters {
        start: 100,
        increment: 5,
        min_value: 10,
        max_value: 100000,
    }));
    let seq = SequenceObject { name: String::from("s"), parameters: p };
    let mut sink = StatementSink::new();
    render_sequence(&seq, &mut sink);
    assert_eq!(
        sink.lines[1],
        "CREATE SEQUENCE s START WITH 100 INCREMENT BY 5 MINVALUE 10 MAXVALUE 100000;"
    );
}

#[test]
fn enum_type_renders_its_labels_in_order() {
    let t = EnumType {
        name: String::from("mood"),
        labels: vec![String::from("sad"), String::from("ok"), String::from("happy")],
    };
    let mut sink = StatementSink::new();
    render_enum_type(&t, &mut sink);
    assert_eq!(sink.lines[0], "-- Custom Type: mood");
    assert_eq!(sink.lines[1], "CREATE TYPE mood AS ENUM ('sad', 'ok', 'happy');");
    assert_eq!(sink.lines[2], "");
}

#[test]
fn enum_type_without_labels_becomes_a_warning() {
    let t = EnumType { name: String::from("mystery"), labels: Vec::new() };
    let mut sink = StatementSink::new();
    render_enum_type(&t, &mut sink);
    assert_eq!(
        sink.lines[1],
        "-- Warning: Could not retrieve enum values for type mystery"
    );
}

#[test]
fn insert_lists_columns_and_values_in_catalog_order() {
    let table = Table {
        name: String::from("t"),
        columns: vec![
            plain_column("id", "integer"),
            plain_column("label", "text"),
            plain_column("seen", "boolean"),
        ],
        primary_key: Vec::new(),
        indexes: Vec::new(),
        foreign_keys: Vec::new(),
        rows: Vec::new(),
    };
    let row = Row {
        cells: vec![
            CellValue::Int32(7),
            CellValue::Text(String::from("x")),
            CellValue::Boolean(false),
        ],
    };
    assert_eq!(
        render_insert(&table, &row),
        "INSERT INTO t (id, label, seen) VALUES (7, 'x', FALSE);"
    );
}

#[test]
fn short_row_pads_missing_cells_with_null() {
    let table = Table {
        name: String::from("t"),
        columns: vec![plain_column("a", "integer"), plain_column("b", "integer")],
        primary_key: Vec::new(),
        indexes: Vec::new(),
        foreign_keys: Vec::new(),
        rows: Vec::new(),
    };
    let row = Row { cells: vec![CellValue::Int32(1)] };
    assert_eq!(render_insert(&table, &row), "INSERT INTO t (a, b) VALUES (1, NULL);");
}

#[test]
fn zero_column_table_is_skipped_for_data() {
    let table = Table {
        name: String::from("empty_shell"),
        columns: Vec::new(),
        primary_key: Vec::new(),
        indexes: Vec::new(),
        foreign_keys: Vec::new(),
        rows: Vec::new(),
    };
    let mut sink = StatementSink::new();
    render_table_data(&table, &mut sink);
    assert_eq!(sink.lines.len(), 0);
}

#[test]
fn varchar_and_char_lengths_are_rendered() {
    let table = Table {
        name: String::from("people"),
        columns: vec![
            Column {
                name: String::from("name"),
                data_type: String::from("character varying"),
                max_length: Some(40),
                not_null: true,
                default_expr: None,
            },
            Column {
                name: String::from("code"),
                data_type: String::from("character"),
                max_length: Some(2),
                not_null: false,
                default_expr: Some(String::from("'xx'::bpchar")),
            },
        ],
        primary_key: Vec::new(),
        indexes: Vec::new(),
        foreign_keys: Vec::new(),
        rows: Vec::new(),
    };
    let snapshot = CatalogSnapshot {
        enum_types: Vec::new(),
        sequences: Vec::new(),
        tables: vec![table],
    };
    let mut sink = StatementSink::new();
    dump_tables_to(&snapshot, &mut sink);
    let lines = &sink.lines;
    assert!(lines.contains(&String::from("  name varchar(40) NOT NULL,")));
    assert!(lines.contains(&String::from("  code char(2) DEFAULT 'xx'::bpchar")));
}

fn two_linked_tables() -> CatalogSnapshot {
    let orders = Table {
        name: String::from("orders"),
        columns: vec![plain_column("id", "integer"), plain_column("customer_id", "integer")],
        primary_key: vec![String::from("id")],
        indexes: vec![String::from(
            "CREATE INDEX orders_customer_idx ON orders (customer_id)",
        )],
        foreign_keys: vec![ForeignKey {
            constraint_name: String::from("orders_customer_fk"),
            column: String::from("customer_id"),
            referenced_table: String::from("customers"),
            referenced_column: String::from("id"),
            update_rule: String::from("NO ACTION"),
            delete_rule: String::from("CASCADE"),
        }],
        rows: Vec::new(),
    };
    let customers = Table {
        name: String::from("customers"),
        columns: vec![plain_column("id", "integer")],
        primary_key: vec![String::from("id")],
        indexes: Vec::new(),
        foreign_keys: Vec::new(),
        rows: Vec::new(),
    };
    CatalogSnapshot {
        enum_types: Vec::new(),
        sequences: Vec::new(),
        tables: vec![orders, customers],
    }
}

#[test]
fn referenced_table_is_created_before_the_constraint() {
    let snapshot = two_linked_tables();
    let mut sink = StatementSink::new();
    dump_tables_to(&snapshot, &mut sink);
    let lines = &sink.lines;
    let create_pos = lines
        .iter()
        .position(|l| l == "CREATE TABLE customers (")
        .expect("customers table must be created");
    let alter_pos = lines
        .iter()
        .position(|l| {
            l == "ALTER TABLE ONLY orders ADD CONSTRAINT orders_customer_fk FOREIGN KEY \
                  (customer_id) REFERENCES customers (id) ON UPDATE NO ACTION ON DELETE CASCADE;"
        })
        .expect("constraint must be emitted");
    assert!(create_pos < alter_pos);
    let index_pos = lines
        .iter()
        .position(|l| l == "CREATE INDEX orders_customer_idx ON orders (customer_id);")
        .expect("index must be emitted");
    assert!(create_pos < index_pos);
}

fn end_to_end_snapshot() -> CatalogSnapshot {
    let status = EnumType {
        name: String::from("status"),
        labels: vec![String::from("open"), String::from("closed")],
    };
    let orders = Table {
        name: String::from("orders"),
        columns: vec![
            Column {
                name: String::from("id"),
                data_type: String::from("integer"),
                max_length: None,
                not_null: true,
                default_expr: None,
            },
            plain_column("status", "status"),
            plain_column("note", "text"),
        ],
        primary_key: vec![String::from("id")],
        indexes: Vec::new(),
        foreign_keys: Vec::new(),
        rows: vec![Row {
            cells: vec![
                CellValue::Int32(1),
                CellValue::FallbackText(String::from("open")),
                CellValue::Absent,
            ],
        }],
    };
    CatalogSnapshot {
        enum_types: vec![status],
        sequences: Vec::new(),
        tables: vec![orders],
    }
}

#[test]
fn one_enum_one_table_one_row_end_to_end() {
    let snapshot = end_to_end_snapshot();
    let mut sink = StatementSink::new();
    dump_tables_to(&snapshot, &mut sink);
    let lines = &sink.lines;
    let type_pos = lines
        .iter()
        .position(|l| l == "CREATE TYPE status AS ENUM ('open', 'closed');")
        .expect("enum type statement");
    let table_pos = lines
        .iter()
        .position(|l| l == "CREATE TABLE orders (")
        .expect("table statement");
    let pk_pos = lines
        .iter()
        .position(|l| l == "  PRIMARY KEY (id)")
        .expect("primary key clause");
    let insert_pos = lines
        .iter()
        .position(|l| l == "INSERT INTO orders (id, status, note) VALUES (1, 'open', NULL);")
        .expect("insert statement");
    assert!(type_pos < table_pos);
    assert!(table_pos < pk_pos);
    assert!(pk_pos < insert_pos);
    assert_eq!(lines[table_pos + 1], "  id integer NOT NULL,");
    assert_eq!(lines[table_pos + 2], "  status status,");
    assert_eq!(lines[table_pos + 3], "  note text,");
}

#[test]
fn rendering_the_same_snapshot_twice_is_byte_identical() {
    let first = {
        let snapshot = end_to_end_snapshot();
        let catalog = empty_role_catalog();
        let mut sink = StatementSink::new();
        dump_all_to(&snapshot, &catalog, &mut sink);
        sink.lines
    };
    let second = {
        let snapshot = end_to_end_snapshot();
        let catalog = empty_role_catalog();
        let mut sink = StatementSink::new();
        dump_all_to(&snapshot, &catalog, &mut sink);
        sink.lines
    };
    assert_eq!(first, second);
    assert_eq!(first.join("\n"), second.join("\n"));
}

#[test]
fn preamble_directives_come_first_in_order() {
    let snapshot = CatalogSnapshot {
        enum_types: Vec::new(),
        sequences: Vec::new(),
        tables: Vec::new(),
    };
    let mut sink = StatementSink::new();
    dump_tables_to(&snapshot, &mut sink);
    assert_eq!(
        sink.lines,
        vec![
            String::from("-- Tables, sequences, data types, and table data"),
            String::from("SET client_encoding = 'UTF8';"),
            String::from("SET standard_conforming_strings = on;"),
            String::from("SET check_function_bodies = false;"),
            String::from("SET client_min_messages = warning;"),
            String::from("SET search_path = public, pg_catalog;"),
            String::from(""),
        ]
    );
}

#[test]
fn file_headers_name_database_and_host() {
    let h = header_lines("shopdb", "db.example.com", 5432);
    assert_eq!(h[0], "Database Dump for: shopdb");
    assert_eq!(h[1], "Host: db.example.com:5432");
    assert_eq!(h[2], "");
}

#[test]
fn role_section_follows_the_schema_section() {
    let snapshot = end_to_end_snapshot();
    let role = pg_dump::roles::Role {
        name: String::from("alice"),
        superuser: false,
        inherit: true,
        create_role: false,
        create_db: false,
        can_login: true,
        replication: false,
        conn_limit: -1,
        member_of: Vec::new(),
        password_hash: None,
        comment: None,
        grants_inaccessible: false,
        schema_grants: Vec::new(),
        table_grants: Vec::new(),
    };
    let catalog = RoleCatalog {
        accessible: true,
        database_owner: String::from("alice"),
        current_principal: String::from("alice"),
        object_owners: Vec::new(),
        roles: vec![role],
    };
    let mut sink = StatementSink::new();
    dump_all_to(&snapshot, &catalog, &mut sink);
    let lines = &sink.lines;
    let insert_pos = lines
        .iter()
        .position(|l| l.starts_with("INSERT INTO orders "))
        .expect("insert statement");
    let roles_pos = lines
        .iter()
        .position(|l| l == "-- Users, roles and permissions")
        .expect("role section header");
    let create_role_pos = lines
        .iter()
        .position(|l| l.starts_with("CREATE ROLE alice "))
        .expect("role statement");
    assert!(insert_pos < roles_pos);
    assert!(roles_pos < create_role_pos);
    assert_eq!(
        lines[create_role_pos],
        "CREATE ROLE alice NOSUPERUSER INHERIT NOCREATEROLE NOCREATEDB LOGIN NOREPLICATION;"
    );
}
