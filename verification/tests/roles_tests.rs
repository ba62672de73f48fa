use pg_dump::roles::{
    dump_users_and_roles_to, is_reserved_role, render_role, roles_to_emit, Role, RoleCatalog,
    SchemaGrant, TableGrant,
};
use pg_dump::sink::StatementSink;

fn bare_role(name: &str) -> Role {
    Role {
        name: String::from(name),
        superuser: false,
        inherit: false,
        create_role: false,
        create_db: false,
        can_login: false,
        replication: false,
        conn_limit: -1,
        member_of: Vec::new(),
        password_hash: None,
        comment: None,
        grants_inaccessible: false,
        schema_grants: Vec::new(),
        table_grants: Vec::new(),
    }
}

/// A catalog whose discovered set names every detail row once, so each
/// detail is rendered in detail order.
fn catalog_of(roles: Vec<Role>) -> RoleCatalog {
    let object_owners: Vec<String> = roles.iter().map(|r| r.name.clone()).collect();
    let first = match roles.first() {
        Some(r) => r.name.clone(),
        None => String::from("postgres"),
    };
    RoleCatalog {
        accessible: true,
        database_owner: first.clone(),
        current_principal: first,
        object_owners,
        roles,
    }
}

#[test]
fn every_flag_is_rendered_positive_or_negative() {
    let mut sink = StatementSink::new();
    render_role(&bare_role("bob"), &mut sink);
    assert_eq!(
        sink.lines[1],
        "CREATE ROLE bob NOSUPERUSER NOINHERIT NOCREATEROLE NOCREATEDB NOLOGIN NOREPLICATION;"
    );

    let mut admin = bare_role("admin");
    admin.superuser = true;
    admin.inherit = true;
    admin.create_role = true;
    admin.create_db = true;
    admin.can_login = true;
    admin.replication = true;
    admin.conn_limit = 5;
    let mut sink = StatementSink::new();
    render_role(&admin, &mut sink);
    assert_eq!(
        sink.lines[1],
        "CREATE ROLE admin SUPERUSER INHERIT CREATEROLE CREATEDB LOGIN REPLICATION \
         CONNECTION LIMIT 5;"
    );
}

#[test]
fn recognized_password_hash_is_re_emitted() {
    let mut r = bare_role("carol");
    r.password_hash = Some(String::from("md5d41d8cd98f00b204e9800998ecf8427e"));
    let mut sink = StatementSink::new();
    render_role(&r, &mut sink);
    assert_eq!(
        sink.lines[2],
        "ALTER ROLE carol WITH ENCRYPTED PASSWORD 'md5d41d8cd98f00b204e9800998ecf8427e';"
    );
}

#[test]
fn other_hash_scheme_is_omitted_silently() {
    let mut r = bare_role("dave");
    r.password_hash = Some(String::from("SCRAM-SHA-256$4096:salt"));
    let mut sink = StatementSink::new();
    render_role(&r, &mut sink);
    assert!(!sink.lines.iter().any(|l| l.starts_with("ALTER ROLE")));
}

#[test]
fn memberships_and_comment_are_rendered() {
    let mut r = bare_role("erin");
    r.member_of = vec![String::from("readers"), String::from("writers")];
    r.comment = Some(String::from("erin's account"));
    let mut sink = StatementSink::new();
    render_role(&r, &mut sink);
    assert_eq!(sink.lines[2], "GRANT readers, writers TO erin;");
    assert_eq!(sink.lines[3], "COMMENT ON ROLE erin IS 'erin''s account';");
}

#[test]
fn grants_are_rendered_per_schema_and_table() {
    let mut r = bare_role("frank");
    r.schema_grants = vec![SchemaGrant {
        schema: String::from("public"),
        privileges: vec![String::from("USAGE")],
    }];
    r.table_grants = vec![TableGrant {
        schema: String::from("public"),
        table: String::from("orders"),
        privileges: vec![String::from("SELECT"), String::from("INSERT")],
    }];
    let mut sink = StatementSink::new();
    render_role(&r, &mut sink);
    assert!(sink.lines.contains(&String::from("GRANT USAGE ON SCHEMA public TO frank;")));
    assert!(sink
        .lines
        .contains(&String::from("GRANT SELECT, INSERT ON TABLE public.orders TO frank;")));
}

#[test]
fn duplicate_grant_rows_are_merged() {
    let mut r = bare_role("gina");
    r.schema_grants = vec![
        SchemaGrant {
            schema: String::from("public"),
            privileges: vec![String::from("USAGE")],
        },
        SchemaGrant {
            schema: String::from("public"),
            privileges: vec![String::from("USAGE"), String::from("CREATE")],
        },
    ];
    r.table_grants = vec![
        TableGrant {
            schema: String::from("public"),
            table: String::from("orders"),
            privileges: vec![
                String::from("SELECT"),
                String::from("SELECT"),
                String::from("INSERT"),
            ],
        },
        TableGrant {
            schema: String::from("public"),
            table: String::from("orders"),
            privileges: vec![String::from("SELECT"), String::from("UPDATE")],
        },
    ];
    let mut sink = StatementSink::new();
    render_role(&r, &mut sink);
    let schema_lines: Vec<&String> = sink
        .lines
        .iter()
        .filter(|l| l.contains("ON SCHEMA public"))
        .collect();
    assert_eq!(schema_lines.len(), 1);
    assert_eq!(schema_lines[0], "GRANT USAGE, CREATE ON SCHEMA public TO gina;");
    let table_lines: Vec<&String> = sink
        .lines
        .iter()
        .filter(|l| l.contains("ON TABLE public.orders"))
        .collect();
    assert_eq!(table_lines.len(), 1);
    assert_eq!(
        table_lines[0],
        "GRANT SELECT, INSERT, UPDATE ON TABLE public.orders TO gina;"
    );
}

#[test]
fn unreadable_grants_become_a_warning() {
    let mut r = bare_role("hank");
    r.grants_inaccessible = true;
    let mut sink = StatementSink::new();
    render_role(&r, &mut sink);
    assert!(sink
        .lines
        .contains(&String::from("-- Warning: Could not retrieve privileges for role hank")));
    assert!(!sink.lines.iter().any(|l| l.contains(" ON SCHEMA ")));
    assert!(!sink.lines.iter().any(|l| l.contains(" ON TABLE ")));
}

#[test]
fn reserved_prefix_roles_never_reach_the_output() {
    let catalog = catalog_of(vec![
        bare_role("pg_monitor"),
        bare_role("alice"),
        bare_role("pg_signal_backend"),
        bare_role("pg_read_all_data"),
    ]);
    let mut sink = StatementSink::new();
    dump_users_and_roles_to(&catalog, &mut sink);
    let create_lines: Vec<&String> = sink
        .lines
        .iter()
        .filter(|l| l.starts_with("CREATE ROLE "))
        .collect();
    assert_eq!(create_lines.len(), 1);
    assert!(create_lines[0].starts_with("CREATE ROLE alice "));
    assert!(!sink.lines.iter().any(|l| l.contains("pg_monitor")));
    assert!(!sink.lines.iter().any(|l| l.contains("pg_signal_backend")));
    assert!(!sink.lines.iter().any(|l| l.contains("pg_read_all_data")));
    assert!(is_reserved_role("pg_monitor"));
    assert!(!is_reserved_role("alice"));
}

#[test]
fn inaccessible_introspection_yields_one_warning_and_success() {
    let catalog = RoleCatalog {
        accessible: false,
        database_owner: String::new(),
        current_principal: String::new(),
        object_owners: Vec::new(),
        roles: Vec::new(),
    };
    let mut sink = StatementSink::new();
    dump_users_and_roles_to(&catalog, &mut sink);
    assert_eq!(
        sink.lines,
        vec![
            String::from("-- Users, roles and permissions"),
            String::from(""),
            String::from(
                "-- Warning: No access to role information. Skipping user and role dump."
            ),
        ]
    );
    let warnings = sink
        .lines
        .iter()
        .filter(|l| l.starts_with("-- Warning:"))
        .count();
    assert_eq!(warnings, 1);
}

#[test]
fn rendered_role_set_is_the_discovered_union() {
    // The catalog details every role alphabetically, as the catalog query
    // returns them; only the discovered union is rendered, in order of first
    // discovery, and a detail row nothing discovered contributes nothing.
    let catalog = RoleCatalog {
        accessible: true,
        database_owner: String::from("alice"),
        current_principal: String::from("bob"),
        object_owners: vec![String::from("carol"), String::from("alice")],
        roles: vec![
            bare_role("alice"),
            bare_role("bob"),
            bare_role("carol"),
            bare_role("dave"),
        ],
    };
    let mut sink = StatementSink::new();
    dump_users_and_roles_to(&catalog, &mut sink);
    let create_names: Vec<&str> = sink
        .lines
        .iter()
        .filter(|l| l.starts_with("CREATE ROLE "))
        .map(|l| l["CREATE ROLE ".len()..].split(' ').next().unwrap())
        .collect();
    assert_eq!(create_names, vec!["alice", "bob", "carol"]);
    assert!(!sink.lines.iter().any(|l| l.contains("dave")));
}

#[test]
fn undetailed_discovered_name_is_skipped() {
    let catalog = RoleCatalog {
        accessible: true,
        database_owner: String::from("alice"),
        current_principal: String::from("ghost"),
        object_owners: Vec::new(),
        roles: vec![bare_role("alice")],
    };
    let mut sink = StatementSink::new();
    dump_users_and_roles_to(&catalog, &mut sink);
    let create_lines = sink
        .lines
        .iter()
        .filter(|l| l.starts_with("CREATE ROLE "))
        .count();
    assert_eq!(create_lines, 1);
    assert!(!sink.lines.iter().any(|l| l.contains("ghost")));
}

#[test]
fn role_set_keeps_first_discovery_order_without_duplicates() {
    let owner = String::from("alice");
    let principal = String::from("alice");
    let object_owners = vec![
        String::from("bob"),
        String::from("alice"),
        String::from("bob"),
        String::from("carol"),
    ];
    let emitted = roles_to_emit(&owner, &principal, &object_owners);
    assert_eq!(
        emitted,
        vec![String::from("alice"), String::from("bob"), String::from("carol")]
    );
}
