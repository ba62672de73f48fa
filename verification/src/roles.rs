//! The role serializer: reconstructs role and privilege state — role
//! attributes, password hashes when visible, memberships and grants —
//! tolerating missing privilege. The set of roles emitted is the union of the
//! database's owning role, the current querying principal and every
//! discovered object owner, deduplicated in order of first discovery. A role
//! whose name begins with the reserved internal prefix is never emitted.
//! Grant reconstruction is best-effort and deduplicated by (grantee, object,
//! privilege). When role introspection is entirely inaccessible the
//! serializer emits a single warning comment and returns successfully.

use vstd::prelude::*;
use crate::sink::StatementSink;
use crate::text::has_prefix;
use crate::text::i32_to_dec;
use crate::text::int_rep;
use crate::text::join_with;
use crate::text::joined;
use crate::text::quote_escaped;
use crate::text::quoted;
use crate::text::string_has_prefix;
use crate::text::string_text_eq;

verus! {

/// A privilege set granted to a role over a schema, as one discovered row.
pub struct SchemaGrant {
    pub schema: String,
    pub privileges: Vec<String>,
}

pub ghost struct SchemaGrantView {
    pub schema: Seq<char>,
    pub privileges: Seq<Seq<char>>,
}

impl View for SchemaGrant {
    type V = SchemaGrantView;

    open spec fn view(&self) -> SchemaGrantView {
        SchemaGrantView { schema: self.schema@, privileges: self.privileges.deep_view() }
    }
}

impl DeepView for SchemaGrant {
    type V = SchemaGrantView;

    open spec fn deep_view(&self) -> SchemaGrantView {
        self.view()
    }
}

/// A privilege set granted to a role over a table, as one discovered row.
pub struct TableGrant {
    pub schema: String,
    pub table: String,
    pub privileges: Vec<String>,
}

pub ghost struct TableGrantView {
    pub schema: Seq<char>,
    pub table: Seq<char>,
    pub privileges: Seq<Seq<char>>,
}

impl View for TableGrant {
    type V = TableGrantView;

    open spec fn view(&self) -> TableGrantView {
        TableGrantView {
            schema: self.schema@,
            table: self.table@,
            privileges: self.privileges.deep_view(),
        }
    }
}

impl DeepView for TableGrant {
    type V = TableGrantView;

    open spec fn deep_view(&self) -> TableGrantView {
        self.view()
    }
}

/// A database principal: its attribute flags, connection limit, memberships,
/// optional password hash and comment, and its discovered grants.
pub struct Role {
    pub name: String,
    pub superuser: bool,
    pub inherit: bool,
    pub create_role: bool,
    pub create_db: bool,
    pub can_login: bool,
    pub replication: bool,
    /// Negative means no limit; only a non-negative limit is rendered.
    pub conn_limit: i32,
    pub member_of: Vec<String>,
    /// The stored credential hash, when the querying principal may see it.
    pub password_hash: Option<String>,
    pub comment: Option<String>,
    /// The grant queries failed for want of privilege: the grants are skipped
    /// with a warning comment instead of aborting the run.
    pub grants_inaccessible: bool,
    pub schema_grants: Vec<SchemaGrant>,
    pub table_grants: Vec<TableGrant>,
}

pub ghost struct RoleView {
    pub name: Seq<char>,
    pub superuser: bool,
    pub inherit: bool,
    pub create_role: bool,
    pub create_db: bool,
    pub can_login: bool,
    pub replication: bool,
    pub conn_limit: int,
    pub member_of: Seq<Seq<char>>,
    pub password_hash: Option<Seq<char>>,
    pub comment: Option<Seq<char>>,
    pub grants_inaccessible: bool,
    pub schema_grants: Seq<SchemaGrantView>,
    pub table_grants: Seq<TableGrantView>,
}

impl View for Role {
    type V = RoleView;

    open spec fn view(&self) -> RoleView {
        RoleView {
            name: self.name@,
            superuser: self.superuser,
            inherit: self.inherit,
            create_role: self.create_role,
            create_db: self.create_db,
            can_login: self.can_login,
            replication: self.replication,
            conn_limit: self.conn_limit as int,
            member_of: self.member_of.deep_view(),
            password_hash: match self.password_hash {
                Some(h) => Some(h@),
                None => None,
            },
            comment: match self.comment {
                Some(c) => Some(c@),
                None => None,
            },
            grants_inaccessible: self.grants_inaccessible,
            schema_grants: self.schema_grants.deep_view(),
            table_grants: self.table_grants.deep_view(),
        }
    }
}

impl DeepView for Role {
    type V = RoleView;

    open spec fn deep_view(&self) -> RoleView {
        self.view()
    }
}

/// What role introspection discovered: whether the initial probe succeeded at
/// all; the database's owning role, the current querying principal and the
/// owners of the discovered objects, each in order of first discovery; and
/// the detail rows of every role the catalog lists, from which the serializer
/// selects the set to emit.
pub struct RoleCatalog {
    pub accessible: bool,
    pub database_owner: String,
    pub current_principal: String,
    pub object_owners: Vec<String>,
    pub roles: Vec<Role>,
}

pub ghost struct RoleCatalogView {
    pub accessible: bool,
    pub database_owner: Seq<char>,
    pub current_principal: Seq<char>,
    pub object_owners: Seq<Seq<char>>,
    pub roles: Seq<RoleView>,
}

impl View for RoleCatalog {
    type V = RoleCatalogView;

    open spec fn view(&self) -> RoleCatalogView {
        RoleCatalogView {
            accessible: self.accessible,
            database_owner: self.database_owner@,
            current_principal: self.current_principal@,
            object_owners: self.object_owners.deep_view(),
            roles: self.roles.deep_view(),
        }
    }
}

// ---------------------------------------------------------------------------
// Which roles are emitted.
// ---------------------------------------------------------------------------

/// A role name beginning with the reserved internal prefix belongs to the
/// database itself and is never emitted.
pub open spec fn reserved_role(name: Seq<char>) -> bool {
    has_prefix(name, "pg_"@)
}

/// Reports whether the role name begins with the reserved internal prefix.
pub fn is_reserved_role(name: &str) -> (r: bool)
    ensures
        r == reserved_role(name@),
{
    string_has_prefix(name, "pg_")
}

/// The names kept in order of first discovery, later duplicates dropped.
pub open spec fn dedup_keep_first(names: Seq<Seq<char>>) -> Seq<Seq<char>>
    decreases names.len(),
{
    if names.len() == 0 {
        Seq::empty()
    } else {
        let kept = dedup_keep_first(names.drop_last());
        if kept.contains(names.last()) {
            kept
        } else {
            kept.push(names.last())
        }
    }
}

/// No name survives deduplication twice.
pub proof fn lemma_dedup_keep_first_distinct(s: Seq<Seq<char>>)
    ensures
        forall|i: int, j: int|
            0 <= i < j < dedup_keep_first(s).len() ==> dedup_keep_first(s)[i]
                != dedup_keep_first(s)[j],
    decreases s.len(),
{
    if s.len() > 0 {
        lemma_dedup_keep_first_distinct(s.drop_last());
        let kept = dedup_keep_first(s.drop_last());
        let d = dedup_keep_first(s);
        if !kept.contains(s.last()) {
            assert forall|i: int, j: int| 0 <= i < j < d.len() implies d[i] != d[j] by {
                if j < kept.len() {
                    assert(kept[i] != kept[j]);
                } else {
                    assert(d[j] == s.last());
                    if d[i] == s.last() {
                        assert(kept[i] == s.last());
                        assert(kept.contains(s.last()));
                    }
                }
            }
        }
    }
}

fn vec_contains_text(v: &Vec<String>, s: &String) -> (r: bool)
    ensures
        r == v.deep_view().contains(s@),
{
    let mut i: usize = 0;
    while i < v.len()
        invariant
            i <= v@.len(),
            v.deep_view().len() == v@.len(),
            forall|k: int| 0 <= k < v@.len() ==> v.deep_view()[k] == v@[k]@,
            forall|k: int| 0 <= k < i ==> v@[k]@ != s@,
        decreases v.len() - i,
    {
        if string_text_eq(v[i].as_str(), s.as_str()) {
            proof {
                assert(v.deep_view()[i as int] == s@);
            }
            return true;
        }
        i = i + 1;
    }
    proof {
        assert(forall|k: int| 0 <= k < v.deep_view().len() ==> v.deep_view()[k] != s@);
    }
    false
}

/// Drops later duplicates from a name list, keeping first-discovery order.
pub fn dedup_strings(v: &Vec<String>) -> (r: Vec<String>)
    ensures
        r.deep_view() == dedup_keep_first(v.deep_view()),
{
    let ghost all = v.deep_view();
    let mut r: Vec<String> = Vec::new();
    let mut i: usize = 0;
    while i < v.len()
        invariant
            i <= v@.len(),
            all == v.deep_view(),
            all.len() == v@.len(),
            forall|k: int| 0 <= k < v@.len() ==> all[k] == v@[k]@,
            r.deep_view() =~= dedup_keep_first(all.take(i as int)),
        decreases v.len() - i,
    {
        proof {
            let x = all.take(i + 1);
            assert(x.drop_last() =~= all.take(i as int));
            assert(x.last() == all[i as int]);
        }
        if !vec_contains_text(&r, &v[i]) {
            let ghost before = r.deep_view();
            let name = v[i].clone();
            let ghost nv = name@;
            r.push(name);
            proof {
                assert(r.deep_view() =~= before.push(nv));
                assert(r.deep_view() =~= dedup_keep_first(all.take(i + 1)));
            }
        } else {
            proof {
                assert(r.deep_view() =~= dedup_keep_first(all.take(i + 1)));
            }
        }
        i = i + 1;
    }
    proof {
        assert(all.take(all.len() as int) =~= all);
    }
    r
}

/// The names whose roles a catalog's dump emits: the union of the database's
/// owning role, the current querying principal and the object owners,
/// deduplicated in order of first discovery.
pub open spec fn discovered_names(c: RoleCatalogView) -> Seq<Seq<char>> {
    dedup_keep_first(seq![c.database_owner, c.current_principal] + c.object_owners)
}

/// The role set to emit: the union of the database's owning role, the current
/// querying principal, and every discovered object owner — deduplicated, the
/// order of first discovery preserved.
pub fn roles_to_emit(owner: &String, principal: &String, object_owners: &Vec<String>) -> (r: Vec<
    String,
>)
    ensures
        r.deep_view() == dedup_keep_first(
            seq![owner@, principal@] + object_owners.deep_view(),
        ),
{
    let ghost all = seq![owner@, principal@] + object_owners.deep_view();
    let mut candidates: Vec<String> = Vec::new();
    candidates.push(owner.clone());
    candidates.push(principal.clone());
    let mut i: usize = 0;
    while i < object_owners.len()
        invariant
            i <= object_owners@.len(),
            all == seq![owner@, principal@] + object_owners.deep_view(),
            object_owners.deep_view().len() == object_owners@.len(),
            forall|k: int|
                0 <= k < object_owners@.len() ==> object_owners.deep_view()[k]
                    == object_owners@[k]@,
            candidates.deep_view() =~= all.take(2 + i),
        decreases object_owners.len() - i,
    {
        let ghost before = candidates.deep_view();
        let name = object_owners[i].clone();
        let ghost nv = name@;
        candidates.push(name);
        proof {
            assert(candidates.deep_view() =~= before.push(nv));
            assert(before.push(nv) =~= all.take(2 + i + 1));
        }
        i = i + 1;
    }
    proof {
        assert(all.take(all.len() as int) =~= all);
        assert(candidates.deep_view() == all);
    }
    dedup_strings(&candidates)
}

/// The first role detail carrying the given name, when the catalog holds one.
pub open spec fn first_match(details: Seq<RoleView>, name: Seq<char>) -> Option<RoleView>
    decreases details.len(),
{
    if details.len() == 0 {
        None
    } else if details[0].name == name {
        Some(details[0])
    } else {
        first_match(details.drop_first(), name)
    }
}

/// The role details of the named set, in the set's order; a name the catalog
/// does not detail contributes nothing.
pub open spec fn selected_roles(names: Seq<Seq<char>>, details: Seq<RoleView>) -> Seq<RoleView>
    decreases names.len(),
{
    if names.len() == 0 {
        Seq::empty()
    } else {
        let rest = selected_roles(names.drop_last(), details);
        match first_match(details, names.last()) {
            Some(r) => rest.push(r),
            None => rest,
        }
    }
}

fn find_role_index(details: &Vec<Role>, name: &String) -> (r: Option<usize>)
    ensures
        match r {
            Some(i) => i < details@.len() && first_match(details.deep_view(), name@) == Some(
                details.deep_view()[i as int],
            ),
            None => first_match(details.deep_view(), name@) is None,
        },
{
    let ghost dv = details.deep_view();
    proof {
        assert(dv.skip(0) =~= dv);
    }
    let mut j: usize = 0;
    while j < details.len()
        invariant
            j <= details@.len(),
            dv == details.deep_view(),
            dv.len() == details@.len(),
            forall|k: int| 0 <= k < details@.len() ==> dv[k] == details@[k]@,
            first_match(dv, name@) == first_match(dv.skip(j as int), name@),
        decreases details.len() - j,
    {
        proof {
            assert(dv.skip(j as int)[0] == dv[j as int]);
        }
        if string_text_eq(details[j].name.as_str(), name.as_str()) {
            proof {
                assert(first_match(dv.skip(j as int), name@) == Some(dv[j as int]));
            }
            return Some(j);
        }
        proof {
            assert(dv.skip(j as int).drop_first() =~= dv.skip(j + 1));
        }
        j = j + 1;
    }
    proof {
        assert(dv.skip(dv.len() as int).len() == 0);
    }
    None
}

// ---------------------------------------------------------------------------
// The rendered statements of one role.
// ---------------------------------------------------------------------------

/// The `CREATE ROLE` statement: every attribute flag is rendered as an
/// explicit positive or negative word, never omitted; a non-negative
/// connection limit is appended.
pub open spec fn create_role_line(r: RoleView) -> Seq<char> {
    "CREATE ROLE "@ + r.name + (if r.superuser {
        " SUPERUSER"@
    } else {
        " NOSUPERUSER"@
    }) + (if r.inherit {
        " INHERIT"@
    } else {
        " NOINHERIT"@
    }) + (if r.create_role {
        " CREATEROLE"@
    } else {
        " NOCREATEROLE"@
    }) + (if r.create_db {
        " CREATEDB"@
    } else {
        " NOCREATEDB"@
    }) + (if r.can_login {
        " LOGIN"@
    } else {
        " NOLOGIN"@
    }) + (if r.replication {
        " REPLICATION"@
    } else {
        " NOREPLICATION"@
    }) + (if r.conn_limit >= 0 {
        " CONNECTION LIMIT "@ + int_rep(r.conn_limit)
    } else {
        Seq::<char>::empty()
    }) + ";"@
}

/// The expected credential-hash prefix: only a hash carrying it is re-emitted.
pub open spec fn hash_marker() -> Seq<char> {
    "md5"@
}

/// The password statement, emitted only when a hash is visible and begins
/// with the expected hash-algorithm prefix; otherwise nothing, silently.
pub open spec fn password_lines(r: RoleView) -> Seq<Seq<char>> {
    match r.password_hash {
        Some(h) => if has_prefix(h, hash_marker()) {
            seq!["ALTER ROLE "@ + r.name + " WITH ENCRYPTED PASSWORD '"@ + h + "';"@]
        } else {
            Seq::empty()
        },
        None => Seq::empty(),
    }
}

/// The membership statement, when the role is a member of anything.
pub open spec fn membership_lines(r: RoleView) -> Seq<Seq<char>> {
    if r.member_of.len() > 0 {
        seq!["GRANT "@ + joined(r.member_of, ", "@) + " TO "@ + r.name + ";"@]
    } else {
        Seq::empty()
    }
}

/// The comment statement, when the role carries a description.
pub open spec fn comment_lines(r: RoleView) -> Seq<Seq<char>> {
    match r.comment {
        Some(c) => seq!["COMMENT ON ROLE "@ + r.name + " IS "@ + quoted(c) + ";"@],
        None => Seq::empty(),
    }
}

/// The warning comment standing in for the grants when they could not be read
/// for want of privilege.
pub open spec fn grant_warning_lines(r: RoleView) -> Seq<Seq<char>> {
    if r.grants_inaccessible {
        seq!["-- Warning: Could not retrieve privileges for role "@ + r.name]
    } else {
        Seq::empty()
    }
}

// ---------------------------------------------------------------------------
// Grants, deduplicated by (grantee, object, privilege).
// ---------------------------------------------------------------------------

/// The schema of each discovered schema-grant row, in row order.
pub open spec fn schemas_of(gs: Seq<SchemaGrantView>) -> Seq<Seq<char>> {
    gs.map_values(|g: SchemaGrantView| g.schema)
}

/// Every privilege the rows grant over the given schema, in row order,
/// duplicates included.
pub open spec fn schema_privs_for(gs: Seq<SchemaGrantView>, schema: Seq<char>) -> Seq<Seq<char>>
    decreases gs.len(),
{
    if gs.len() == 0 {
        Seq::empty()
    } else {
        schema_privs_for(gs.drop_last(), schema) + (if gs.last().schema == schema {
            gs.last().privileges
        } else {
            Seq::empty()
        })
    }
}

/// A schema-level grant statement.
pub open spec fn schema_grant_stmt(
    role: Seq<char>,
    schema: Seq<char>,
    privs: Seq<Seq<char>>,
) -> Seq<char> {
    "GRANT "@ + joined(privs, ", "@) + " ON SCHEMA "@ + schema + " TO "@ + role + ";"@
}

/// The schema-grant statements of one role: one statement per distinct
/// schema, in order of first discovery, carrying that schema's privileges
/// deduplicated — so each (grantee, schema, privilege) triple appears at most
/// once, however the underlying rows repeat.
pub open spec fn merged_schema_grant_lines(
    role: Seq<char>,
    gs: Seq<SchemaGrantView>,
) -> Seq<Seq<char>> {
    dedup_keep_first(schemas_of(gs)).map_values(
        |s: Seq<char>| schema_grant_stmt(role, s, dedup_keep_first(schema_privs_for(gs, s))),
    )
}

/// The object a table-grant row names, as the rendered `schema.table` text.
pub open spec fn table_object_key(g: TableGrantView) -> Seq<char> {
    g.schema + "."@ + g.table
}

/// The object of each discovered table-grant row, in row order.
pub open spec fn table_keys_of(gs: Seq<TableGrantView>) -> Seq<Seq<char>> {
    gs.map_values(|g: TableGrantView| table_object_key(g))
}

/// Every privilege the rows grant over the given object, in row order,
/// duplicates included.
pub open spec fn table_privs_for(gs: Seq<TableGrantView>, key: Seq<char>) -> Seq<Seq<char>>
    decreases gs.len(),
{
    if gs.len() == 0 {
        Seq::empty()
    } else {
        table_privs_for(gs.drop_last(), key) + (if table_object_key(gs.last()) == key {
            gs.last().privileges
        } else {
            Seq::empty()
        })
    }
}

/// A table-level grant statement.
pub open spec fn table_grant_stmt(
    role: Seq<char>,
    object: Seq<char>,
    privs: Seq<Seq<char>>,
) -> Seq<char> {
    "GRANT "@ + joined(privs, ", "@) + " ON TABLE "@ + object + " TO "@ + role + ";"@
}

/// The table-grant statements of one role: one statement per distinct
/// object, in order of first discovery, carrying that object's privileges
/// deduplicated — so each (grantee, object, privilege) triple appears at most
/// once, however the underlying rows repeat.
pub open spec fn merged_table_grant_lines(
    role: Seq<char>,
    gs: Seq<TableGrantView>,
) -> Seq<Seq<char>> {
    dedup_keep_first(table_keys_of(gs)).map_values(
        |k: Seq<char>| table_grant_stmt(role, k, dedup_keep_first(table_privs_for(gs, k))),
    )
}

/// Grant reconstruction is deduplicated by (grantee, object, privilege): in
/// one role's grant statements, each schema and each table object carries at
/// most one statement, and no privilege stands twice within a statement.
pub proof fn lemma_role_grants_deduplicated(r: RoleView)
    ensures
        forall|i: int, j: int|
            0 <= i < j < dedup_keep_first(schemas_of(r.schema_grants)).len()
                ==> dedup_keep_first(schemas_of(r.schema_grants))[i] != dedup_keep_first(
                schemas_of(r.schema_grants),
            )[j],
        forall|i: int, j: int|
            0 <= i < j < dedup_keep_first(table_keys_of(r.table_grants)).len()
                ==> dedup_keep_first(table_keys_of(r.table_grants))[i] != dedup_keep_first(
                table_keys_of(r.table_grants),
            )[j],
        forall|s: Seq<char>, i: int, j: int|
            #![trigger dedup_keep_first(schema_privs_for(r.schema_grants, s))[i],
                dedup_keep_first(schema_privs_for(r.schema_grants, s))[j]]
            0 <= i < j < dedup_keep_first(schema_privs_for(r.schema_grants, s)).len()
                ==> dedup_keep_first(schema_privs_for(r.schema_grants, s))[i]
                != dedup_keep_first(schema_privs_for(r.schema_grants, s))[j],
        forall|k: Seq<char>, i: int, j: int|
            #![trigger dedup_keep_first(table_privs_for(r.table_grants, k))[i],
                dedup_keep_first(table_privs_for(r.table_grants, k))[j]]
            0 <= i < j < dedup_keep_first(table_privs_for(r.table_grants, k)).len()
                ==> dedup_keep_first(table_privs_for(r.table_grants, k))[i]
                != dedup_keep_first(table_privs_for(r.table_grants, k))[j],
{
    lemma_dedup_keep_first_distinct(schemas_of(r.schema_grants));
    lemma_dedup_keep_first_distinct(table_keys_of(r.table_grants));
    assert forall|s: Seq<char>, i: int, j: int|
        #![trigger dedup_keep_first(schema_privs_for(r.schema_grants, s))[i],
            dedup_keep_first(schema_privs_for(r.schema_grants, s))[j]]
        0 <= i < j < dedup_keep_first(schema_privs_for(r.schema_grants, s)).len() implies dedup_keep_first(
        schema_privs_for(r.schema_grants, s),
    )[i] != dedup_keep_first(schema_privs_for(r.schema_grants, s))[j] by {
        lemma_dedup_keep_first_distinct(schema_privs_for(r.schema_grants, s));
    }
    assert forall|k: Seq<char>, i: int, j: int|
        #![trigger dedup_keep_first(table_privs_for(r.table_grants, k))[i],
            dedup_keep_first(table_privs_for(r.table_grants, k))[j]]
        0 <= i < j < dedup_keep_first(table_privs_for(r.table_grants, k)).len() implies dedup_keep_first(
        table_privs_for(r.table_grants, k),
    )[i] != dedup_keep_first(table_privs_for(r.table_grants, k))[j] by {
        lemma_dedup_keep_first_distinct(table_privs_for(r.table_grants, k));
    }
}

fn push_all(dst: &mut Vec<String>, src: &Vec<String>)
    ensures
        final(dst).deep_view() == old(dst).deep_view() + src.deep_view(),
{
    let ghost base = dst.deep_view();
    let ghost sv = src.deep_view();
    let mut m: usize = 0;
    while m < src.len()
        invariant
            m <= src@.len(),
            sv == src.deep_view(),
            sv.len() == src@.len(),
            forall|k: int| 0 <= k < src@.len() ==> sv[k] == src@[k]@,
            dst.deep_view() =~= base + sv.take(m as int),
        decreases src.len() - m,
    {
        let ghost before = dst.deep_view();
        let item = src[m].clone();
        let ghost iv = item@;
        dst.push(item);
        proof {
            assert(dst.deep_view() =~= before.push(iv));
            assert(dst.deep_view() =~= base + sv.take(m + 1));
        }
        m = m + 1;
    }
    proof {
        assert(sv.take(sv.len() as int) =~= sv);
    }
}

fn schema_keys(gs: &Vec<SchemaGrant>) -> (r: Vec<String>)
    ensures
        r.deep_view() == schemas_of(gs.deep_view()),
{
    let ghost target = schemas_of(gs.deep_view());
    let mut r: Vec<String> = Vec::new();
    let mut i: usize = 0;
    while i < gs.len()
        invariant
            i <= gs@.len(),
            target == schemas_of(gs.deep_view()),
            gs.deep_view().len() == gs@.len(),
            forall|k: int| 0 <= k < gs@.len() ==> gs.deep_view()[k] == gs@[k]@,
            r.deep_view() =~= target.take(i as int),
        decreases gs.len() - i,
    {
        let ghost before = r.deep_view();
        let key = gs[i].schema.clone();
        let ghost kv = key@;
        r.push(key);
        proof {
            assert(r.deep_view() =~= before.push(kv));
            assert(r.deep_view() =~= target.take(i + 1));
        }
        i = i + 1;
    }
    proof {
        assert(target.take(target.len() as int) =~= target);
    }
    r
}

fn table_keys(gs: &Vec<TableGrant>) -> (r: Vec<String>)
    ensures
        r.deep_view() == table_keys_of(gs.deep_view()),
{
    let ghost target = table_keys_of(gs.deep_view());
    let mut r: Vec<String> = Vec::new();
    let mut i: usize = 0;
    while i < gs.len()
        invariant
            i <= gs@.len(),
            target == table_keys_of(gs.deep_view()),
            gs.deep_view().len() == gs@.len(),
            forall|k: int| 0 <= k < gs@.len() ==> gs.deep_view()[k] == gs@[k]@,
            r.deep_view() =~= target.take(i as int),
        decreases gs.len() - i,
    {
        let ghost before = r.deep_view();
        let mut key = String::new();
        key.append(gs[i].schema.as_str());
        key.append(".");
        key.append(gs[i].table.as_str());
        proof {
            assert(key@ =~= table_object_key(gs.deep_view()[i as int]));
        }
        let ghost kv = key@;
        r.push(key);
        proof {
            assert(r.deep_view() =~= before.push(kv));
            assert(r.deep_view() =~= target.take(i + 1));
        }
        i = i + 1;
    }
    proof {
        assert(target.take(target.len() as int) =~= target);
    }
    r
}

fn collect_schema_privs(gs: &Vec<SchemaGrant>, keys: &Vec<String>, key: &String) -> (r: Vec<
    String,
>)
    requires
        keys.deep_view() == schemas_of(gs.deep_view()),
    ensures
        r.deep_view() == schema_privs_for(gs.deep_view(), key@),
{
    let ghost gsv = gs.deep_view();
    proof {
        assert(keys.deep_view().len() == keys@.len());
        assert(schemas_of(gsv).len() == gsv.len());
        assert(gsv.len() == gs@.len());
    }
    let mut r: Vec<String> = Vec::new();
    let mut j: usize = 0;
    while j < gs.len()
        invariant
            j <= gs@.len(),
            gsv == gs.deep_view(),
            keys.deep_view() == schemas_of(gsv),
            gsv.len() == gs@.len(),
            keys@.len() == gs@.len(),
            forall|k: int| 0 <= k < gs@.len() ==> gsv[k] == gs@[k]@,
            forall|k: int| 0 <= k < keys@.len() ==> keys.deep_view()[k] == keys@[k]@,
            r.deep_view() =~= schema_privs_for(gsv.take(j as int), key@),
        decreases gs.len() - j,
    {
        proof {
            let x = gsv.take(j + 1);
            assert(x.drop_last() =~= gsv.take(j as int));
            assert(x.last() == gsv[j as int]);
            assert(keys.deep_view()[j as int] == keys@[j as int]@);
            assert(keys.deep_view()[j as int] == schemas_of(gsv)[j as int]);
            assert(schemas_of(gsv)[j as int] == gsv[j as int].schema);
            assert(keys@[j as int]@ == gsv[j as int].schema);
        }
        if string_text_eq(keys[j].as_str(), key.as_str()) {
            push_all(&mut r, &gs[j].privileges);
            proof {
                assert(r.deep_view() =~= schema_privs_for(gsv.take(j + 1), key@));
            }
        } else {
            proof {
                assert(r.deep_view() =~= schema_privs_for(gsv.take(j + 1), key@));
            }
        }
        j = j + 1;
    }
    proof {
        assert(gsv.take(gsv.len() as int) =~= gsv);
    }
    r
}

fn collect_table_privs(gs: &Vec<TableGrant>, keys: &Vec<String>, key: &String) -> (r: Vec<String>)
    requires
        keys.deep_view() == table_keys_of(gs.deep_view()),
    ensures
        r.deep_view() == table_privs_for(gs.deep_view(), key@),
{
    let ghost gsv = gs.deep_view();
    proof {
        assert(keys.deep_view().len() == keys@.len());
        assert(table_keys_of(gsv).len() == gsv.len());
        assert(gsv.len() == gs@.len());
    }
    let mut r: Vec<String> = Vec::new();
    let mut j: usize = 0;
    while j < gs.len()
        invariant
            j <= gs@.len(),
            gsv == gs.deep_view(),
            keys.deep_view() == table_keys_of(gsv),
            gsv.len() == gs@.len(),
            keys@.len() == gs@.len(),
            forall|k: int| 0 <= k < gs@.len() ==> gsv[k] == gs@[k]@,
            forall|k: int| 0 <= k < keys@.len() ==> keys.deep_view()[k] == keys@[k]@,
            r.deep_view() =~= table_privs_for(gsv.take(j as int), key@),
        decreases gs.len() - j,
    {
        proof {
            let x = gsv.take(j + 1);
            assert(x.drop_last() =~= gsv.take(j as int));
            assert(x.last() == gsv[j as int]);
            assert(keys.deep_view()[j as int] == keys@[j as int]@);
            assert(keys.deep_view()[j as int] == table_keys_of(gsv)[j as int]);
            assert(table_keys_of(gsv)[j as int] == table_object_key(gsv[j as int]));
            assert(keys@[j as int]@ == table_object_key(gsv[j as int]));
        }
        if string_text_eq(keys[j].as_str(), key.as_str()) {
            push_all(&mut r, &gs[j].privileges);
            proof {
                assert(r.deep_view() =~= table_privs_for(gsv.take(j + 1), key@));
            }
        } else {
            proof {
                assert(r.deep_view() =~= table_privs_for(gsv.take(j + 1), key@));
            }
        }
        j = j + 1;
    }
    proof {
        assert(gsv.take(gsv.len() as int) =~= gsv);
    }
    r
}

// ---------------------------------------------------------------------------
// One role's chunk, and the whole section.
// ---------------------------------------------------------------------------

/// Every line one role contributes: its comment line, its `CREATE ROLE`
/// statement, the optional password, membership and comment statements, a
/// blank line, the grants-unreadable warning when the grant queries failed
/// for want of privilege, its deduplicated schema and table grants, and a
/// closing blank line.
pub open spec fn role_chunk_lines(r: RoleView) -> Seq<Seq<char>> {
    seq!["-- Role: "@ + r.name, create_role_line(r)] + password_lines(r) + membership_lines(r)
        + comment_lines(r) + seq![""@] + grant_warning_lines(r) + merged_schema_grant_lines(
        r.name,
        r.schema_grants,
    ) + merged_table_grant_lines(r.name, r.table_grants) + seq![""@]
}

/// The lines of a role list: each role in list order, a role with the
/// reserved internal prefix contributing nothing.
pub open spec fn roles_emitted(rs: Seq<RoleView>) -> Seq<Seq<char>>
    decreases rs.len(),
{
    if rs.len() == 0 {
        Seq::empty()
    } else {
        roles_emitted(rs.drop_last()) + (if reserved_role(rs.last().name) {
            Seq::empty()
        } else {
            role_chunk_lines(rs.last())
        })
    }
}

/// The warning comment emitted when role introspection is inaccessible.
pub open spec fn role_warning_line() -> Seq<char> {
    "-- Warning: No access to role information. Skipping user and role dump."@
}

/// The header of the role section.
pub open spec fn roles_header_lines() -> Seq<Seq<char>> {
    seq!["-- Users, roles and permissions"@, ""@]
}

/// Every line of the role section: the header, then either the single warning
/// comment — when introspection is inaccessible — or the roles of the
/// discovered set (owner, principal, object owners; first-discovery order),
/// each rendered from its catalog detail row.
pub open spec fn roles_section(c: RoleCatalogView) -> Seq<Seq<char>> {
    roles_header_lines() + (if !c.accessible {
        seq![role_warning_line()]
    } else {
        roles_emitted(selected_roles(discovered_names(c), c.roles))
    })
}

fn render_create_role(r: &Role) -> (line: String)
    ensures
        line@ == create_role_line(r@),
{
    let mut line = String::new();
    line.append("CREATE ROLE ");
    line.append(r.name.as_str());
    if r.superuser {
        line.append(" SUPERUSER");
    } else {
        line.append(" NOSUPERUSER");
    }
    if r.inherit {
        line.append(" INHERIT");
    } else {
        line.append(" NOINHERIT");
    }
    if r.create_role {
        line.append(" CREATEROLE");
    } else {
        line.append(" NOCREATEROLE");
    }
    if r.create_db {
        line.append(" CREATEDB");
    } else {
        line.append(" NOCREATEDB");
    }
    if r.can_login {
        line.append(" LOGIN");
    } else {
        line.append(" NOLOGIN");
    }
    if r.replication {
        line.append(" REPLICATION");
    } else {
        line.append(" NOREPLICATION");
    }
    if r.conn_limit >= 0 {
        line.append(" CONNECTION LIMIT ");
        let limit = i32_to_dec(r.conn_limit);
        line.append(limit.as_str());
    }
    line.append(";");
    proof {
        assert(line@ =~= create_role_line(r@));
    }
    line
}

/// Renders every statement one role contributes, in order: comment,
/// `CREATE ROLE`, the optional password, membership and comment statements,
/// then its grants, deduplicated by object and privilege.
#[verifier::rlimit(60)]
pub fn render_role(r: &Role, sink: &mut StatementSink)
    ensures
        final(sink)@ == old(sink)@ + role_chunk_lines(r@),
{
    let mut comment = String::new();
    comment.append("-- Role: ");
    comment.append(r.name.as_str());
    sink.write_line(comment);
    let stmt = render_create_role(r);
    sink.write_line(stmt);
    match &r.password_hash {
        Some(h) => {
            if string_has_prefix(h.as_str(), "md5") {
                let mut line = String::new();
                line.append("ALTER ROLE ");
                line.append(r.name.as_str());
                line.append(" WITH ENCRYPTED PASSWORD '");
                line.append(h.as_str());
                line.append("';");
                sink.write_line(line);
            }
        },
        None => {},
    }
    if r.member_of.len() > 0 {
        let parents = join_with(&r.member_of, ", ");
        let mut line = String::new();
        line.append("GRANT ");
        line.append(parents.as_str());
        line.append(" TO ");
        line.append(r.name.as_str());
        line.append(";");
        sink.write_line(line);
    }
    match &r.comment {
        Some(c) => {
            let quoted_comment = quote_escaped(c.as_str());
            let mut line = String::new();
            line.append("COMMENT ON ROLE ");
            line.append(r.name.as_str());
            line.append(" IS ");
            line.append(quoted_comment.as_str());
            line.append(";");
            sink.write_line(line);
        },
        None => {},
    }
    sink.write_str("");
    if r.grants_inaccessible {
        let mut warn = String::new();
        warn.append("-- Warning: Could not retrieve privileges for role ");
        warn.append(r.name.as_str());
        sink.write_line(warn);
    }
    let ghost first_part = old(sink)@ + seq!["-- Role: "@ + r@.name, create_role_line(r@)]
        + password_lines(r@) + membership_lines(r@) + comment_lines(r@) + seq![""@]
        + grant_warning_lines(r@);
    proof {
        assert(sink@ =~= first_part);
    }
    let ghost sg_lines = merged_schema_grant_lines(r@.name, r@.schema_grants);
    let skeys = schema_keys(&r.schema_grants);
    let sdistinct = dedup_strings(&skeys);
    let mut i: usize = 0;
    while i < sdistinct.len()
        invariant
            i <= sdistinct@.len(),
            skeys.deep_view() == schemas_of(r@.schema_grants),
            sdistinct.deep_view() == dedup_keep_first(schemas_of(r@.schema_grants)),
            sg_lines == merged_schema_grant_lines(r@.name, r@.schema_grants),
            sg_lines.len() == sdistinct@.len(),
            forall|k: int| 0 <= k < sdistinct@.len() ==> sdistinct.deep_view()[k] == sdistinct@[k]@,
            sink@ =~= first_part + sg_lines.take(i as int),
        decreases sdistinct.len() - i,
    {
        let privs = collect_schema_privs(&r.schema_grants, &skeys, &sdistinct[i]);
        let dprivs = dedup_strings(&privs);
        let plist = join_with(&dprivs, ", ");
        let mut line = String::new();
        line.append("GRANT ");
        line.append(plist.as_str());
        line.append(" ON SCHEMA ");
        line.append(sdistinct[i].as_str());
        line.append(" TO ");
        line.append(r.name.as_str());
        line.append(";");
        proof {
            assert(line@ =~= sg_lines[i as int]);
        }
        sink.write_line(line);
        proof {
            assert(sink@ =~= first_part + sg_lines.take(i + 1));
        }
        i = i + 1;
    }
    proof {
        assert(sg_lines.take(sg_lines.len() as int) =~= sg_lines);
    }
    let ghost tg_lines = merged_table_grant_lines(r@.name, r@.table_grants);
    let tkeys = table_keys(&r.table_grants);
    let tdistinct = dedup_strings(&tkeys);
    let mut j: usize = 0;
    while j < tdistinct.len()
        invariant
            j <= tdistinct@.len(),
            sg_lines == merged_schema_grant_lines(r@.name, r@.schema_grants),
            tkeys.deep_view() == table_keys_of(r@.table_grants),
            tdistinct.deep_view() == dedup_keep_first(table_keys_of(r@.table_grants)),
            tg_lines == merged_table_grant_lines(r@.name, r@.table_grants),
            tg_lines.len() == tdistinct@.len(),
            forall|k: int| 0 <= k < tdistinct@.len() ==> tdistinct.deep_view()[k] == tdistinct@[k]@,
            sink@ =~= first_part + sg_lines + tg_lines.take(j as int),
        decreases tdistinct.len() - j,
    {
        let privs = collect_table_privs(&r.table_grants, &tkeys, &tdistinct[j]);
        let dprivs = dedup_strings(&privs);
        let plist = join_with(&dprivs, ", ");
        let mut line = String::new();
        line.append("GRANT ");
        line.append(plist.as_str());
        line.append(" ON TABLE ");
        line.append(tdistinct[j].as_str());
        line.append(" TO ");
        line.append(r.name.as_str());
        line.append(";");
        proof {
            assert(line@ =~= tg_lines[j as int]);
        }
        sink.write_line(line);
        proof {
            assert(sink@ =~= first_part + sg_lines + tg_lines.take(j + 1));
        }
        j = j + 1;
    }
    sink.write_str("");
    proof {
        assert(tg_lines.take(tg_lines.len() as int) =~= tg_lines);
        assert(sink@ =~= old(sink)@ + role_chunk_lines(r@));
    }
}

/// Serializes the whole role section through the sink: the header, then —
/// when the introspection probe failed — exactly one warning comment and a
/// successful return; otherwise the roles of the discovered set (database
/// owner, current principal, object owners — deduplicated, first-discovery
/// order), each rendered from its catalog detail row, those with the reserved
/// internal prefix skipped.
pub fn dump_users_and_roles_to(catalog: &RoleCatalog, sink: &mut StatementSink)
    ensures
        final(sink)@ == old(sink)@ + roles_section(catalog@),
{
    sink.write_str("-- Users, roles and permissions");
    sink.write_str("");
    if !catalog.accessible {
        sink.write_str("-- Warning: No access to role information. Skipping user and role dump.");
        proof {
            assert(sink@ =~= old(sink)@ + roles_section(catalog@));
        }
        return ;
    }
    let ghost base = old(sink)@ + roles_header_lines();
    proof {
        assert(sink@ =~= base);
    }
    let names = roles_to_emit(
        &catalog.database_owner,
        &catalog.current_principal,
        &catalog.object_owners,
    );
    let ghost nd = names.deep_view();
    let ghost det = catalog@.roles;
    proof {
        assert(nd =~= discovered_names(catalog@));
    }
    let mut i: usize = 0;
    while i < names.len()
        invariant
            i <= names@.len(),
            nd == names.deep_view(),
            nd == discovered_names(catalog@),
            nd.len() == names@.len(),
            det == catalog@.roles,
            catalog@.roles == catalog.roles.deep_view(),
            catalog.roles.deep_view().len() == catalog.roles@.len(),
            forall|k: int|
                0 <= k < catalog.roles@.len() ==> catalog.roles.deep_view()[k]
                    == catalog.roles@[k]@,
            forall|k: int| 0 <= k < names@.len() ==> nd[k] == names@[k]@,
            sink@ =~= base + roles_emitted(selected_roles(nd.take(i as int), det)),
        decreases names.len() - i,
    {
        proof {
            let x = nd.take(i + 1);
            assert(x.drop_last() =~= nd.take(i as int));
            assert(x.last() == nd[i as int]);
        }
        let found = find_role_index(&catalog.roles, &names[i]);
        match found {
            Some(idx) => {
                proof {
                    let sel = selected_roles(nd.take(i as int), det);
                    let next = selected_roles(nd.take(i + 1), det);
                    assert(next == sel.push(det[idx as int]));
                    assert(next.drop_last() =~= sel);
                    assert(next.last() == det[idx as int]);
                }
                if is_reserved_role(catalog.roles[idx].name.as_str()) {
                    proof {
                        assert(sink@ =~= base + roles_emitted(selected_roles(nd.take(i + 1), det)));
                    }
                } else {
                    render_role(&catalog.roles[idx], sink);
                    proof {
                        assert(sink@ =~= base + roles_emitted(selected_roles(nd.take(i + 1), det)));
                    }
                }
            },
            None => {
                proof {
                    assert(selected_roles(nd.take(i + 1), det) == selected_roles(
                        nd.take(i as int),
                        det,
                    ));
                }
            },
        }
        i = i + 1;
    }
    proof {
        assert(nd.take(nd.len() as int) =~= nd);
        assert(sink@ =~= old(sink)@ + roles_section(catalog@));
    }
}

// ---------------------------------------------------------------------------
// The reserved prefix never reaches the output.
// ---------------------------------------------------------------------------

/// A role whose name begins with the reserved internal prefix contributes
/// nothing to the output: the emitted lines are exactly those of the role
/// list with every reserved role removed, however many reserved roles the
/// list holds.
pub proof fn lemma_reserved_roles_never_emitted(rs: Seq<RoleView>)
    ensures
        roles_emitted(rs) == roles_emitted(
            rs.filter(|r: RoleView| !reserved_role(r.name)),
        ),
    decreases rs.len(),
{
    reveal(Seq::filter);
    let keep = |r: RoleView| !reserved_role(r.name);
    if rs.len() == 0 {
        assert(rs.filter(keep) =~= rs);
    } else {
        let dl = rs.drop_last();
        lemma_reserved_roles_never_emitted(dl);
        if keep(rs.last()) {
            let f = rs.filter(keep);
            assert(f == dl.filter(keep).push(rs.last()));
            assert(f.len() > 0);
            assert(f.drop_last() =~= dl.filter(keep));
            assert(f.last() == rs.last());
            assert(roles_emitted(f) == roles_emitted(dl.filter(keep)) + role_chunk_lines(
                rs.last(),
            ));
        } else {
            assert(rs.filter(keep) == dl.filter(keep));
            assert(roles_emitted(rs) =~= roles_emitted(dl) + Seq::<Seq<char>>::empty());
            assert(roles_emitted(rs) =~= roles_emitted(dl));
        }
    }
}

proof fn lemma_create_prefix_chars(l: Seq<char>)
    requires
        has_prefix(l, "CREATE ROLE "@),
    ensures
        l.len() >= 12,
        l[0] == 'C',
        l[1] == 'R',
{
    reveal_strlit("CREATE ROLE ");
    assert(l.take(12)[0] == l[0]);
    assert(l.take(12)[1] == l[1]);
}

proof fn lemma_chunk_create_role_lines(r: RoleView, j: int)
    requires
        0 <= j < role_chunk_lines(r).len(),
        has_prefix(role_chunk_lines(r)[j], "CREATE ROLE "@),
    ensures
        role_chunk_lines(r)[j] == create_role_line(r),
{
    let l = role_chunk_lines(r)[j];
    lemma_create_prefix_chars(l);
    reveal_strlit("-- Role: ");
    reveal_strlit("ALTER ROLE ");
    reveal_strlit("GRANT ");
    reveal_strlit("COMMENT ON ROLE ");
    reveal_strlit("-- Warning: Could not retrieve privileges for role ");
    reveal_strlit("");
    let pw = password_lines(r);
    let mem = membership_lines(r);
    let cm = comment_lines(r);
    let gw = grant_warning_lines(r);
    let sg = merged_schema_grant_lines(r.name, r.schema_grants);
    let tg = merged_table_grant_lines(r.name, r.table_grants);
    if j == 0 {
        assert(l[0] == '-');
        assert(false);
    } else if j == 1 {
    } else {
        let j2 = j - 2;
        let rest = pw + mem + cm + seq![""@] + gw + sg + tg + seq![""@];
        assert(l == rest[j2]);
        if j2 < pw.len() {
            assert(l[0] == 'A');
            assert(false);
        } else if j2 < pw.len() + mem.len() {
            assert(l[0] == 'G');
            assert(false);
        } else if j2 < pw.len() + mem.len() + cm.len() {
            assert(l[1] == 'O');
            assert(false);
        } else if j2 == pw.len() + mem.len() + cm.len() {
            assert(l == ""@);
            assert(false);
        } else {
            let j3 = j2 - (pw.len() + mem.len() + cm.len() + 1);
            if j3 < gw.len() {
                assert(l[0] == '-');
                assert(false);
            } else if j3 < gw.len() + sg.len() {
                let m = j3 - gw.len();
                let dk = dedup_keep_first(schemas_of(r.schema_grants));
                assert(l == schema_grant_stmt(
                    r.name,
                    dk[m],
                    dedup_keep_first(schema_privs_for(r.schema_grants, dk[m])),
                ));
                assert(l[0] == 'G');
                assert(false);
            } else if j3 < gw.len() + sg.len() + tg.len() {
                let m = j3 - gw.len() - sg.len();
                let dk = dedup_keep_first(table_keys_of(r.table_grants));
                assert(l == table_grant_stmt(
                    r.name,
                    dk[m],
                    dedup_keep_first(table_privs_for(r.table_grants, dk[m])),
                ));
                assert(l[0] == 'G');
                assert(false);
            } else {
                assert(l == ""@);
                assert(false);
            }
        }
    }
}

/// A role name beginning with the reserved internal prefix never appears in a
/// `CREATE ROLE` statement: every output line carrying that statement form is
/// the statement of some role of the list whose name is not reserved.
pub proof fn lemma_create_role_lines_are_unreserved(rs: Seq<RoleView>, i: int)
    requires
        0 <= i < roles_emitted(rs).len(),
        has_prefix(roles_emitted(rs)[i], "CREATE ROLE "@),
    ensures
        exists|k: int|
            0 <= k < rs.len() && !reserved_role(rs[k].name) && roles_emitted(rs)[i]
                == create_role_line(rs[k]),
    decreases rs.len(),
{
    let out = roles_emitted(rs);
    let pre = roles_emitted(rs.drop_last());
    if i < pre.len() {
        lemma_create_role_lines_are_unreserved(rs.drop_last(), i);
        let k = choose|k: int|
            0 <= k < rs.drop_last().len() && !reserved_role(rs.drop_last()[k].name) && pre[i]
                == create_role_line(rs.drop_last()[k]);
        assert(rs.drop_last()[k] == rs[k]);
        assert(0 <= k < rs.len() && !reserved_role(rs[k].name) && out[i] == create_role_line(
            rs[k],
        ));
    } else {
        let last = rs.last();
        assert(!reserved_role(last.name));
        lemma_chunk_create_role_lines(last, i - pre.len());
        let k = rs.len() - 1;
        assert(0 <= k < rs.len() && !reserved_role(rs[k].name) && out[i] == create_role_line(
            rs[k],
        ));
    }
}

} // verus!
