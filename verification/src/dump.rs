//! One whole dump: the file headers, the schema section and the role
//! section, concatenated into a single ordered artifact.

use vstd::prelude::*;
use crate::catalog::CatalogSnapshot;
use crate::catalog::CatalogSnapshotView;
use crate::roles::roles_section;
use crate::roles::RoleCatalog;
use crate::roles::RoleCatalogView;
use crate::schema::schema_section;
use crate::schema::dump_tables_to;
use crate::roles::dump_users_and_roles_to;
use crate::sink::StatementSink;
use crate::text::dec_rep;
use crate::text::u64_to_dec;

verus! {

/// The two header lines identifying the source database and host, and a
/// separating blank line, written before the body when dumping to a file.
pub open spec fn header_lines_of(dbname: Seq<char>, host: Seq<char>, port: nat) -> Seq<Seq<char>> {
    seq![
        "Database Dump for: "@ + dbname,
        "Host: "@ + host + ":"@ + dec_rep(port),
        ""@,
    ]
}

/// Renders the file headers naming the source database and host.
pub fn header_lines(dbname: &str, host: &str, port: u16) -> (r: Vec<String>)
    ensures
        r.deep_view() == header_lines_of(dbname@, host@, port as nat),
{
    let mut first = String::new();
    first.append("Database Dump for: ");
    first.append(dbname);
    let mut second = String::new();
    second.append("Host: ");
    second.append(host);
    second.append(":");
    let p = u64_to_dec(port as u64);
    second.append(p.as_str());
    let third = String::new();
    let ghost fv = first@;
    let ghost sv = second@;
    let ghost tv = third@;
    let mut r: Vec<String> = Vec::new();
    r.push(first);
    r.push(second);
    r.push(third);
    proof {
        assert(r@.len() == 3);
        assert(r.deep_view()[0] == fv);
        assert(r.deep_view()[1] == sv);
        assert(r.deep_view()[2] == tv);
        assert(fv =~= "Database Dump for: "@ + dbname@);
        assert(sv =~= "Host: "@ + host@ + ":"@ + dec_rep(port as nat));
        reveal_strlit("");
        assert(tv =~= ""@);
        assert(r.deep_view() =~~= header_lines_of(dbname@, host@, port as nat));
    }
    r
}

/// Every line of one dump body: the schema section, then the role section.
pub open spec fn dump_lines(s: CatalogSnapshotView, rc: RoleCatalogView) -> Seq<Seq<char>> {
    schema_section(s) + roles_section(rc)
}

/// Serializes one whole dump body through the sink: the schema serializer
/// runs to completion, then the role serializer, each with sole ownership of
/// the sink for its duration.
pub fn dump_all_to(snapshot: &CatalogSnapshot, role_catalog: &RoleCatalog, sink: &mut StatementSink)
    ensures
        final(sink)@ == old(sink)@ + dump_lines(snapshot@, role_catalog@),
{
    dump_tables_to(snapshot, sink);
    dump_users_and_roles_to(role_catalog, sink);
    proof {
        assert(sink@ =~= old(sink)@ + dump_lines(snapshot@, role_catalog@));
    }
}

/// Idempotence: the dump body is a function of the captured catalog state
/// alone, so rendering the same snapshot twice, with no mutation between the
/// runs, produces identical output.
pub proof fn lemma_dump_idempotent(
    s1: CatalogSnapshotView,
    rc1: RoleCatalogView,
    s2: CatalogSnapshotView,
    rc2: RoleCatalogView,
)
    requires
        s1 == s2,
        rc1 == rc2,
    ensures
        dump_lines(s1, rc1) == dump_lines(s2, rc2),
{
}

} // verus!
