//! Laws of the catalog, proved over the registry model. Each connects the
//! contracts of several operations.

use vstd::prelude::*;
use crate::catalog::{matching_tab_ids, tab_match};
use crate::registry::{ListFlags, Namespace, Registry, Tabular, TabularKind};

verus! {

/// Creating a namespace and then fetching it by name yields the very row
/// that was created — the same properties that were supplied. The premise
/// is what `create_namespace` ensures of its final state; the conclusion is
/// what `get_namespace` reads.
pub proof fn lemma_namespace_roundtrip(r: Registry, w: u64, ns: Namespace)
    requires
        r.wf(),
        r.has_ns(ns.id),
        r.ns(ns.id) == ns,
        ns.warehouse_id == w,
    ensures
        r.has_ns_named(w, ns.name.deep_view()),
        r.ns_named(w, ns.name.deep_view()) == ns,
{
    let i = r.ns_idx(ns.id);
    assert(0 <= i < r.namespaces@.len() && r.namespaces@[i].id == ns.id);
    r.ns_named_unique(i, w, ns.name.deep_view());
}

/// Among the live rows of one namespace a name resolves to at most one
/// table or view: two rows that both carry it are the same row. This is
/// what makes `table_ident_to_id` after `create_table` or `rename_table`
/// return the one expected id.
pub proof fn lemma_visible_name_unique(r: Registry, ns_id: u64, name: Seq<char>, i: int, j: int)
    requires
        r.wf(),
        0 <= i < r.tabulars@.len(),
        0 <= j < r.tabulars@.len(),
        r.tabulars@[i].namespace_id == ns_id,
        r.tabulars@[j].namespace_id == ns_id,
        !r.tabulars@[i].deleted,
        !r.tabulars@[j].deleted,
        r.tabulars@[i].name@ == name,
        r.tabulars@[j].name@ == name,
    ensures
        i == j,
        r.tabulars@[i].id == r.tabulars@[j].id,
{
    if i < j {
        assert(r.tabulars@[i].name@ != r.tabulars@[j].name@);
    } else if j < i {
        assert(r.tabulars@[j].name@ != r.tabulars@[i].name@);
    }
}

/// A row the listing filter admits appears in the listing: a staged table
/// is listed once `include_staged` is set, a soft-deleted one once
/// `include_deleted` is set.
pub proof fn lemma_listing_includes(
    s: Seq<Tabular>,
    ns_id: u64,
    kind: TabularKind,
    flags: ListFlags,
    i: int,
)
    requires
        0 <= i < s.len(),
        tab_match(s[i], ns_id, kind, flags),
    ensures
        matching_tab_ids(s, ns_id, kind, flags).contains(s[i].id),
    decreases s.len(),
{
    if i == s.len() - 1 {
        let m = matching_tab_ids(s, ns_id, kind, flags);
        assert(m[m.len() - 1] == s[i].id);
    } else {
        lemma_listing_includes(s.drop_last(), ns_id, kind, flags, i);
        let mp = matching_tab_ids(s.drop_last(), ns_id, kind, flags);
        let m = matching_tab_ids(s, ns_id, kind, flags);
        let k = choose|k: int| 0 <= k < mp.len() && mp[k] == s[i].id;
        assert(m[k] == s[i].id);
    }
}

/// No row whose every occurrence the filter rejects appears in the
/// listing: a staged table stays out of a default listing, and a
/// soft-deleted one stays out until `include_deleted` is set.
pub proof fn lemma_listing_excludes(
    s: Seq<Tabular>,
    ns_id: u64,
    kind: TabularKind,
    flags: ListFlags,
    x: u64,
)
    requires
        forall|i: int|
            0 <= i < s.len() && #[trigger] s[i].id == x ==> !tab_match(s[i], ns_id, kind, flags),
    ensures
        !matching_tab_ids(s, ns_id, kind, flags).contains(x),
    decreases s.len(),
{
    if s.len() > 0 {
        lemma_listing_excludes(s.drop_last(), ns_id, kind, flags, x);
        let mp = matching_tab_ids(s.drop_last(), ns_id, kind, flags);
        let m = matching_tab_ids(s, ns_id, kind, flags);
        if tab_match(s.last(), ns_id, kind, flags) {
            assert(s[s.len() - 1].id != x);
            assert forall|k: int| 0 <= k < m.len() implies m[k] != x by {
                if k < mp.len() {
                    assert(m[k] == mp[k]);
                    assert(!mp.contains(x));
                }
            }
        } else {
            assert(m == mp);
        }
    }
}

} // verus!
