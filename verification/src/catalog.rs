//! The catalog operation surface: create/get/list/rename/drop for every
//! entity, plus the management operations, all running against the working
//! registry of a caller-supplied transaction.
//!
//! Every operation returns a typed result or an `ErrorModel`, never a
//! panic. Expected failures (not found, conflict) are ordinary results.

use vstd::prelude::*;
use crate::error::{ErrorKind, ErrorModel};
use crate::registry::{
    ListFlags, Namespace, Registry, StorageProfile, Tabular, TabularKind, Warehouse,
    WarehouseStatus, lemma_props_lookup_absent, lemma_props_lookup_snoc, props_lookup, props_set,
    props_unique, vec_update,
};
use crate::pagination::{ids_sorted, page_of, paginate_ids, Page, PaginationQuery};
use crate::txn::Transaction;

verus! {

/// One row's admission to a tabular listing.
pub open spec fn tab_match(t: Tabular, ns_id: u64, kind: TabularKind, flags: ListFlags) -> bool {
    t.namespace_id == ns_id && t.kind == kind && t.visible(flags)
}

/// The ids of the tabulars of a namespace that a listing yields under the
/// given kind and flags, in the order the rows stand.
pub open spec fn matching_tab_ids(
    s: Seq<Tabular>,
    ns_id: u64,
    kind: TabularKind,
    flags: ListFlags,
) -> Seq<u64>
    decreases s.len(),
{
    if s.len() == 0 {
        Seq::empty()
    } else {
        let rest = matching_tab_ids(s.drop_last(), ns_id, kind, flags);
        if tab_match(s.last(), ns_id, kind, flags) {
            rest.push(s.last().id)
        } else {
            rest
        }
    }
}

/// Whether `child` is a direct child of `parent` in the level hierarchy.
pub open spec fn ns_is_child(parent: Seq<Seq<char>>, child: Seq<Seq<char>>) -> bool {
    child.len() == parent.len() + 1 && child.take(parent.len() as int) == parent
}

/// One row's admission to a namespace listing: the warehouse, and
/// optionally direct children of one parent.
pub open spec fn ns_match(n: Namespace, w: u64, parent: Option<Seq<Seq<char>>>) -> bool {
    n.warehouse_id == w && (match parent {
        None => true,
        Some(p) => ns_is_child(p, n.name.deep_view()),
    })
}

/// The ids of the namespaces a listing yields, in the order the rows stand.
pub open spec fn matching_ns_ids(s: Seq<Namespace>, w: u64, parent: Option<Seq<Seq<char>>>) -> Seq<
    u64,
>
    decreases s.len(),
{
    if s.len() == 0 {
        Seq::empty()
    } else {
        let rest = matching_ns_ids(s.drop_last(), w, parent);
        if ns_match(s.last(), w, parent) {
            rest.push(s.last().id)
        } else {
            rest
        }
    }
}

/// A tabular run with ascending ids yields an ascending id listing, every
/// listed id at most the last row's.
pub proof fn lemma_tab_matching_sorted(
    s: Seq<Tabular>,
    ns_id: u64,
    kind: TabularKind,
    flags: ListFlags,
)
    requires
        forall|i: int, j: int| 0 <= i < j < s.len() ==> s[i].id < s[j].id,
    ensures
        ids_sorted(matching_tab_ids(s, ns_id, kind, flags)),
        s.len() > 0 ==> forall|k: int|
            0 <= k < matching_tab_ids(s, ns_id, kind, flags).len()
                ==> #[trigger] matching_tab_ids(s, ns_id, kind, flags)[k] <= s[s.len() - 1].id,
    decreases s.len(),
{
    let m = matching_tab_ids(s, ns_id, kind, flags);
    if s.len() > 0 {
        let prefix = s.drop_last();
        lemma_tab_matching_sorted(prefix, ns_id, kind, flags);
        let mp = matching_tab_ids(prefix, ns_id, kind, flags);
        assert forall|k: int| 0 <= k < mp.len() implies #[trigger] mp[k] < s[s.len() - 1].id by {
            if prefix.len() > 0 {
                assert(mp[k] <= prefix[prefix.len() - 1].id);
                assert(prefix[prefix.len() - 1].id == s[s.len() - 2].id);
                assert(s[s.len() - 2].id < s[s.len() - 1].id);
            }
        }
        if tab_match(s.last(), ns_id, kind, flags) {
            assert(m == mp.push(s.last().id));
            assert forall|a: int, b: int| 0 <= a < b < m.len() implies m[a] < m[b] by {
                if b == m.len() - 1 {
                    assert(m[a] == mp[a]);
                }
            }
            assert forall|k: int| 0 <= k < m.len() implies #[trigger] m[k] <= s[s.len()
                - 1].id by {
                if k < mp.len() {
                    assert(m[k] == mp[k]);
                }
            }
        } else {
            assert(m == mp);
        }
    }
}

/// The namespace counterpart of `lemma_tab_matching_sorted`.
pub proof fn lemma_ns_matching_sorted(s: Seq<Namespace>, w: u64, parent: Option<Seq<Seq<char>>>)
    requires
        forall|i: int, j: int| 0 <= i < j < s.len() ==> s[i].id < s[j].id,
    ensures
        ids_sorted(matching_ns_ids(s, w, parent)),
        s.len() > 0 ==> forall|k: int|
            0 <= k < matching_ns_ids(s, w, parent).len() ==> #[trigger] matching_ns_ids(
                s,
                w,
                parent,
            )[k] <= s[s.len() - 1].id,
    decreases s.len(),
{
    let m = matching_ns_ids(s, w, parent);
    if s.len() > 0 {
        let prefix = s.drop_last();
        lemma_ns_matching_sorted(prefix, w, parent);
        let mp = matching_ns_ids(prefix, w, parent);
        assert forall|k: int| 0 <= k < mp.len() implies #[trigger] mp[k] < s[s.len() - 1].id by {
            if prefix.len() > 0 {
                assert(mp[k] <= prefix[prefix.len() - 1].id);
                assert(prefix[prefix.len() - 1].id == s[s.len() - 2].id);
                assert(s[s.len() - 2].id < s[s.len() - 1].id);
            }
        }
        if ns_match(s.last(), w, parent) {
            assert(m == mp.push(s.last().id));
            assert forall|a: int, b: int| 0 <= a < b < m.len() implies m[a] < m[b] by {
                if b == m.len() - 1 {
                    assert(m[a] == mp[a]);
                }
            }
            assert forall|k: int| 0 <= k < m.len() implies #[trigger] m[k] <= s[s.len()
                - 1].id by {
                if k < mp.len() {
                    assert(m[k] == mp[k]);
                }
            }
        } else {
            assert(m == mp);
        }
    }
}

/// Executable check of `ns_is_child`.
pub fn is_direct_child(parent: &Vec<String>, child: &Vec<String>) -> (r: bool)
    ensures
        r == ns_is_child(parent.deep_view(), child.deep_view()),
{
    if child.len() == 0 || child.len() - 1 != parent.len() {
        proof {
            assert(child.deep_view().len() != parent.deep_view().len() + 1);
        }
        return false;
    }
    let mut i: usize = 0;
    while i < parent.len()
        invariant
            child@.len() == parent@.len() + 1,
            i <= parent@.len(),
            forall|k: int| 0 <= k < i ==> child@[k]@ == parent@[k]@,
        decreases parent@.len() - i,
    {
        if !(child[i] == parent[i]) {
            proof {
                assert(child.deep_view()[i as int] != parent.deep_view()[i as int]);
                assert(child.deep_view().take(parent.deep_view().len() as int)[i as int]
                    == child.deep_view()[i as int]);
            }
            return false;
        }
        i += 1;
    }
    proof {
        assert(child.deep_view().take(parent.deep_view().len() as int) =~= parent.deep_view());
    }
    true
}

/// The view of an optional string.
pub open spec fn opt_view(o: Option<String>) -> Option<Seq<char>> {
    match o {
        None => None,
        Some(s) => Some(s@),
    }
}

/// Executable comparison of two optional strings by content.
pub fn opt_str_eq(a: &Option<String>, b: &Option<String>) -> (r: bool)
    ensures
        r == (opt_view(*a) == opt_view(*b)),
{
    match (a, b) {
        (None, None) => true,
        (Some(x), Some(y)) => *x == *y,
        _ => false,
    }
}

/// An update unit of the atomic multi-table commit: the table it targets,
/// the metadata location the caller last observed (the optimistic
/// concurrency token), and the new location and content to install.
pub struct TableCommit {
    pub table_id: u64,
    pub expected_metadata_location: Option<String>,
    pub new_metadata_location: String,
    pub new_metadata: String,
}

impl Transaction {
    /// Create a warehouse in a project. Fails Conflict if the name is taken
    /// in the project; otherwise returns the new stable id, which no later
    /// operation changes.
    #[verifier::loop_isolation(false)]
    pub fn create_warehouse(
        &mut self,
        warehouse_name: String,
        project_id: u64,
        storage_profile: StorageProfile,
        storage_secret_id: Option<u64>,
    ) -> (r: Result<u64, ErrorModel>)
        requires
            old(self).wf(),
            old(self).is_write(),
        ensures
            final(self).wf(),
            final(self).mode == old(self).mode,
            final(self).conn == old(self).conn,
            match r {
                Ok(id) => {
                    &&& !old(self).working.wh_name_taken(project_id, warehouse_name@)
                    &&& old(self).working.next_warehouse_id < u64::MAX
                    &&& id == old(self).working.next_warehouse_id
                    &&& final(self).working.warehouses@ == old(self).working.warehouses@.push(
                        Warehouse {
                            id,
                            project_id,
                            name: warehouse_name,
                            status: WarehouseStatus::Active,
                            storage_profile,
                            storage_secret_id,
                        },
                    )
                    &&& final(self).working.has_wh(id)
                    &&& final(self).working.wh(id).name@ == warehouse_name@
                    &&& final(self).working.next_warehouse_id == id + 1
                    &&& final(self).working.namespaces == old(self).working.namespaces
                    &&& final(self).working.tabulars == old(self).working.tabulars
                },
                Err(e) => {
                    &&& *final(self) == *old(self)
                    &&& (old(self).working.wh_name_taken(project_id, warehouse_name@) || old(
                        self,
                    ).working.next_warehouse_id == u64::MAX)
                    &&& e.kind == (if old(self).working.wh_name_taken(
                        project_id,
                        warehouse_name@,
                    ) {
                        ErrorKind::Conflict
                    } else {
                        ErrorKind::BackendError
                    })
                },
            },
    {
        let reg = &self.working;
        let mut i: usize = 0;
        while i < reg.warehouses.len()
            invariant
                i <= reg.warehouses@.len(),
                forall|k: int|
                    0 <= k < i ==> !(reg.warehouses@[k].project_id == project_id
                        && reg.warehouses@[k].name@ == warehouse_name@),
            decreases reg.warehouses@.len() - i,
        {
            if reg.warehouses[i].project_id == project_id && reg.warehouses[i].name
                == warehouse_name {
                return Err(ErrorModel::conflict("warehouse name already taken in project".to_owned()));
            }
            i += 1;
        }
        if self.working.next_warehouse_id == u64::MAX {
            return Err(ErrorModel::new(
                ErrorKind::BackendError,
                "warehouse identifier space exhausted".to_owned(),
            ));
        }
        let id = self.working.next_warehouse_id;
        self.working.next_warehouse_id = id + 1;
        let ghost olds = self.working;
        self.working.warehouses.push(
            Warehouse {
                id,
                project_id,
                name: warehouse_name,
                status: WarehouseStatus::Active,
                storage_profile,
                storage_secret_id,
            },
        );
        proof {
            let s = self.working;
            let n = s.warehouses@.len() - 1;
            assert forall|a: int, b: int|
                0 <= a < b < s.warehouses@.len() implies s.warehouses@[a].id
                < s.warehouses@[b].id by {
                if b == n {
                    assert(olds.warehouses@[a].id < olds.next_warehouse_id);
                }
            }
            assert forall|a: int, b: int|
                0 <= a < b < s.warehouses@.len() && s.warehouses@[a].project_id
                    == s.warehouses@[b].project_id implies s.warehouses@[a].name@
                != s.warehouses@[b].name@ by {
                if b == n {
                }
            }
            self.working.wh_idx_unique(n, id);
        }
        Ok(id)
    }

    /// Fetch a warehouse by id. Fails NotFound if absent or hard-deleted.
    pub fn get_warehouse(&self, warehouse_id: u64) -> (r: Result<Warehouse, ErrorModel>)
        requires
            self.wf(),
        ensures
            match r {
                Ok(w) => self.working.has_wh(warehouse_id) && w == self.working.wh(warehouse_id),
                Err(e) => !self.working.has_wh(warehouse_id) && e.kind == ErrorKind::NotFound,
            },
    {
        match self.working.find_wh(warehouse_id) {
            Some(i) => {
                proof {
                    self.working.wh_idx_unique(i as int, warehouse_id);
                }
                Ok(self.working.warehouses[i].snapshot())
            },
            None => Err(ErrorModel::not_found("warehouse not found".to_owned())),
        }
    }

    /// The distinct project ids that own at least one warehouse.
    pub fn list_projects(&self) -> (r: Vec<u64>)
        ensures
            forall|p: u64|
                #[trigger] r@.contains(p) <==> exists|i: int|
                    0 <= i < self.working.warehouses@.len()
                        && #[trigger] self.working.warehouses@[i].project_id == p,
            forall|a: int, b: int| 0 <= a < b < r@.len() ==> r@[a] != r@[b],
    {
        let reg = &self.working;
        let mut r: Vec<u64> = Vec::new();
        let mut i: usize = 0;
        while i < reg.warehouses.len()
            invariant
                i <= reg.warehouses@.len(),
                forall|p: u64|
                    #[trigger] r@.contains(p) <==> exists|k: int|
                        0 <= k < i && #[trigger] reg.warehouses@[k].project_id == p,
                forall|a: int, b: int| 0 <= a < b < r@.len() ==> r@[a] != r@[b],
            decreases reg.warehouses@.len() - i,
        {
            let p = reg.warehouses[i].project_id;
            let already = match crate::pool::index_of_u64(&r, p) {
                Some(_) => true,
                None => false,
            };
            if !already {
                let ghost oldr = r@;
                r.push(p);
                proof {
                    assert forall|q: u64| #[trigger] r@.contains(q) implies exists|k: int|
                        0 <= k < i + 1 && #[trigger] reg.warehouses@[k].project_id == q by {
                        let j = choose|j: int| 0 <= j < r@.len() && r@[j] == q;
                        if j < oldr.len() {
                            assert(oldr.contains(q));
                        } else {
                            assert(reg.warehouses@[i as int].project_id == q);
                        }
                    }
                    assert forall|q: u64|
                        (exists|k: int|
                            0 <= k < i + 1 && #[trigger] reg.warehouses@[k].project_id
                                == q) implies #[trigger] r@.contains(q) by {
                        let k = choose|k: int|
                            0 <= k < i + 1 && reg.warehouses@[k].project_id == q;
                        if k < i {
                            assert(oldr.contains(q));
                            let j = choose|j: int| 0 <= j < oldr.len() && oldr[j] == q;
                            assert(r@[j] == q);
                        } else {
                            assert(r@[r@.len() - 1] == q);
                        }
                    }
                }
            } else {
                proof {
                    assert forall|q: u64|
                        (exists|k: int|
                            0 <= k < i + 1 && #[trigger] reg.warehouses@[k].project_id
                                == q) implies #[trigger] r@.contains(q) by {
                        let k = choose|k: int|
                            0 <= k < i + 1 && reg.warehouses@[k].project_id == q;
                        if k < i {
                        } else {
                            assert(r@.contains(p));
                        }
                    }
                }
            }
            i += 1;
        }
        r
    }

    /// The warehouses of a project, in id order. Inactive warehouses appear
    /// only when `include_inactive` is set; a caller that wants specific
    /// warehouses narrows the result by id, or fetches them one by one
    /// with `get_warehouse`.
    pub fn list_warehouses(&self, project_id: u64, include_inactive: bool) -> (r: Vec<Warehouse>)
        ensures
            r@ == self.working.warehouses@.filter(
                |w: Warehouse|
                    w.project_id == project_id && (include_inactive || w.status is Active),
            ),
    {
        let reg = &self.working;
        let ghost pred = |w: Warehouse|
            w.project_id == project_id && (include_inactive || w.status is Active);
        let mut r: Vec<Warehouse> = Vec::new();
        let mut i: usize = 0;
        proof {
            assert(reg.warehouses@.take(0) =~= Seq::<Warehouse>::empty());
            reveal(Seq::filter);
        }
        while i < reg.warehouses.len()
            invariant
                i <= reg.warehouses@.len(),
                r@ == reg.warehouses@.take(i as int).filter(pred),
                pred == (|w: Warehouse|
                    w.project_id == project_id && (include_inactive || w.status is Active)),
            decreases reg.warehouses@.len() - i,
        {
            let w = &reg.warehouses[i];
            proof {
                reveal(Seq::filter);
                assert(reg.warehouses@.take(i + 1).drop_last() =~= reg.warehouses@.take(i as int));
                assert(reg.warehouses@.take(i + 1).last() == reg.warehouses@[i as int]);
            }
            if w.project_id == project_id && (include_inactive || matches!(
                w.status,
                WarehouseStatus::Active,
            )) {
                r.push(w.snapshot());
                proof {
                    assert(r@ =~= reg.warehouses@.take(i + 1).filter(pred));
                }
            } else {
                proof {
                    assert(r@ =~= reg.warehouses@.take(i + 1).filter(pred));
                }
            }
            i += 1;
        }
        proof {
            assert(reg.warehouses@.take(reg.warehouses@.len() as int) =~= reg.warehouses@);
        }
        r
    }

    /// Remove a warehouse row permanently. Fails NotFound if absent.
    pub fn delete_warehouse(&mut self, warehouse_id: u64) -> (r: Result<(), ErrorModel>)
        requires
            old(self).wf(),
            old(self).is_write(),
        ensures
            final(self).wf(),
            final(self).mode == old(self).mode,
            final(self).conn == old(self).conn,
            match r {
                Ok(_) => {
                    &&& old(self).working.has_wh(warehouse_id)
                    &&& final(self).working.warehouses@ == old(self).working.warehouses@.remove(
                        old(self).working.wh_idx(warehouse_id),
                    )
                    &&& !final(self).working.has_wh(warehouse_id)
                    &&& final(self).working.namespaces == old(self).working.namespaces
                    &&& final(self).working.tabulars == old(self).working.tabulars
                    &&& final(self).working.next_warehouse_id == old(
                        self,
                    ).working.next_warehouse_id
                },
                Err(e) => {
                    &&& *final(self) == *old(self)
                    &&& !old(self).working.has_wh(warehouse_id)
                    &&& e.kind == ErrorKind::NotFound
                },
            },
    {
        match self.working.find_wh(warehouse_id) {
            Some(i) => {
                proof {
                    self.working.wh_idx_unique(i as int, warehouse_id);
                }
                let ghost olds = self.working;
                self.working.warehouses.remove(i);
                proof {
                    olds.warehouses@.remove_ensures(i as int);
                    assert forall|k: int|
                        0 <= k < self.working.warehouses@.len()
                            implies self.working.warehouses@[k].id != warehouse_id by {
                        if k < i {
                            assert(self.working.warehouses@[k] == olds.warehouses@[k]);
                        } else {
                            assert(self.working.warehouses@[k] == olds.warehouses@[k + 1]);
                        }
                    }
                }
                Ok(())
            },
            None => Err(ErrorModel::not_found("warehouse not found".to_owned())),
        }
    }

    /// Rename a warehouse; the stable id is unchanged. Fails NotFound if
    /// absent, Conflict if another warehouse of the project has the name.
    #[verifier::loop_isolation(false)]
    pub fn rename_warehouse(&mut self, warehouse_id: u64, new_name: String) -> (r: Result<
        (),
        ErrorModel,
    >)
        requires
            old(self).wf(),
            old(self).is_write(),
        ensures
            final(self).wf(),
            final(self).mode == old(self).mode,
            final(self).conn == old(self).conn,
            match r {
                Ok(_) => {
                    &&& old(self).working.has_wh(warehouse_id)
                    &&& final(self).working.warehouses@ == old(self).working.warehouses@.update(
                        old(self).working.wh_idx(warehouse_id),
                        Warehouse {
                            name: new_name,
                            ..old(self).working.wh(warehouse_id)
                        },
                    )
                    &&& final(self).working.has_wh(warehouse_id)
                    &&& final(self).working.wh(warehouse_id).name@ == new_name@
                    &&& final(self).working.wh(warehouse_id).id == warehouse_id
                    &&& final(self).working.namespaces == old(self).working.namespaces
                    &&& final(self).working.tabulars == old(self).working.tabulars
                },
                Err(e) => {
                    &&& *final(self) == *old(self)
                    &&& e.kind == (if !old(self).working.has_wh(warehouse_id) {
                        ErrorKind::NotFound
                    } else {
                        ErrorKind::Conflict
                    })
                    &&& (!old(self).working.has_wh(warehouse_id) || exists|k: int|
                        0 <= k < old(self).working.warehouses@.len()
                            && #[trigger] old(self).working.warehouses@[k].project_id == old(
                            self,
                        ).working.wh(warehouse_id).project_id && old(
                            self,
                        ).working.warehouses@[k].name@ == new_name@ && old(
                            self,
                        ).working.warehouses@[k].id != warehouse_id)
                },
            },
    {
        let idx = match self.working.find_wh(warehouse_id) {
            Some(i) => i,
            None => {
                return Err(ErrorModel::not_found("warehouse not found".to_owned()));
            },
        };
        proof {
            self.working.wh_idx_unique(idx as int, warehouse_id);
        }
        let project_id = self.working.warehouses[idx].project_id;
        let reg = &self.working;
        let mut k: usize = 0;
        while k < reg.warehouses.len()
            invariant
                k <= reg.warehouses@.len(),
                forall|j: int|
                    0 <= j < k ==> !(reg.warehouses@[j].project_id == project_id
                        && reg.warehouses@[j].name@ == new_name@ && reg.warehouses@[j].id
                        != warehouse_id),
            decreases reg.warehouses@.len() - k,
        {
            if reg.warehouses[k].project_id == project_id && reg.warehouses[k].name == new_name
                && reg.warehouses[k].id != warehouse_id {
                return Err(ErrorModel::conflict("warehouse name already taken in project".to_owned()));
            }
            k += 1;
        }
        let w = self.working.warehouses[idx].snapshot();
        let updated = Warehouse {
            id: w.id,
            project_id: w.project_id,
            name: new_name,
            status: w.status,
            storage_profile: w.storage_profile,
            storage_secret_id: w.storage_secret_id,
        };
        let ghost olds = self.working;
        vec_update(&mut self.working.warehouses, idx, updated);
        proof {
            assert forall|a: int, b: int|
                0 <= a < b < self.working.warehouses@.len() && self.working.warehouses@[
                    a
                ].project_id == self.working.warehouses@[b].project_id
                    implies self.working.warehouses@[a].name@
                != self.working.warehouses@[b].name@ by {
                if a != idx && b != idx {
                    assert(self.working.warehouses@[a] == olds.warehouses@[a]);
                    assert(self.working.warehouses@[b] == olds.warehouses@[b]);
                }
            }
            self.working.wh_idx_unique(idx as int, warehouse_id);
        }
        Ok(())
    }

    /// Set the lifecycle status of a warehouse; transitions are
    /// caller-driven. Fails NotFound if absent.
    pub fn set_warehouse_status(&mut self, warehouse_id: u64, status: WarehouseStatus) -> (r:
        Result<(), ErrorModel>)
        requires
            old(self).wf(),
            old(self).is_write(),
        ensures
            final(self).wf(),
            final(self).mode == old(self).mode,
            final(self).conn == old(self).conn,
            match r {
                Ok(_) => {
                    &&& old(self).working.has_wh(warehouse_id)
                    &&& final(self).working.warehouses@ == old(self).working.warehouses@.update(
                        old(self).working.wh_idx(warehouse_id),
                        Warehouse { status, ..old(self).working.wh(warehouse_id) },
                    )
                    &&& final(self).working.has_wh(warehouse_id)
                    &&& final(self).working.wh(warehouse_id).status == status
                    &&& final(self).working.wh(warehouse_id).id == warehouse_id
                    &&& final(self).working.namespaces == old(self).working.namespaces
                    &&& final(self).working.tabulars == old(self).working.tabulars
                },
                Err(e) => {
                    &&& *final(self) == *old(self)
                    &&& !old(self).working.has_wh(warehouse_id)
                    &&& e.kind == ErrorKind::NotFound
                },
            },
    {
        let idx = match self.working.find_wh(warehouse_id) {
            Some(i) => i,
            None => {
                return Err(ErrorModel::not_found("warehouse not found".to_owned()));
            },
        };
        proof {
            self.working.wh_idx_unique(idx as int, warehouse_id);
        }
        let w = self.working.warehouses[idx].snapshot();
        let updated = Warehouse {
            id: w.id,
            project_id: w.project_id,
            name: w.name,
            status,
            storage_profile: w.storage_profile,
            storage_secret_id: w.storage_secret_id,
        };
        let ghost olds = self.working;
        vec_update(&mut self.working.warehouses, idx, updated);
        proof {
            assert forall|a: int, b: int|
                0 <= a < b < self.working.warehouses@.len() && self.working.warehouses@[
                    a
                ].project_id == self.working.warehouses@[b].project_id
                    implies self.working.warehouses@[a].name@
                != self.working.warehouses@[b].name@ by {
                if a != idx && b != idx {
                    assert(self.working.warehouses@[a] == olds.warehouses@[a]);
                    assert(self.working.warehouses@[b] == olds.warehouses@[b]);
                } else {
                    assert(olds.warehouses@[a].project_id == olds.warehouses@[b].project_id
                        ==> olds.warehouses@[a].name@ != olds.warehouses@[b].name@);
                }
            }
            self.working.wh_idx_unique(idx as int, warehouse_id);
        }
        Ok(())
    }

    /// Replace the storage profile and secret reference of a warehouse.
    /// Only configuration for future writes changes: no table row, hence no
    /// existing metadata location, is touched.
    pub fn update_storage_profile(
        &mut self,
        warehouse_id: u64,
        storage_profile: StorageProfile,
        storage_secret_id: Option<u64>,
    ) -> (r: Result<(), ErrorModel>)
        requires
            old(self).wf(),
            old(self).is_write(),
        ensures
            final(self).wf(),
            final(self).mode == old(self).mode,
            final(self).conn == old(self).conn,
            final(self).working.tabulars == old(self).working.tabulars,
            match r {
                Ok(_) => {
                    &&& old(self).working.has_wh(warehouse_id)
                    &&& final(self).working.warehouses@ == old(self).working.warehouses@.update(
                        old(self).working.wh_idx(warehouse_id),
                        Warehouse {
                            storage_profile,
                            storage_secret_id,
                            ..old(self).working.wh(warehouse_id)
                        },
                    )
                    &&& final(self).working.has_wh(warehouse_id)
                    &&& final(self).working.wh(warehouse_id).id == warehouse_id
                    &&& final(self).working.namespaces == old(self).working.namespaces
                },
                Err(e) => {
                    &&& *final(self) == *old(self)
                    &&& !old(self).working.has_wh(warehouse_id)
                    &&& e.kind == ErrorKind::NotFound
                },
            },
    {
        let idx = match self.working.find_wh(warehouse_id) {
            Some(i) => i,
            None => {
                return Err(ErrorModel::not_found("warehouse not found".to_owned()));
            },
        };
        proof {
            self.working.wh_idx_unique(idx as int, warehouse_id);
        }
        let w = self.working.warehouses[idx].snapshot();
        let updated = Warehouse {
            id: w.id,
            project_id: w.project_id,
            name: w.name,
            status: w.status,
            storage_profile,
            storage_secret_id,
        };
        let ghost olds = self.working;
        vec_update(&mut self.working.warehouses, idx, updated);
        proof {
            assert forall|a: int, b: int|
                0 <= a < b < self.working.warehouses@.len() && self.working.warehouses@[
                    a
                ].project_id == self.working.warehouses@[b].project_id
                    implies self.working.warehouses@[a].name@
                != self.working.warehouses@[b].name@ by {
                if a != idx && b != idx {
                    assert(self.working.warehouses@[a] == olds.warehouses@[a]);
                    assert(self.working.warehouses@[b] == olds.warehouses@[b]);
                }
            }
            self.working.wh_idx_unique(idx as int, warehouse_id);
        }
        Ok(())
    }
    /// Create a namespace in an Active warehouse under a caller-supplied
    /// stable id. Fails NotFound if the warehouse is absent, InvalidState if
    /// it is not Active, Conflict if the name or the id is already taken.
    #[verifier::rlimit(50)]
    pub fn create_namespace(
        &mut self,
        warehouse_id: u64,
        namespace_id: u64,
        name: Vec<String>,
        properties: Vec<(String, String)>,
    ) -> (r: Result<(), ErrorModel>)
        requires
            old(self).wf(),
            old(self).is_write(),
            props_unique(properties@),
        ensures
            final(self).wf(),
            final(self).mode == old(self).mode,
            final(self).conn == old(self).conn,
            match r {
                Ok(_) => {
                    &&& old(self).working.has_wh(warehouse_id)
                    &&& old(self).working.wh(warehouse_id).status is Active
                    &&& !old(self).working.has_ns_named(warehouse_id, name.deep_view())
                    &&& !old(self).working.has_ns(namespace_id)
                    &&& final(self).working.has_ns(namespace_id)
                    &&& final(self).working.ns(namespace_id) == (Namespace {
                        id: namespace_id,
                        warehouse_id,
                        name,
                        properties,
                    })
                    &&& final(self).working.has_ns_named(warehouse_id, name.deep_view())
                    &&& final(self).working.ns_named(warehouse_id, name.deep_view()).id
                        == namespace_id
                    &&& final(self).working.namespaces@.len() == old(
                        self,
                    ).working.namespaces@.len() + 1
                    &&& final(self).working.warehouses == old(self).working.warehouses
                    &&& final(self).working.tabulars == old(self).working.tabulars
                    &&& final(self).working.next_warehouse_id == old(
                        self,
                    ).working.next_warehouse_id
                },
                Err(e) => {
                    &&& *final(self) == *old(self)
                    &&& e.kind == (if !old(self).working.has_wh(warehouse_id) {
                        ErrorKind::NotFound
                    } else if !(old(self).working.wh(warehouse_id).status is Active) {
                        ErrorKind::InvalidState
                    } else {
                        ErrorKind::Conflict
                    })
                    &&& !(old(self).working.has_wh(warehouse_id) && old(self).working.wh(
                        warehouse_id,
                    ).status is Active && !old(self).working.has_ns_named(
                        warehouse_id,
                        name.deep_view(),
                    ) && !old(self).working.has_ns(namespace_id))
                },
            },
    {
        let wi = match self.working.find_wh(warehouse_id) {
            Some(i) => i,
            None => {
                return Err(ErrorModel::not_found("warehouse not found".to_owned()));
            },
        };
        proof {
            self.working.wh_idx_unique(wi as int, warehouse_id);
        }
        if !matches!(self.working.warehouses[wi].status, WarehouseStatus::Active) {
            return Err(ErrorModel::invalid_state("warehouse is not active".to_owned()));
        }
        if let Some(_) = self.working.find_ns_named(warehouse_id, &name) {
            return Err(ErrorModel::conflict("namespace name already taken".to_owned()));
        }
        if let Some(j) = self.working.find_ns(namespace_id) {
            proof {
                self.working.ns_idx_unique(j as int, namespace_id);
            }
            return Err(ErrorModel::conflict("namespace id already in use".to_owned()));
        }
        let ns = Namespace { id: namespace_id, warehouse_id, name, properties };
        let ghost olds = self.working;
        let ghost gns = ns;
        self.working.insert_ns(ns);
        proof {
            let p = choose|p: int|
                0 <= p <= olds.namespaces@.len() && self.working.namespaces@
                    == olds.namespaces@.insert(p, gns);
            olds.namespaces@.insert_ensures(p, gns);
            let s = self.working.namespaces@;
            assert forall|a: int, b: int|
                0 <= a < b < s.len() && s[a].warehouse_id == s[b].warehouse_id implies s[
                a
            ].name.deep_view() != s[b].name.deep_view() by {
                if a == p {
                    assert(s[b] == olds.namespaces@[b - 1]);
                    assert(!olds.has_ns_named(warehouse_id, gns.name.deep_view()));
                } else if b == p {
                    assert(s[a] == olds.namespaces@[a]);
                    assert(!olds.has_ns_named(warehouse_id, gns.name.deep_view()));
                } else {
                    let a0 = if a < p { a } else { a - 1 };
                    let b0 = if b < p { b } else { b - 1 };
                    assert(s[a] == olds.namespaces@[a0]);
                    assert(s[b] == olds.namespaces@[b0]);
                }
            }
            assert forall|k: int| 0 <= k < s.len() implies props_unique(
                #[trigger] s[k].properties@,
            ) by {
                if k != p {
                    let k0 = if k < p { k } else { k - 1 };
                    assert(s[k] == olds.namespaces@[k0]);
                }
            }
            self.working.ns_named_unique(
                self.working.ns_idx(namespace_id),
                warehouse_id,
                gns.name.deep_view(),
            );
        }
        Ok(())
    }

    /// Fetch a namespace by name within a warehouse; the returned row
    /// carries exactly the stored properties. Fails NotFound if absent.
    pub fn get_namespace(&self, warehouse_id: u64, name: &Vec<String>) -> (r: Result<
        Namespace,
        ErrorModel,
    >)
        requires
            self.wf(),
        ensures
            match r {
                Ok(ns) => {
                    &&& self.working.has_ns_named(warehouse_id, name.deep_view())
                    &&& ns.like(self.working.ns_named(warehouse_id, name.deep_view()))
                },
                Err(e) => {
                    &&& !self.working.has_ns_named(warehouse_id, name.deep_view())
                    &&& e.kind == ErrorKind::NotFound
                },
            },
    {
        match self.working.find_ns_named(warehouse_id, name) {
            Some(i) => {
                proof {
                    self.working.ns_named_unique(i as int, warehouse_id, name.deep_view());
                }
                Ok(self.working.namespaces[i].snapshot())
            },
            None => Err(ErrorModel::not_found("namespace not found".to_owned())),
        }
    }

    /// Resolve a namespace name to its stable id; `None`, not an error, if
    /// absent.
    pub fn namespace_ident_to_id(&self, warehouse_id: u64, name: &Vec<String>) -> (r: Option<u64>)
        requires
            self.wf(),
        ensures
            match r {
                Some(id) => {
                    &&& self.working.has_ns_named(warehouse_id, name.deep_view())
                    &&& self.working.ns_named(warehouse_id, name.deep_view()).id == id
                },
                None => !self.working.has_ns_named(warehouse_id, name.deep_view()),
            },
    {
        match self.working.find_ns_named(warehouse_id, name) {
            Some(i) => {
                proof {
                    self.working.ns_named_unique(i as int, warehouse_id, name.deep_view());
                }
                Some(self.working.namespaces[i].id)
            },
            None => None,
        }
    }

    /// Drop a namespace. Fails NotFound if absent and Conflict while at
    /// least one non-deleted table or view child exists; succeeds once
    /// empty, removing the row.
    #[verifier::loop_isolation(false)]
    pub fn drop_namespace(&mut self, warehouse_id: u64, name: &Vec<String>) -> (r: Result<
        (),
        ErrorModel,
    >)
        requires
            old(self).wf(),
            old(self).is_write(),
        ensures
            final(self).wf(),
            final(self).mode == old(self).mode,
            final(self).conn == old(self).conn,
            match r {
                Ok(_) => {
                    &&& old(self).working.has_ns_named(warehouse_id, name.deep_view())
                    &&& forall|k: int|
                        0 <= k < old(self).working.tabulars@.len()
                            ==> !(#[trigger] old(self).working.tabulars@[k].namespace_id == old(
                            self,
                        ).working.ns_named(warehouse_id, name.deep_view()).id && !old(
                            self,
                        ).working.tabulars@[k].deleted)
                    &&& final(self).working.namespaces@ == old(self).working.namespaces@.remove(
                        old(self).working.ns_named_idx(warehouse_id, name.deep_view()),
                    )
                    &&& !final(self).working.has_ns_named(warehouse_id, name.deep_view())
                    &&& final(self).working.warehouses == old(self).working.warehouses
                    &&& final(self).working.tabulars == old(self).working.tabulars
                    &&& final(self).working.next_warehouse_id == old(
                        self,
                    ).working.next_warehouse_id
                },
                Err(e) => {
                    &&& *final(self) == *old(self)
                    &&& if !old(self).working.has_ns_named(warehouse_id, name.deep_view()) {
                        e.kind == ErrorKind::NotFound
                    } else {
                        &&& e.kind == ErrorKind::Conflict
                        &&& exists|k: int|
                            0 <= k < old(self).working.tabulars@.len()
                                && #[trigger] old(self).working.tabulars@[k].namespace_id == old(
                                self,
                            ).working.ns_named(warehouse_id, name.deep_view()).id && !old(
                                self,
                            ).working.tabulars@[k].deleted
                    }
                },
            },
    {
        let idx = match self.working.find_ns_named(warehouse_id, name) {
            Some(i) => i,
            None => {
                return Err(ErrorModel::not_found("namespace not found".to_owned()));
            },
        };
        proof {
            self.working.ns_named_unique(idx as int, warehouse_id, name.deep_view());
        }
        let ns_id = self.working.namespaces[idx].id;
        let reg = &self.working;
        let mut k: usize = 0;
        while k < reg.tabulars.len()
            invariant
                k <= reg.tabulars@.len(),
                forall|j: int|
                    0 <= j < k ==> !(#[trigger] reg.tabulars@[j].namespace_id == ns_id
                        && !reg.tabulars@[j].deleted),
                reg == &self.working,
                ns_id == self.working.ns_named(warehouse_id, name.deep_view()).id,
                *self == *old(self),
                self.working.has_ns_named(warehouse_id, name.deep_view()),
            decreases reg.tabulars@.len() - k,
        {
            if reg.tabulars[k].namespace_id == ns_id && !reg.tabulars[k].deleted {
                return Err(ErrorModel::conflict("namespace is not empty".to_owned()));
            }
            k += 1;
        }
        let ghost olds = self.working;
        self.working.namespaces.remove(idx);
        proof {
            olds.namespaces@.remove_ensures(idx as int);
            let s = self.working.namespaces@;
            assert forall|a: int, b: int| 0 <= a < b < s.len() implies (s[a].id < s[b].id && (
            s[a].warehouse_id == s[b].warehouse_id ==> s[a].name.deep_view()
                != s[b].name.deep_view()) && props_unique(s[a].properties@) && props_unique(
                s[b].properties@,
            )) by {
                let a0 = if a < idx { a } else { a + 1 };
                let b0 = if b < idx { b } else { b + 1 };
                assert(s[a] == olds.namespaces@[a0]);
                assert(s[b] == olds.namespaces@[b0]);
            }
            assert forall|k2: int| 0 <= k2 < s.len() implies props_unique(
                #[trigger] s[k2].properties@,
            ) by {
                let k0 = if k2 < idx { k2 } else { k2 + 1 };
                assert(s[k2] == olds.namespaces@[k0]);
            }
            assert forall|k2: int|
                0 <= k2 < s.len() implies !(#[trigger] s[k2].warehouse_id == warehouse_id && s[
                k2
            ].name.deep_view() == name.deep_view()) by {
                let k0 = if k2 < idx { k2 } else { k2 + 1 };
                assert(s[k2] == olds.namespaces@[k0]);
                if k0 != idx {
                    assert(olds.ns_names_unique());
                }
            }
        }
        Ok(())
    }

    /// Merge properties into a namespace: supplied keys overwrite, all
    /// other keys are untouched. Fails NotFound if the namespace is absent.
    pub fn update_namespace_properties(
        &mut self,
        warehouse_id: u64,
        name: &Vec<String>,
        updates: Vec<(String, String)>,
    ) -> (r: Result<(), ErrorModel>)
        requires
            old(self).wf(),
            old(self).is_write(),
            props_unique(updates@),
        ensures
            final(self).wf(),
            final(self).mode == old(self).mode,
            final(self).conn == old(self).conn,
            match r {
                Ok(_) => ({
                    let w0 = old(self).working;
                    let w1 = final(self).working;
                    let nm = name.deep_view();
                    &&& w0.has_ns_named(warehouse_id, nm)
                    &&& w1.has_ns_named(warehouse_id, nm)
                    &&& w1.namespaces@.len() == w0.namespaces@.len()
                    &&& forall|k: int|
                        0 <= k < w1.namespaces@.len() && k != w0.ns_named_idx(warehouse_id, nm)
                            ==> w1.namespaces@[k] == w0.namespaces@[k]
                    &&& w1.ns_named(warehouse_id, nm).id == w0.ns_named(warehouse_id, nm).id
                    &&& forall|q: Seq<char>|
                        props_lookup(w1.ns_named(warehouse_id, nm).properties@, q) == (
                        match props_lookup(updates@, q) {
                            Some(v) => Some(v),
                            None => props_lookup(w0.ns_named(warehouse_id, nm).properties@, q),
                        })
                    &&& w1.warehouses == w0.warehouses
                    &&& w1.tabulars == w0.tabulars
                }),
                Err(e) => {
                    &&& *final(self) == *old(self)
                    &&& !old(self).working.has_ns_named(warehouse_id, name.deep_view())
                    &&& e.kind == ErrorKind::NotFound
                },
            },
    {
        let idx = match self.working.find_ns_named(warehouse_id, name) {
            Some(i) => i,
            None => {
                return Err(ErrorModel::not_found("namespace not found".to_owned()));
            },
        };
        proof {
            self.working.ns_named_unique(idx as int, warehouse_id, name.deep_view());
        }
        let old_ns = self.working.namespaces[idx].snapshot();
        let ghost base = self.working.namespaces@[idx as int].properties@;
        let mut merged = old_ns.properties;
        let mut i: usize = 0;
        while i < updates.len()
            invariant
                i <= updates@.len(),
                props_unique(updates@),
                props_unique(merged@),
                forall|q: Seq<char>|
                    props_lookup(merged@, q) == (match props_lookup(updates@.take(i as int), q) {
                        Some(v) => Some(v),
                        None => props_lookup(base, q),
                    }),
            decreases updates@.len() - i,
        {
            let key = updates[i].0.clone();
            let value = updates[i].1.clone();
            let ghost before = merged@;
            props_set(&mut merged, key, value);
            proof {
                assert(updates@.take(i + 1).drop_last() =~= updates@.take(i as int));
                assert(updates@.take(i + 1) =~= updates@.take(i as int).push(
                    updates@[i as int],
                ));
                assert forall|q: Seq<char>| true implies props_lookup(merged@, q) == (
                match props_lookup(updates@.take(i + 1), q) {
                    Some(v) => Some(v),
                    None => props_lookup(base, q),
                }) by {
                    lemma_props_lookup_snoc(updates@.take(i as int), updates@[i as int], q);
                    if q == updates@[i as int].0@ {
                        assert forall|k: int|
                            0 <= k < i implies updates@.take(i as int)[k].0@ != q by {
                            assert(updates@[k].0@ != updates@[i as int].0@);
                        }
                        lemma_props_lookup_absent(updates@.take(i as int), q);
                    }
                }
            }
            i += 1;
        }
        proof {
            assert(updates@.take(updates@.len() as int) =~= updates@);
        }
        let new_ns = Namespace {
            id: old_ns.id,
            warehouse_id: old_ns.warehouse_id,
            name: old_ns.name,
            properties: merged,
        };
        let ghost olds = self.working;
        vec_update(&mut self.working.namespaces, idx, new_ns);
        proof {
            let s = self.working.namespaces@;
            assert(s[idx as int].name.deep_view() =~= olds.namespaces@[idx as int].name.deep_view());
            assert forall|a: int, b: int|
                0 <= a < b < s.len() && s[a].warehouse_id == s[b].warehouse_id implies s[
                a
            ].name.deep_view() != s[b].name.deep_view() by {
                if a != idx && b != idx {
                    assert(s[a] == olds.namespaces@[a]);
                    assert(s[b] == olds.namespaces@[b]);
                } else if a == idx {
                    assert(s[b] == olds.namespaces@[b]);
                    assert(olds.namespaces@[a].name.deep_view() != olds.namespaces@[
                        b
                    ].name.deep_view());
                } else {
                    assert(s[a] == olds.namespaces@[a]);
                    assert(olds.namespaces@[a].name.deep_view() != olds.namespaces@[
                        b
                    ].name.deep_view());
                }
            }
            assert forall|k: int| 0 <= k < s.len() implies props_unique(
                #[trigger] s[k].properties@,
            ) by {
                if k != idx {
                    assert(s[k] == olds.namespaces@[k]);
                }
            }
            self.working.ns_named_unique(idx as int, warehouse_id, name.deep_view());
        }
        Ok(())
    }
    /// Shared creation path for tables and views. The id is caller-supplied
    /// so a stable identity exists even for a stage-create.
    #[verifier::rlimit(100)]
    #[verifier::spinoff_prover]
    fn create_tabular(
        &mut self,
        namespace_id: u64,
        name: String,
        tabular_id: u64,
        kind: TabularKind,
        metadata: String,
        metadata_location: Option<String>,
    ) -> (r: Result<(), ErrorModel>)
        requires
            old(self).wf(),
            old(self).is_write(),
            kind is View ==> metadata_location is Some,
        ensures
            final(self).wf(),
            final(self).mode == old(self).mode,
            final(self).conn == old(self).conn,
            match r {
                Ok(_) => ({
                    let w0 = old(self).working;
                    let w1 = final(self).working;
                    &&& w0.has_ns(namespace_id)
                    &&& w0.has_wh(w0.ns(namespace_id).warehouse_id)
                    &&& w0.wh(w0.ns(namespace_id).warehouse_id).status is Active
                    &&& !w0.tab_name_taken(namespace_id, name@)
                    &&& !w0.has_tab(tabular_id)
                    &&& w1.has_tab(tabular_id)
                    &&& w1.tab(tabular_id) == (Tabular {
                        id: tabular_id,
                        namespace_id,
                        name,
                        kind,
                        metadata_location,
                        metadata,
                        staged: metadata_location is None,
                        deleted: false,
                    })
                    &&& w1.tab_name_taken(namespace_id, name@)
                    &&& w1.tab_named(namespace_id, name@).id == tabular_id
                    &&& w1.tabulars@.len() == w0.tabulars@.len() + 1
                    &&& w1.warehouses == w0.warehouses
                    &&& w1.namespaces == w0.namespaces
                    &&& w1.next_warehouse_id == w0.next_warehouse_id
                }),
                Err(e) => ({
                    let w0 = old(self).working;
                    &&& *final(self) == *old(self)
                    &&& e.kind == (if !w0.has_ns(namespace_id) || !w0.has_wh(
                        w0.ns(namespace_id).warehouse_id,
                    ) {
                        ErrorKind::NotFound
                    } else if !(w0.wh(w0.ns(namespace_id).warehouse_id).status is Active) {
                        ErrorKind::InvalidState
                    } else {
                        ErrorKind::Conflict
                    })
                    &&& !(w0.has_ns(namespace_id) && w0.has_wh(w0.ns(namespace_id).warehouse_id)
                        && w0.wh(w0.ns(namespace_id).warehouse_id).status is Active
                        && !w0.tab_name_taken(namespace_id, name@) && !w0.has_tab(tabular_id))
                }),
            },
    {
        let ni = match self.working.find_ns(namespace_id) {
            Some(i) => i,
            None => {
                return Err(ErrorModel::not_found("namespace not found".to_owned()));
            },
        };
        proof {
            self.working.ns_idx_unique(ni as int, namespace_id);
        }
        let warehouse_id = self.working.namespaces[ni].warehouse_id;
        let wi = match self.working.find_wh(warehouse_id) {
            Some(i) => i,
            None => {
                return Err(ErrorModel::not_found("warehouse not found".to_owned()));
            },
        };
        proof {
            self.working.wh_idx_unique(wi as int, warehouse_id);
        }
        if !matches!(self.working.warehouses[wi].status, WarehouseStatus::Active) {
            return Err(ErrorModel::invalid_state("warehouse is not active".to_owned()));
        }
        if let Some(_) = self.working.find_tab_named(namespace_id, &name) {
            return Err(ErrorModel::conflict("tabular name already taken".to_owned()));
        }
        if let Some(j) = self.working.find_tab(tabular_id) {
            proof {
                self.working.tab_idx_unique(j as int, tabular_id);
            }
            return Err(ErrorModel::conflict("tabular id already in use".to_owned()));
        }
        let staged = metadata_location.is_none();
        let t = Tabular {
            id: tabular_id,
            namespace_id,
            name,
            kind,
            metadata_location,
            metadata,
            staged,
            deleted: false,
        };
        let ghost olds = self.working;
        let ghost gt = t;
        self.working.insert_tab(t);
        proof {
            let p = choose|p: int|
                0 <= p <= olds.tabulars@.len() && self.working.tabulars@ == olds.tabulars@.insert(
                    p,
                    gt,
                );
            olds.tabulars@.insert_ensures(p, gt);
            let s = self.working.tabulars@;
            assert forall|a: int, b: int|
                0 <= a < b < s.len() && s[a].namespace_id == s[b].namespace_id && !s[a].deleted
                    && !s[b].deleted implies s[a].name@ != s[b].name@ by {
                if a == p {
                    assert(s[b] == olds.tabulars@[b - 1]);
                    assert(!olds.tab_name_taken(namespace_id, gt.name@));
                } else if b == p {
                    assert(s[a] == olds.tabulars@[a]);
                    assert(!olds.tab_name_taken(namespace_id, gt.name@));
                } else {
                    let a0 = if a < p { a } else { a - 1 };
                    let b0 = if b < p { b } else { b - 1 };
                    assert(s[a] == olds.tabulars@[a0]);
                    assert(s[b] == olds.tabulars@[b0]);
                }
            }
            assert forall|k: int| 0 <= k < s.len() implies (#[trigger] s[k]).shape_ok() by {
                if k != p {
                    let k0 = if k < p { k } else { k - 1 };
                    assert(s[k] == olds.tabulars@[k0]);
                }
            }
            self.working.tab_named_unique(self.working.tab_idx(tabular_id), namespace_id, gt.name@);
        }
        Ok(())
    }

    /// Create a table under a caller-supplied id. With no metadata location
    /// the table is staged: identity reserved, invisible by default. Fails
    /// Conflict on a duplicate name or id, InvalidState if the warehouse is
    /// not Active, NotFound if the namespace is absent.
    pub fn create_table(
        &mut self,
        namespace_id: u64,
        name: String,
        table_id: u64,
        metadata: String,
        metadata_location: Option<String>,
    ) -> (r: Result<(), ErrorModel>)
        requires
            old(self).wf(),
            old(self).is_write(),
        ensures
            final(self).wf(),
            final(self).mode == old(self).mode,
            final(self).conn == old(self).conn,
            match r {
                Ok(_) => ({
                    let w0 = old(self).working;
                    let w1 = final(self).working;
                    &&& w0.has_ns(namespace_id)
                    &&& w0.wh(w0.ns(namespace_id).warehouse_id).status is Active
                    &&& !w0.tab_name_taken(namespace_id, name@)
                    &&& !w0.has_tab(table_id)
                    &&& w1.has_tab(table_id)
                    &&& w1.tab(table_id) == (Tabular {
                        id: table_id,
                        namespace_id,
                        name,
                        kind: TabularKind::Table,
                        metadata_location,
                        metadata,
                        staged: metadata_location is None,
                        deleted: false,
                    })
                    &&& w1.tab_name_taken(namespace_id, name@)
                    &&& w1.tab_named(namespace_id, name@).id == table_id
                    &&& w1.warehouses == w0.warehouses
                    &&& w1.namespaces == w0.namespaces
                }),
                Err(e) => ({
                    let w0 = old(self).working;
                    &&& *final(self) == *old(self)
                    &&& e.kind == (if !w0.has_ns(namespace_id) || !w0.has_wh(
                        w0.ns(namespace_id).warehouse_id,
                    ) {
                        ErrorKind::NotFound
                    } else if !(w0.wh(w0.ns(namespace_id).warehouse_id).status is Active) {
                        ErrorKind::InvalidState
                    } else {
                        ErrorKind::Conflict
                    })
                    &&& !(w0.has_ns(namespace_id) && w0.has_wh(w0.ns(namespace_id).warehouse_id)
                        && w0.wh(w0.ns(namespace_id).warehouse_id).status is Active
                        && !w0.tab_name_taken(namespace_id, name@) && !w0.has_tab(table_id))
                }),
            },
    {
        self.create_tabular(
            namespace_id,
            name,
            table_id,
            TabularKind::Table,
            metadata,
            metadata_location,
        )
    }

    /// Create a view under a caller-supplied id. Views have no staged
    /// state: a metadata location is always present.
    pub fn create_view(
        &mut self,
        namespace_id: u64,
        name: String,
        view_id: u64,
        metadata: String,
        metadata_location: String,
    ) -> (r: Result<(), ErrorModel>)
        requires
            old(self).wf(),
            old(self).is_write(),
        ensures
            final(self).wf(),
            final(self).mode == old(self).mode,
            final(self).conn == old(self).conn,
            match r {
                Ok(_) => ({
                    let w0 = old(self).working;
                    let w1 = final(self).working;
                    &&& w0.has_ns(namespace_id)
                    &&& w0.wh(w0.ns(namespace_id).warehouse_id).status is Active
                    &&& !w0.tab_name_taken(namespace_id, name@)
                    &&& !w0.has_tab(view_id)
                    &&& w1.has_tab(view_id)
                    &&& w1.tab(view_id) == (Tabular {
                        id: view_id,
                        namespace_id,
                        name,
                        kind: TabularKind::View,
                        metadata_location: Some(metadata_location),
                        metadata,
                        staged: false,
                        deleted: false,
                    })
                    &&& w1.tab_name_taken(namespace_id, name@)
                    &&& w1.tab_named(namespace_id, name@).id == view_id
                    &&& w1.warehouses == w0.warehouses
                    &&& w1.namespaces == w0.namespaces
                }),
                Err(e) => ({
                    let w0 = old(self).working;
                    &&& *final(self) == *old(self)
                    &&& e.kind == (if !w0.has_ns(namespace_id) || !w0.has_wh(
                        w0.ns(namespace_id).warehouse_id,
                    ) {
                        ErrorKind::NotFound
                    } else if !(w0.wh(w0.ns(namespace_id).warehouse_id).status is Active) {
                        ErrorKind::InvalidState
                    } else {
                        ErrorKind::Conflict
                    })
                    &&& !(w0.has_ns(namespace_id) && w0.has_wh(w0.ns(namespace_id).warehouse_id)
                        && w0.wh(w0.ns(namespace_id).warehouse_id).status is Active
                        && !w0.tab_name_taken(namespace_id, name@) && !w0.has_tab(view_id))
                }),
            },
    {
        self.create_tabular(
            namespace_id,
            name,
            view_id,
            TabularKind::View,
            metadata,
            Some(metadata_location),
        )
    }

    /// Direct fetch of a table row by id, honoring the visibility flags.
    /// Fails NotFound if the row is absent, not a table, outside the
    /// warehouse, or excluded by the flags.
    pub fn get_table_metadata_by_id(
        &self,
        warehouse_id: u64,
        table_id: u64,
        list_flags: ListFlags,
    ) -> (r: Result<Tabular, ErrorModel>)
        requires
            self.wf(),
        ensures
            match r {
                Ok(t) => {
                    &&& self.working.has_tab(table_id)
                    &&& t == self.working.tab(table_id)
                    &&& t.kind is Table
                    &&& self.working.tab_in_wh(t, warehouse_id)
                    &&& t.visible(list_flags)
                },
                Err(e) => {
                    &&& e.kind == ErrorKind::NotFound
                    &&& !(self.working.has_tab(table_id) && self.working.tab(table_id).kind
                        is Table && self.working.tab_in_wh(self.working.tab(table_id), warehouse_id)
                        && self.working.tab(table_id).visible(list_flags))
                },
            },
    {
        let ti = match self.working.find_tab(table_id) {
            Some(i) => i,
            None => {
                return Err(ErrorModel::not_found("table not found".to_owned()));
            },
        };
        proof {
            self.working.tab_idx_unique(ti as int, table_id);
        }
        let t = &self.working.tabulars[ti];
        if !matches!(t.kind, TabularKind::Table) {
            return Err(ErrorModel::not_found("table not found".to_owned()));
        }
        let ni = match self.working.find_ns(t.namespace_id) {
            Some(i) => i,
            None => {
                return Err(ErrorModel::not_found("table not found".to_owned()));
            },
        };
        proof {
            self.working.ns_idx_unique(ni as int, t.namespace_id);
        }
        if self.working.namespaces[ni].warehouse_id != warehouse_id {
            return Err(ErrorModel::not_found("table not found".to_owned()));
        }
        if (t.staged && !list_flags.include_staged) || (t.deleted && !list_flags.include_deleted) {
            return Err(ErrorModel::not_found("table not found".to_owned()));
        }
        Ok(self.working.tabulars[ti].snapshot())
    }

    /// Load a view row by id; soft-deleted views appear only when
    /// `include_deleted` is set.
    pub fn load_view(&self, view_id: u64, include_deleted: bool) -> (r: Result<
        Tabular,
        ErrorModel,
    >)
        requires
            self.wf(),
        ensures
            match r {
                Ok(t) => {
                    &&& self.working.has_tab(view_id)
                    &&& t == self.working.tab(view_id)
                    &&& t.kind is View
                    &&& !t.deleted || include_deleted
                },
                Err(e) => {
                    &&& e.kind == ErrorKind::NotFound
                    &&& !(self.working.has_tab(view_id) && self.working.tab(view_id).kind is View
                        && (!self.working.tab(view_id).deleted || include_deleted))
                },
            },
    {
        let ti = match self.working.find_tab(view_id) {
            Some(i) => i,
            None => {
                return Err(ErrorModel::not_found("view not found".to_owned()));
            },
        };
        proof {
            self.working.tab_idx_unique(ti as int, view_id);
        }
        let t = &self.working.tabulars[ti];
        if !matches!(t.kind, TabularKind::View) {
            return Err(ErrorModel::not_found("view not found".to_owned()));
        }
        if t.deleted && !include_deleted {
            return Err(ErrorModel::not_found("view not found".to_owned()));
        }
        Ok(self.working.tabulars[ti].snapshot())
    }

    /// Shared drop path. Soft delete marks the row hidden but retrievable;
    /// hard delete removes it for good, cleaning up any staged-only
    /// artifact with it.
    fn drop_tabular(&mut self, tabular_id: u64, kind: TabularKind, hard_delete: bool) -> (r: Result<
        (),
        ErrorModel,
    >)
        requires
            old(self).wf(),
            old(self).is_write(),
        ensures
            final(self).wf(),
            final(self).mode == old(self).mode,
            final(self).conn == old(self).conn,
            match r {
                Ok(_) => ({
                    let w0 = old(self).working;
                    let w1 = final(self).working;
                    &&& w0.has_tab(tabular_id)
                    &&& w0.tab(tabular_id).kind == kind
                    &&& !w0.tab(tabular_id).deleted
                    &&& if hard_delete {
                        &&& w1.tabulars@ == w0.tabulars@.remove(w0.tab_idx(tabular_id))
                        &&& !w1.has_tab(tabular_id)
                    } else {
                        &&& w1.tabulars@ == w0.tabulars@.update(
                            w0.tab_idx(tabular_id),
                            Tabular { deleted: true, ..w0.tab(tabular_id) },
                        )
                        &&& w1.has_tab(tabular_id)
                        &&& w1.tab(tabular_id).deleted
                        &&& w1.tab(tabular_id).metadata_location == w0.tab(
                            tabular_id,
                        ).metadata_location
                        &&& w1.tab(tabular_id).name@ == w0.tab(tabular_id).name@
                        &&& w1.tab(tabular_id).namespace_id == w0.tab(tabular_id).namespace_id
                        &&& w1.tab(tabular_id).kind == kind
                    }
                    &&& w1.warehouses == w0.warehouses
                    &&& w1.namespaces == w0.namespaces
                    &&& w1.next_warehouse_id == w0.next_warehouse_id
                }),
                Err(e) => ({
                    let w0 = old(self).working;
                    &&& *final(self) == *old(self)
                    &&& e.kind == ErrorKind::NotFound
                    &&& !(w0.has_tab(tabular_id) && w0.tab(tabular_id).kind == kind && !w0.tab(
                        tabular_id,
                    ).deleted)
                }),
            },
    {
        let ti = match self.working.find_tab(tabular_id) {
            Some(i) => i,
            None => {
                return Err(ErrorModel::not_found("tabular not found".to_owned()));
            },
        };
        proof {
            self.working.tab_idx_unique(ti as int, tabular_id);
        }
        let matches_kind = match (self.working.tabulars[ti].kind, kind) {
            (TabularKind::Table, TabularKind::Table) => true,
            (TabularKind::View, TabularKind::View) => true,
            _ => false,
        };
        if !matches_kind || self.working.tabulars[ti].deleted {
            return Err(ErrorModel::not_found("tabular not found".to_owned()));
        }
        let ghost olds = self.working;
        if hard_delete {
            self.working.tabulars.remove(ti);
            proof {
                olds.tabulars@.remove_ensures(ti as int);
                let s = self.working.tabulars@;
                assert forall|a: int, b: int|
                    0 <= a < b < s.len() implies (s[a].id < s[b].id && ((s[a].namespace_id == s[
                    b
                ].namespace_id && !s[a].deleted && !s[b].deleted) ==> s[a].name@ != s[b].name@))
                    by {
                    let a0 = if a < ti { a } else { a + 1 };
                    let b0 = if b < ti { b } else { b + 1 };
                    assert(s[a] == olds.tabulars@[a0]);
                    assert(s[b] == olds.tabulars@[b0]);
                }
                assert forall|k: int| 0 <= k < s.len() implies (#[trigger] s[k]).shape_ok() by {
                    let k0 = if k < ti { k } else { k + 1 };
                    assert(s[k] == olds.tabulars@[k0]);
                }
                assert forall|k: int| 0 <= k < s.len() implies s[k].id != tabular_id by {
                    let k0 = if k < ti { k } else { k + 1 };
                    assert(s[k] == olds.tabulars@[k0]);
                }
            }
        } else {
            let t = self.working.tabulars[ti].snapshot();
            let updated = Tabular {
                id: t.id,
                namespace_id: t.namespace_id,
                name: t.name,
                kind: t.kind,
                metadata_location: t.metadata_location,
                metadata: t.metadata,
                staged: t.staged,
                deleted: true,
            };
            vec_update(&mut self.working.tabulars, ti, updated);
            proof {
                let s = self.working.tabulars@;
                assert forall|a: int, b: int|
                    0 <= a < b < s.len() && s[a].namespace_id == s[b].namespace_id && !s[a].deleted
                        && !s[b].deleted implies s[a].name@ != s[b].name@ by {
                    if a != ti && b != ti {
                        assert(s[a] == olds.tabulars@[a]);
                        assert(s[b] == olds.tabulars@[b]);
                    }
                }
                assert forall|k: int| 0 <= k < s.len() implies (#[trigger] s[k]).shape_ok() by {
                    if k != ti {
                        assert(s[k] == olds.tabulars@[k]);
                    }
                }
                self.working.tab_idx_unique(ti as int, tabular_id);
            }
        }
        Ok(())
    }

    /// Drop a table. `hard_delete` false sets the soft marker; true removes
    /// the row permanently, making the id unresolvable for good.
    pub fn drop_table(&mut self, table_id: u64, hard_delete: bool) -> (r: Result<(), ErrorModel>)
        requires
            old(self).wf(),
            old(self).is_write(),
        ensures
            final(self).wf(),
            final(self).mode == old(self).mode,
            final(self).conn == old(self).conn,
            match r {
                Ok(_) => ({
                    let w0 = old(self).working;
                    let w1 = final(self).working;
                    &&& w0.has_tab(table_id) && w0.tab(table_id).kind is Table && !w0.tab(
                        table_id,
                    ).deleted
                    &&& if hard_delete {
                        &&& w1.tabulars@ == w0.tabulars@.remove(w0.tab_idx(table_id))
                        &&& !w1.has_tab(table_id)
                    } else {
                        &&& w1.tabulars@ == w0.tabulars@.update(
                            w0.tab_idx(table_id),
                            Tabular { deleted: true, ..w0.tab(table_id) },
                        )
                        &&& w1.has_tab(table_id)
                        &&& w1.tab(table_id).deleted
                        &&& w1.tab(table_id).metadata_location == w0.tab(table_id).metadata_location
                        &&& w1.tab(table_id).kind is Table
                    }
                    &&& w1.warehouses == w0.warehouses
                    &&& w1.namespaces == w0.namespaces
                }),
                Err(e) => ({
                    let w0 = old(self).working;
                    &&& *final(self) == *old(self)
                    &&& e.kind == ErrorKind::NotFound
                    &&& !(w0.has_tab(table_id) && w0.tab(table_id).kind is Table && !w0.tab(
                        table_id,
                    ).deleted)
                }),
            },
    {
        self.drop_tabular(table_id, TabularKind::Table, hard_delete)
    }

    /// Drop a view: the soft marker is set; the row stays loadable with
    /// `include_deleted`.
    pub fn drop_view(&mut self, view_id: u64) -> (r: Result<(), ErrorModel>)
        requires
            old(self).wf(),
            old(self).is_write(),
        ensures
            final(self).wf(),
            final(self).mode == old(self).mode,
            final(self).conn == old(self).conn,
            match r {
                Ok(_) => ({
                    let w0 = old(self).working;
                    let w1 = final(self).working;
                    &&& w0.has_tab(view_id) && w0.tab(view_id).kind is View && !w0.tab(
                        view_id,
                    ).deleted
                    &&& w1.tabulars@ == w0.tabulars@.update(
                        w0.tab_idx(view_id),
                        Tabular { deleted: true, ..w0.tab(view_id) },
                    )
                    &&& w1.has_tab(view_id) && w1.tab(view_id).deleted
                    &&& w1.warehouses == w0.warehouses
                    &&& w1.namespaces == w0.namespaces
                }),
                Err(e) => ({
                    let w0 = old(self).working;
                    &&& *final(self) == *old(self)
                    &&& e.kind == ErrorKind::NotFound
                    &&& !(w0.has_tab(view_id) && w0.tab(view_id).kind is View && !w0.tab(
                        view_id,
                    ).deleted)
                }),
            },
    {
        self.drop_tabular(view_id, TabularKind::View, false)
    }
    /// Shared rename path for tables and views: the stable id is unchanged,
    /// only the namespace and name move. Fails NotFound if the source is
    /// absent, deleted or of the other kind, or the destination namespace
    /// is absent; Conflict if the destination name is occupied.
    #[verifier::loop_isolation(false)]
    fn rename_tabular(
        &mut self,
        kind: TabularKind,
        warehouse_id: u64,
        source_id: u64,
        dest_namespace: &Vec<String>,
        dest_name: &String,
    ) -> (r: Result<(), ErrorModel>)
        requires
            old(self).wf(),
            old(self).is_write(),
        ensures
            final(self).wf(),
            final(self).mode == old(self).mode,
            final(self).conn == old(self).conn,
            match r {
                Ok(_) => ({
                    let w0 = old(self).working;
                    let w1 = final(self).working;
                    let dn = dest_namespace.deep_view();
                    &&& w0.has_tab(source_id) && w0.tab(source_id).kind == kind && !w0.tab(
                        source_id,
                    ).deleted
                    &&& w0.tab_in_wh(w0.tab(source_id), warehouse_id)
                    &&& w0.has_ns_named(warehouse_id, dn)
                    &&& w1.tabulars@ == w0.tabulars@.update(
                        w0.tab_idx(source_id),
                        Tabular {
                            namespace_id: w0.ns_named(warehouse_id, dn).id,
                            name: *dest_name,
                            ..w0.tab(source_id)
                        },
                    )
                    &&& w1.has_tab(source_id)
                    &&& w1.tab(source_id).id == source_id
                    &&& w1.tab(source_id).name@ == dest_name@
                    &&& w1.tab(source_id).namespace_id == w0.ns_named(warehouse_id, dn).id
                    &&& w1.tab(source_id).metadata_location == w0.tab(source_id).metadata_location
                    &&& w1.tab_name_taken(w0.ns_named(warehouse_id, dn).id, dest_name@)
                    &&& w1.tab_named(w0.ns_named(warehouse_id, dn).id, dest_name@).id == source_id
                    &&& (w0.ns_named(warehouse_id, dn).id != w0.tab(source_id).namespace_id
                        || dest_name@ != w0.tab(source_id).name@) ==> !w1.tab_name_taken(
                        w0.tab(source_id).namespace_id,
                        w0.tab(source_id).name@,
                    )
                    &&& w1.warehouses == w0.warehouses
                    &&& w1.namespaces == w0.namespaces
                }),
                Err(e) => ({
                    let w0 = old(self).working;
                    &&& *final(self) == *old(self)
                    &&& (e.kind == ErrorKind::NotFound || e.kind == ErrorKind::Conflict)
                    &&& e.kind == ErrorKind::Conflict ==> exists|k: int|
                        0 <= k < w0.tabulars@.len() && #[trigger] w0.tabulars@[k].namespace_id
                            == w0.ns_named(warehouse_id, dest_namespace.deep_view()).id
                            && !w0.tabulars@[k].deleted && w0.tabulars@[k].name@ == dest_name@
                            && w0.tabulars@[k].id != source_id
                    &&& e.kind == ErrorKind::NotFound ==> !(w0.has_tab(source_id) && w0.tab(
                        source_id,
                    ).kind == kind && !w0.tab(source_id).deleted && w0.tab_in_wh(
                        w0.tab(source_id),
                        warehouse_id,
                    ) && w0.has_ns_named(warehouse_id, dest_namespace.deep_view()))
                }),
            },
    {
        let ti = match self.working.find_tab(source_id) {
            Some(i) => i,
            None => {
                return Err(ErrorModel::not_found("source tabular not found".to_owned()));
            },
        };
        proof {
            self.working.tab_idx_unique(ti as int, source_id);
        }
        let matches_kind = match (self.working.tabulars[ti].kind, kind) {
            (TabularKind::Table, TabularKind::Table) => true,
            (TabularKind::View, TabularKind::View) => true,
            _ => false,
        };
        if !matches_kind || self.working.tabulars[ti].deleted {
            return Err(ErrorModel::not_found("source tabular not found".to_owned()));
        }
        let src_ns = self.working.tabulars[ti].namespace_id;
        let ni = match self.working.find_ns(src_ns) {
            Some(i) => i,
            None => {
                return Err(ErrorModel::not_found("source namespace not found".to_owned()));
            },
        };
        proof {
            self.working.ns_idx_unique(ni as int, src_ns);
        }
        if self.working.namespaces[ni].warehouse_id != warehouse_id {
            return Err(ErrorModel::not_found("source tabular not found".to_owned()));
        }
        let di = match self.working.find_ns_named(warehouse_id, dest_namespace) {
            Some(i) => i,
            None => {
                return Err(ErrorModel::not_found("destination namespace not found".to_owned()));
            },
        };
        proof {
            self.working.ns_named_unique(di as int, warehouse_id, dest_namespace.deep_view());
        }
        let dest_ns_id = self.working.namespaces[di].id;
        let reg = &self.working;
        let mut k: usize = 0;
        while k < reg.tabulars.len()
            invariant
                k <= reg.tabulars@.len(),
                forall|j: int|
                    0 <= j < k ==> !(#[trigger] reg.tabulars@[j].namespace_id == dest_ns_id
                        && !reg.tabulars@[j].deleted && reg.tabulars@[j].name@ == dest_name@
                        && reg.tabulars@[j].id != source_id),
            decreases reg.tabulars@.len() - k,
        {
            if reg.tabulars[k].namespace_id == dest_ns_id && !reg.tabulars[k].deleted
                && reg.tabulars[k].name == *dest_name && reg.tabulars[k].id != source_id {
                return Err(ErrorModel::conflict("destination name already taken".to_owned()));
            }
            k += 1;
        }
        let t = self.working.tabulars[ti].snapshot();
        let ghost old_ns_id = t.namespace_id;
        let ghost old_name = t.name@;
        let updated = Tabular {
            id: t.id,
            namespace_id: dest_ns_id,
            name: dest_name.clone(),
            kind: t.kind,
            metadata_location: t.metadata_location,
            metadata: t.metadata,
            staged: t.staged,
            deleted: t.deleted,
        };
        let ghost olds = self.working;
        vec_update(&mut self.working.tabulars, ti, updated);
        proof {
            let s = self.working.tabulars@;
            assert forall|a: int, b: int|
                0 <= a < b < s.len() && s[a].namespace_id == s[b].namespace_id && !s[a].deleted
                    && !s[b].deleted implies s[a].name@ != s[b].name@ by {
                if a != ti && b != ti {
                    assert(s[a] == olds.tabulars@[a]);
                    assert(s[b] == olds.tabulars@[b]);
                } else if a == ti {
                    assert(s[b] == olds.tabulars@[b]);
                } else {
                    assert(s[a] == olds.tabulars@[a]);
                }
            }
            assert forall|k2: int| 0 <= k2 < s.len() implies (#[trigger] s[k2]).shape_ok() by {
                if k2 != ti {
                    assert(s[k2] == olds.tabulars@[k2]);
                }
            }
            self.working.tab_idx_unique(ti as int, source_id);
            self.working.tab_named_unique(ti as int, dest_ns_id, dest_name@);
            if old_ns_id != dest_ns_id || old_name != dest_name@ {
                assert forall|j: int|
                    0 <= j < s.len() implies !(#[trigger] s[j].namespace_id == old_ns_id && !s[
                    j
                ].deleted && s[j].name@ == old_name) by {
                    if j != ti {
                        assert(s[j] == olds.tabulars@[j]);
                        if s[j].namespace_id == old_ns_id && !s[j].deleted && s[j].name@
                            == old_name {
                            assert(olds.tab_names_unique());
                            assert(olds.tabulars@[ti as int].namespace_id == old_ns_id);
                            assert(olds.tabulars@[ti as int].name@ == old_name);
                            assert(!olds.tabulars@[ti as int].deleted);
                        }
                    }
                }
            }
        }
        Ok(())
    }

    /// Rename a table within a warehouse; the id is unchanged.
    pub fn rename_table(
        &mut self,
        warehouse_id: u64,
        source_id: u64,
        dest_namespace: &Vec<String>,
        dest_name: &String,
    ) -> (r: Result<(), ErrorModel>)
        requires
            old(self).wf(),
            old(self).is_write(),
        ensures
            final(self).wf(),
            final(self).mode == old(self).mode,
            final(self).conn == old(self).conn,
            match r {
                Ok(_) => ({
                    let w0 = old(self).working;
                    let w1 = final(self).working;
                    let dn = dest_namespace.deep_view();
                    &&& w0.has_tab(source_id) && w0.tab(source_id).kind is Table && !w0.tab(
                        source_id,
                    ).deleted
                    &&& w0.tab_in_wh(w0.tab(source_id), warehouse_id)
                    &&& w0.has_ns_named(warehouse_id, dn)
                    &&& w1.tabulars@ == w0.tabulars@.update(
                        w0.tab_idx(source_id),
                        Tabular {
                            namespace_id: w0.ns_named(warehouse_id, dn).id,
                            name: *dest_name,
                            ..w0.tab(source_id)
                        },
                    )
                    &&& w1.has_tab(source_id)
                    &&& w1.tab(source_id).id == source_id
                    &&& w1.tab(source_id).name@ == dest_name@
                    &&& w1.tab(source_id).namespace_id == w0.ns_named(warehouse_id, dn).id
                    &&& w1.tab(source_id).metadata_location == w0.tab(source_id).metadata_location
                    &&& w1.tab(source_id).metadata == w0.tab(source_id).metadata
                    &&& w1.tab(source_id).kind is Table
                    &&& w1.tab(source_id).staged == w0.tab(source_id).staged
                    &&& !w1.tab(source_id).deleted
                    &&& w1.tab_named(w0.ns_named(warehouse_id, dn).id, dest_name@).id == source_id
                    &&& w1.tab_name_taken(w0.ns_named(warehouse_id, dn).id, dest_name@)
                    &&& (w0.ns_named(warehouse_id, dn).id != w0.tab(source_id).namespace_id
                        || dest_name@ != w0.tab(source_id).name@) ==> !w1.tab_name_taken(
                        w0.tab(source_id).namespace_id,
                        w0.tab(source_id).name@,
                    )
                    &&& w1.warehouses == w0.warehouses
                    &&& w1.namespaces == w0.namespaces
                }),
                Err(e) => ({
                    let w0 = old(self).working;
                    &&& *final(self) == *old(self)
                    &&& (e.kind == ErrorKind::NotFound || e.kind == ErrorKind::Conflict)
                    &&& e.kind == ErrorKind::Conflict ==> exists|k: int|
                        0 <= k < w0.tabulars@.len() && #[trigger] w0.tabulars@[k].namespace_id
                            == w0.ns_named(warehouse_id, dest_namespace.deep_view()).id
                            && !w0.tabulars@[k].deleted && w0.tabulars@[k].name@ == dest_name@
                            && w0.tabulars@[k].id != source_id
                    &&& e.kind == ErrorKind::NotFound ==> !(w0.has_tab(source_id) && w0.tab(
                        source_id,
                    ).kind is Table && !w0.tab(source_id).deleted && w0.tab_in_wh(
                        w0.tab(source_id),
                        warehouse_id,
                    ) && w0.has_ns_named(warehouse_id, dest_namespace.deep_view()))
                }),
            },
    {
        self.rename_tabular(TabularKind::Table, warehouse_id, source_id, dest_namespace, dest_name)
    }

    /// Rename a view within a warehouse; the id is unchanged.
    pub fn rename_view(
        &mut self,
        warehouse_id: u64,
        source_id: u64,
        dest_namespace: &Vec<String>,
        dest_name: &String,
    ) -> (r: Result<(), ErrorModel>)
        requires
            old(self).wf(),
            old(self).is_write(),
        ensures
            final(self).wf(),
            final(self).mode == old(self).mode,
            final(self).conn == old(self).conn,
            match r {
                Ok(_) => ({
                    let w0 = old(self).working;
                    let w1 = final(self).working;
                    let dn = dest_namespace.deep_view();
                    &&& w0.has_tab(source_id) && w0.tab(source_id).kind is View && !w0.tab(
                        source_id,
                    ).deleted
                    &&& w0.tab_in_wh(w0.tab(source_id), warehouse_id)
                    &&& w0.has_ns_named(warehouse_id, dn)
                    &&& w1.tabulars@ == w0.tabulars@.update(
                        w0.tab_idx(source_id),
                        Tabular {
                            namespace_id: w0.ns_named(warehouse_id, dn).id,
                            name: *dest_name,
                            ..w0.tab(source_id)
                        },
                    )
                    &&& w1.has_tab(source_id)
                    &&& w1.tab(source_id).id == source_id
                    &&& w1.tab(source_id).name@ == dest_name@
                    &&& w1.tab(source_id).namespace_id == w0.ns_named(warehouse_id, dn).id
                    &&& w1.tab(source_id).metadata_location == w0.tab(source_id).metadata_location
                    &&& w1.tab(source_id).metadata == w0.tab(source_id).metadata
                    &&& w1.tab(source_id).kind is View
                    &&& !w1.tab(source_id).deleted
                    &&& w1.tab_named(w0.ns_named(warehouse_id, dn).id, dest_name@).id == source_id
                    &&& w1.tab_name_taken(w0.ns_named(warehouse_id, dn).id, dest_name@)
                    &&& (w0.ns_named(warehouse_id, dn).id != w0.tab(source_id).namespace_id
                        || dest_name@ != w0.tab(source_id).name@) ==> !w1.tab_name_taken(
                        w0.tab(source_id).namespace_id,
                        w0.tab(source_id).name@,
                    )
                    &&& w1.warehouses == w0.warehouses
                    &&& w1.namespaces == w0.namespaces
                }),
                Err(e) => ({
                    let w0 = old(self).working;
                    &&& *final(self) == *old(self)
                    &&& (e.kind == ErrorKind::NotFound || e.kind == ErrorKind::Conflict)
                    &&& e.kind == ErrorKind::Conflict ==> exists|k: int|
                        0 <= k < w0.tabulars@.len() && #[trigger] w0.tabulars@[k].namespace_id
                            == w0.ns_named(warehouse_id, dest_namespace.deep_view()).id
                            && !w0.tabulars@[k].deleted && w0.tabulars@[k].name@ == dest_name@
                            && w0.tabulars@[k].id != source_id
                    &&& e.kind == ErrorKind::NotFound ==> !(w0.has_tab(source_id) && w0.tab(
                        source_id,
                    ).kind is View && !w0.tab(source_id).deleted && w0.tab_in_wh(
                        w0.tab(source_id),
                        warehouse_id,
                    ) && w0.has_ns_named(warehouse_id, dest_namespace.deep_view()))
                }),
            },
    {
        self.rename_tabular(TabularKind::View, warehouse_id, source_id, dest_namespace, dest_name)
    }
    /// Shared name resolution for tables and views: the id of a row of the
    /// right kind and name, visible under the flags, inside the namespace.
    #[verifier::loop_isolation(false)]
    fn tabular_ident_to_id(
        &self,
        kind: TabularKind,
        warehouse_id: u64,
        namespace: &Vec<String>,
        name: &String,
        flags: ListFlags,
    ) -> (r: Option<u64>)
        requires
            self.wf(),
        ensures
            match r {
                Some(id) => ({
                    let w = self.working;
                    &&& w.has_ns_named(warehouse_id, namespace.deep_view())
                    &&& exists|i: int|
                        0 <= i < w.tabulars@.len() && #[trigger] w.tabulars@[i].namespace_id
                            == w.ns_named(warehouse_id, namespace.deep_view()).id
                            && w.tabulars@[i].kind == kind && w.tabulars@[i].name@ == name@
                            && w.tabulars@[i].visible(flags) && w.tabulars@[i].id == id
                }),
                None => ({
                    let w = self.working;
                    !w.has_ns_named(warehouse_id, namespace.deep_view()) || forall|i: int|
                        0 <= i < w.tabulars@.len() ==> !(#[trigger] w.tabulars@[i].namespace_id
                            == w.ns_named(warehouse_id, namespace.deep_view()).id
                            && w.tabulars@[i].kind == kind && w.tabulars@[i].name@ == name@
                            && w.tabulars@[i].visible(flags))
                }),
            },
    {
        let ni = match self.working.find_ns_named(warehouse_id, namespace) {
            Some(i) => i,
            None => {
                return None;
            },
        };
        proof {
            self.working.ns_named_unique(ni as int, warehouse_id, namespace.deep_view());
        }
        let ns_id = self.working.namespaces[ni].id;
        let reg = &self.working;
        let mut i: usize = 0;
        while i < reg.tabulars.len()
            invariant
                i <= reg.tabulars@.len(),
                forall|k: int|
                    0 <= k < i ==> !(#[trigger] reg.tabulars@[k].namespace_id == ns_id
                        && reg.tabulars@[k].kind == kind && reg.tabulars@[k].name@ == name@
                        && reg.tabulars@[k].visible(flags)),
            decreases reg.tabulars@.len() - i,
        {
            let t = &reg.tabulars[i];
            let matches_kind = match (t.kind, kind) {
                (TabularKind::Table, TabularKind::Table) => true,
                (TabularKind::View, TabularKind::View) => true,
                _ => false,
            };
            if t.namespace_id == ns_id && matches_kind && t.name == *name && (!t.staged
                || flags.include_staged) && (!t.deleted || flags.include_deleted) {
                return Some(t.id);
            }
            i += 1;
        }
        None
    }

    /// Resolve a table name to its id; `None`, not an error, on a miss.
    /// Staged tables resolve only with `include_staged`, soft-deleted ones
    /// only with `include_deleted`.
    pub fn table_ident_to_id(
        &self,
        warehouse_id: u64,
        namespace: &Vec<String>,
        name: &String,
        flags: ListFlags,
    ) -> (r: Option<u64>)
        requires
            self.wf(),
        ensures
            match r {
                Some(id) => ({
                    let w = self.working;
                    &&& w.has_ns_named(warehouse_id, namespace.deep_view())
                    &&& exists|i: int|
                        0 <= i < w.tabulars@.len() && #[trigger] w.tabulars@[i].namespace_id
                            == w.ns_named(warehouse_id, namespace.deep_view()).id
                            && w.tabulars@[i].kind is Table && w.tabulars@[i].name@ == name@
                            && w.tabulars@[i].visible(flags) && w.tabulars@[i].id == id
                }),
                None => ({
                    let w = self.working;
                    !w.has_ns_named(warehouse_id, namespace.deep_view()) || forall|i: int|
                        0 <= i < w.tabulars@.len() ==> !(#[trigger] w.tabulars@[i].namespace_id
                            == w.ns_named(warehouse_id, namespace.deep_view()).id
                            && w.tabulars@[i].kind is Table && w.tabulars@[i].name@ == name@
                            && w.tabulars@[i].visible(flags))
                }),
            },
    {
        let r = self.tabular_ident_to_id(TabularKind::Table, warehouse_id, namespace, name, flags);
        proof {
            if r is Some {
                assert(TabularKind::Table is Table);
            }
        }
        r
    }

    /// Resolve a view name to its id; `None`, not an error, on a miss.
    pub fn view_ident_to_id(
        &self,
        warehouse_id: u64,
        namespace: &Vec<String>,
        name: &String,
        include_deleted: bool,
    ) -> (r: Option<u64>)
        requires
            self.wf(),
        ensures
            match r {
                Some(id) => ({
                    let w = self.working;
                    &&& w.has_ns_named(warehouse_id, namespace.deep_view())
                    &&& exists|i: int|
                        0 <= i < w.tabulars@.len() && #[trigger] w.tabulars@[i].namespace_id
                            == w.ns_named(warehouse_id, namespace.deep_view()).id
                            && w.tabulars@[i].kind is View && w.tabulars@[i].name@ == name@
                            && w.tabulars@[i].id == id && (!w.tabulars@[i].deleted
                            || include_deleted)
                }),
                None => ({
                    let w = self.working;
                    let fl = ListFlags { include_staged: true, include_deleted };
                    !w.has_ns_named(warehouse_id, namespace.deep_view()) || forall|i: int|
                        0 <= i < w.tabulars@.len() ==> !(#[trigger] w.tabulars@[i].namespace_id
                            == w.ns_named(warehouse_id, namespace.deep_view()).id
                            && w.tabulars@[i].kind is View && w.tabulars@[i].name@ == name@
                            && w.tabulars@[i].visible(fl))
                }),
            },
    {
        self.tabular_ident_to_id(
            TabularKind::View,
            warehouse_id,
            namespace,
            name,
            ListFlags { include_staged: true, include_deleted },
        )
    }

    /// Resolve a batch of table names; one `Option` per input, in order. A
    /// subset miss is never an error.
    pub fn table_idents_to_ids(
        &self,
        warehouse_id: u64,
        idents: &Vec<(Vec<String>, String)>,
        flags: ListFlags,
    ) -> (r: Vec<Option<u64>>)
        requires
            self.wf(),
        ensures
            r@.len() == idents@.len(),
            forall|j: int|
                0 <= j < r@.len() ==> (#[trigger] r@[j] is Some ==> self.working.has_ns_named(
                    warehouse_id,
                    idents@[j].0.deep_view(),
                )),
            forall|j: int|
                0 <= j < r@.len() ==> (#[trigger] r@[j] matches Some(id) ==> exists|i: int|
                    0 <= i < self.working.tabulars@.len()
                        && #[trigger] self.working.tabulars@[i].namespace_id
                        == self.working.ns_named(warehouse_id, idents@[j].0.deep_view()).id
                        && self.working.tabulars@[i].kind is Table
                        && self.working.tabulars@[i].name@ == idents@[j].1@
                        && self.working.tabulars@[i].visible(flags)
                        && self.working.tabulars@[i].id == id),
            forall|j: int|
                0 <= j < r@.len() ==> (#[trigger] r@[j] is None ==> (!self.working.has_ns_named(
                    warehouse_id,
                    idents@[j].0.deep_view(),
                ) || forall|i: int|
                    0 <= i < self.working.tabulars@.len() ==> !(
                    #[trigger] self.working.tabulars@[i].namespace_id == self.working.ns_named(
                        warehouse_id,
                        idents@[j].0.deep_view(),
                    ).id && self.working.tabulars@[i].kind is Table
                        && self.working.tabulars@[i].name@ == idents@[j].1@
                        && self.working.tabulars@[i].visible(flags)))),
    {
        let mut r: Vec<Option<u64>> = Vec::new();
        let mut j: usize = 0;
        while j < idents.len()
            invariant
                self.wf(),
                j <= idents@.len(),
                r@.len() == j,
                forall|k: int|
                    0 <= k < j ==> (#[trigger] r@[k] is Some ==> self.working.has_ns_named(
                        warehouse_id,
                        idents@[k].0.deep_view(),
                    )),
                forall|k: int|
                    0 <= k < j ==> (#[trigger] r@[k] matches Some(id) ==> exists|i: int|
                        0 <= i < self.working.tabulars@.len()
                            && #[trigger] self.working.tabulars@[i].namespace_id
                            == self.working.ns_named(warehouse_id, idents@[k].0.deep_view()).id
                            && self.working.tabulars@[i].kind is Table
                            && self.working.tabulars@[i].name@ == idents@[k].1@
                            && self.working.tabulars@[i].visible(flags)
                            && self.working.tabulars@[i].id == id),
                forall|k: int|
                    0 <= k < j ==> (#[trigger] r@[k] is None ==> (!self.working.has_ns_named(
                        warehouse_id,
                        idents@[k].0.deep_view(),
                    ) || forall|i: int|
                        0 <= i < self.working.tabulars@.len() ==> !(
                        #[trigger] self.working.tabulars@[i].namespace_id
                            == self.working.ns_named(warehouse_id, idents@[k].0.deep_view()).id
                            && self.working.tabulars@[i].kind is Table
                            && self.working.tabulars@[i].name@ == idents@[k].1@
                            && self.working.tabulars@[i].visible(flags)))),
            decreases idents@.len() - j,
        {
            let one = self.table_ident_to_id(warehouse_id, &idents[j].0, &idents[j].1, flags);
            r.push(one);
            j += 1;
        }
        r
    }

    /// A table id is loadable in a warehouse when it names a table of that
    /// warehouse whose warehouse is Active — inactive-warehouse exclusion
    /// vetoes every other flag — and which is either live or, with
    /// `include_deleted`, soft-deleted. Staged tables are loadable.
    pub open spec fn loadable(self, id: u64, warehouse_id: u64, include_deleted: bool) -> bool {
        &&& self.working.has_tab(id)
        &&& self.working.tab(id).kind is Table
        &&& self.working.tab_in_wh(self.working.tab(id), warehouse_id)
        &&& self.working.tab_wh_active(self.working.tab(id))
        &&& (!self.working.tab(id).deleted || include_deleted)
    }

    /// Load a batch of tables by id. Staged tables are returned; misses are
    /// skipped; and no table of an Inactive warehouse is ever returned,
    /// whatever the flags say.
    #[verifier::rlimit(100)]
    #[verifier::spinoff_prover]
    pub fn load_tables(&self, warehouse_id: u64, ids: &Vec<u64>, include_deleted: bool) -> (r: Vec<
        Tabular,
    >)
        requires
            self.wf(),
        ensures
            forall|k: int|
                0 <= k < r@.len() ==> #[trigger] self.loadable(
                    r@[k].id,
                    warehouse_id,
                    include_deleted,
                ) && r@[k] == self.working.tab(r@[k].id),
            forall|k: int|
                0 <= k < r@.len() ==> self.working.tab_wh_active(#[trigger] r@[k]),
            forall|k: int| #![trigger r@[k]]
                0 <= k < r@.len() ==> ids@.contains(r@[k].id),
            forall|j: int|
                0 <= j < ids@.len() && self.loadable(#[trigger] ids@[j], warehouse_id,
                    include_deleted) ==> exists|k: int| 0 <= k < r@.len() && #[trigger] r@[k].id == ids@[j],
    {
        let mut r: Vec<Tabular> = Vec::new();
        let mut j: usize = 0;
        while j < ids.len()
            invariant
                self.wf(),
                j <= ids@.len(),
                forall|k: int|
                    0 <= k < r@.len() ==> #[trigger] self.loadable(
                        r@[k].id,
                        warehouse_id,
                        include_deleted,
                    ) && r@[k] == self.working.tab(r@[k].id),
                forall|k: int|
                    0 <= k < r@.len() ==> self.working.tab_wh_active(#[trigger] r@[k]),
                forall|k: int| #![trigger r@[k]]
                    0 <= k < r@.len() ==> ids@.contains(r@[k].id),
                forall|j2: int|
                    0 <= j2 < j && self.loadable(#[trigger] ids@[j2], warehouse_id,
                        include_deleted) ==> exists|k: int| 0 <= k < r@.len() && #[trigger] r@[k].id == ids@[j2],
            decreases ids@.len() - j,
        {
            let id = ids[j];
            match self.load_check(id, warehouse_id, include_deleted) {
                Some(ti) => {
                    let ghost oldr = r@;
                    r.push(self.working.tabulars[ti].snapshot());
                    proof {
                        assert(r@[r@.len() - 1] == self.working.tab(id));
                        assert forall|k: int|
                            0 <= k < r@.len() implies #[trigger] self.loadable(
                            r@[k].id,
                            warehouse_id,
                            include_deleted,
                        ) && r@[k] == self.working.tab(r@[k].id) by {
                            if k < oldr.len() {
                                assert(r@[k] == oldr[k]);
                            }
                        }
                        assert forall|k: int|
                            0 <= k < r@.len() implies self.working.tab_wh_active(
                            #[trigger] r@[k],
                        ) by {
                            if k < oldr.len() {
                                assert(r@[k] == oldr[k]);
                            }
                        }
                        assert forall|k: int| #![trigger r@[k]]
                            0 <= k < r@.len() implies ids@.contains(r@[k].id) by {
                            if k < oldr.len() {
                                assert(r@[k] == oldr[k]);
                            } else {
                                assert(ids@[j as int] == r@[k].id);
                            }
                        }
                        assert forall|j2: int|
                            0 <= j2 < j + 1 && self.loadable(#[trigger] ids@[j2], warehouse_id,
                                include_deleted) implies exists|k: int|
                            0 <= k < r@.len() && #[trigger] r@[k].id == ids@[j2] by {
                            if j2 < j {
                                let k = choose|k: int|
                                    0 <= k < oldr.len() && #[trigger] oldr[k].id == ids@[j2];
                                assert(r@[k].id == ids@[j2]);
                            } else {
                                assert(r@[r@.len() - 1].id == ids@[j as int]);
                            }
                        }
                    }
                },
                None => {},
            }
            j += 1;
        }
        r
    }

    /// Whether one id passes every check `load_tables` applies, and where
    /// its row sits.
    fn load_check(&self, id: u64, warehouse_id: u64, include_deleted: bool) -> (r: Option<usize>)
        requires
            self.wf(),
        ensures
            match r {
                Some(ti) => ti < self.working.tabulars@.len() && self.loadable(
                    id,
                    warehouse_id,
                    include_deleted,
                ) && self.working.tabulars@[ti as int] == self.working.tab(id),
                None => !self.loadable(id, warehouse_id, include_deleted),
            },
    {
        let ti = match self.working.find_tab(id) {
            Some(i) => i,
            None => {
                return None;
            },
        };
        proof {
            self.working.tab_idx_unique(ti as int, id);
        }
        let t = &self.working.tabulars[ti];
        if !matches!(t.kind, TabularKind::Table) {
            return None;
        }
        if t.deleted && !include_deleted {
            return None;
        }
        let ni = match self.working.find_ns(t.namespace_id) {
            Some(i) => i,
            None => {
                return None;
            },
        };
        proof {
            self.working.ns_idx_unique(ni as int, t.namespace_id);
        }
        if self.working.namespaces[ni].warehouse_id != warehouse_id {
            return None;
        }
        let wi = match self.working.find_wh(warehouse_id) {
            Some(i) => i,
            None => {
                return None;
            },
        };
        proof {
            self.working.wh_idx_unique(wi as int, warehouse_id);
        }
        if !matches!(self.working.warehouses[wi].status, WarehouseStatus::Active) {
            return None;
        }
        Some(ti)
    }

    /// Direct fetch of a table row by its metadata location, honoring the
    /// visibility flags. NotFound if no visible table of the warehouse has
    /// its metadata at that location.
    #[verifier::loop_isolation(false)]
    pub fn get_table_metadata_by_s3_location(
        &self,
        warehouse_id: u64,
        location: &String,
        list_flags: ListFlags,
    ) -> (r: Result<Tabular, ErrorModel>)
        requires
            self.wf(),
        ensures
            match r {
                Ok(t) => ({
                    let w = self.working;
                    &&& w.has_tab(t.id) && t == w.tab(t.id)
                    &&& t.kind is Table
                    &&& w.tab_in_wh(t, warehouse_id)
                    &&& t.visible(list_flags)
                    &&& opt_view(t.metadata_location) == Some(location@)
                }),
                Err(e) => ({
                    let w = self.working;
                    &&& e.kind == ErrorKind::NotFound
                    &&& forall|i: int|
                        0 <= i < w.tabulars@.len() ==> !(#[trigger] w.tabulars@[i].kind is Table
                            && w.tab_in_wh(w.tabulars@[i], warehouse_id) && w.tabulars@[i].visible(
                            list_flags,
                        ) && opt_view(w.tabulars@[i].metadata_location) == Some(location@))
                }),
            },
    {
        let reg = &self.working;
        let mut i: usize = 0;
        while i < reg.tabulars.len()
            invariant
                i <= reg.tabulars@.len(),
                forall|k: int|
                    0 <= k < i ==> !(#[trigger] reg.tabulars@[k].kind is Table && reg.tab_in_wh(
                        reg.tabulars@[k],
                        warehouse_id,
                    ) && reg.tabulars@[k].visible(list_flags) && opt_view(
                        reg.tabulars@[k].metadata_location,
                    ) == Some(location@)),
            decreases reg.tabulars@.len() - i,
        {
            let t = &reg.tabulars[i];
            let loc_matches = match &t.metadata_location {
                Some(l) => *l == *location,
                None => false,
            };
            if matches!(t.kind, TabularKind::Table) && loc_matches && (!t.staged
                || list_flags.include_staged) && (!t.deleted || list_flags.include_deleted) {
                if let Some(ni) = reg.find_ns(t.namespace_id) {
                    proof {
                        reg.ns_idx_unique(ni as int, t.namespace_id);
                    }
                    if reg.namespaces[ni].warehouse_id == warehouse_id {
                        proof {
                            reg.tab_idx_unique(i as int, reg.tabulars@[i as int].id);
                        }
                        return Ok(reg.tabulars[i].snapshot());
                    }
                }
                proof {
                    assert(!reg.tab_in_wh(reg.tabulars@[i as int], warehouse_id));
                }
            }
            i += 1;
        }
        Err(ErrorModel::not_found("no table at this metadata location".to_owned()))
    }

    /// Replace a view's metadata location and content. Fails NotFound if
    /// the id does not name a live view.
    pub fn update_view_metadata(
        &mut self,
        view_id: u64,
        metadata_location: String,
        metadata: String,
    ) -> (r: Result<(), ErrorModel>)
        requires
            old(self).wf(),
            old(self).is_write(),
        ensures
            final(self).wf(),
            final(self).mode == old(self).mode,
            final(self).conn == old(self).conn,
            match r {
                Ok(_) => ({
                    let w0 = old(self).working;
                    let w1 = final(self).working;
                    &&& w0.has_tab(view_id) && w0.tab(view_id).kind is View && !w0.tab(
                        view_id,
                    ).deleted
                    &&& w1.tabulars@ == w0.tabulars@.update(
                        w0.tab_idx(view_id),
                        Tabular {
                            metadata_location: Some(metadata_location),
                            metadata,
                            ..w0.tab(view_id)
                        },
                    )
                    &&& w1.has_tab(view_id)
                    &&& opt_view(w1.tab(view_id).metadata_location) == Some(metadata_location@)
                    &&& w1.tab(view_id).metadata@ == metadata@
                    &&& w1.warehouses == w0.warehouses
                    &&& w1.namespaces == w0.namespaces
                }),
                Err(e) => ({
                    let w0 = old(self).working;
                    &&& *final(self) == *old(self)
                    &&& e.kind == ErrorKind::NotFound
                    &&& !(w0.has_tab(view_id) && w0.tab(view_id).kind is View && !w0.tab(
                        view_id,
                    ).deleted)
                }),
            },
    {
        let ti = match self.working.find_tab(view_id) {
            Some(i) => i,
            None => {
                return Err(ErrorModel::not_found("view not found".to_owned()));
            },
        };
        proof {
            self.working.tab_idx_unique(ti as int, view_id);
        }
        if !matches!(self.working.tabulars[ti].kind, TabularKind::View)
            || self.working.tabulars[ti].deleted {
            return Err(ErrorModel::not_found("view not found".to_owned()));
        }
        let t = self.working.tabulars[ti].snapshot();
        let updated = Tabular {
            id: t.id,
            namespace_id: t.namespace_id,
            name: t.name,
            kind: t.kind,
            metadata_location: Some(metadata_location),
            metadata,
            staged: false,
            deleted: t.deleted,
        };
        let ghost olds = self.working;
        vec_update(&mut self.working.tabulars, ti, updated);
        proof {
            let s = self.working.tabulars@;
            assert forall|a: int, b: int|
                0 <= a < b < s.len() && s[a].namespace_id == s[b].namespace_id && !s[a].deleted
                    && !s[b].deleted implies s[a].name@ != s[b].name@ by {
                if a != ti && b != ti {
                    assert(s[a] == olds.tabulars@[a]);
                    assert(s[b] == olds.tabulars@[b]);
                } else if a == ti {
                    assert(s[b] == olds.tabulars@[b]);
                    assert(olds.tabulars@[a].name@ == s[a].name@);
                } else {
                    assert(s[a] == olds.tabulars@[a]);
                    assert(olds.tabulars@[b].name@ == s[b].name@);
                }
            }
            assert forall|k: int| 0 <= k < s.len() implies (#[trigger] s[k]).shape_ok() by {
                if k != ti {
                    assert(s[k] == olds.tabulars@[k]);
                }
            }
            self.working.tab_idx_unique(ti as int, view_id);
        }
        Ok(())
    }

    /// Collect the listing ids of one namespace's tabulars, in id order.
    #[verifier::loop_isolation(false)]
    fn collect_tab_ids(&self, ns_id: u64, kind: TabularKind, flags: ListFlags) -> (r: Vec<u64>)
        requires
            self.wf(),
        ensures
            r@ == matching_tab_ids(self.working.tabulars@, ns_id, kind, flags),
            ids_sorted(r@),
    {
        let reg = &self.working;
        let mut r: Vec<u64> = Vec::new();
        let mut i: usize = 0;
        while i < reg.tabulars.len()
            invariant
                i <= reg.tabulars@.len(),
                r@ == matching_tab_ids(reg.tabulars@.take(i as int), ns_id, kind, flags),
            decreases reg.tabulars@.len() - i,
        {
            let t = &reg.tabulars[i];
            proof {
                assert(reg.tabulars@.take(i + 1).drop_last() =~= reg.tabulars@.take(i as int));
                assert(reg.tabulars@.take(i + 1).last() == reg.tabulars@[i as int]);
            }
            let matches_kind = match (t.kind, kind) {
                (TabularKind::Table, TabularKind::Table) => true,
                (TabularKind::View, TabularKind::View) => true,
                _ => false,
            };
            if t.namespace_id == ns_id && matches_kind && (!t.staged || flags.include_staged) && (
            !t.deleted || flags.include_deleted) {
                r.push(t.id);
            }
            i += 1;
        }
        proof {
            assert(reg.tabulars@.take(reg.tabulars@.len() as int) =~= reg.tabulars@);
            lemma_tab_matching_sorted(reg.tabulars@, ns_id, kind, flags);
        }
        r
    }

    /// List the tables of a namespace: one page of ids in stable id order,
    /// governed by the visibility flags independent of pagination. Fails
    /// NotFound if the namespace is absent.
    pub fn list_tables(
        &self,
        warehouse_id: u64,
        namespace: &Vec<String>,
        list_flags: ListFlags,
        query: PaginationQuery,
    ) -> (r: Result<Page, ErrorModel>)
        requires
            self.wf(),
            query.page_size >= 1,
        ensures
            match r {
                Ok(p) => ({
                    let w = self.working;
                    let m = matching_tab_ids(
                        w.tabulars@,
                        w.ns_named(warehouse_id, namespace.deep_view()).id,
                        TabularKind::Table,
                        list_flags,
                    );
                    &&& w.has_ns_named(warehouse_id, namespace.deep_view())
                    &&& p.ids@ == page_of(m, query.page_token, query.page_size as int)
                    &&& p.next_token == (if p.ids@.len() == 0 {
                        None::<u64>
                    } else {
                        Some(p.ids@.last())
                    })
                }),
                Err(e) => {
                    &&& !self.working.has_ns_named(warehouse_id, namespace.deep_view())
                    &&& e.kind == ErrorKind::NotFound
                },
            },
    {
        let ni = match self.working.find_ns_named(warehouse_id, namespace) {
            Some(i) => i,
            None => {
                return Err(ErrorModel::not_found("namespace not found".to_owned()));
            },
        };
        proof {
            self.working.ns_named_unique(ni as int, warehouse_id, namespace.deep_view());
        }
        let ids = self.collect_tab_ids(self.working.namespaces[ni].id, TabularKind::Table, list_flags);
        Ok(paginate_ids(&ids, query))
    }

    /// List the views of a namespace; views never stage, so only the
    /// deleted filter applies. Fails NotFound if the namespace is absent.
    pub fn list_views(
        &self,
        warehouse_id: u64,
        namespace: &Vec<String>,
        include_deleted: bool,
        query: PaginationQuery,
    ) -> (r: Result<Page, ErrorModel>)
        requires
            self.wf(),
            query.page_size >= 1,
        ensures
            match r {
                Ok(p) => ({
                    let w = self.working;
                    let m = matching_tab_ids(
                        w.tabulars@,
                        w.ns_named(warehouse_id, namespace.deep_view()).id,
                        TabularKind::View,
                        ListFlags { include_staged: true, include_deleted },
                    );
                    &&& w.has_ns_named(warehouse_id, namespace.deep_view())
                    &&& p.ids@ == page_of(m, query.page_token, query.page_size as int)
                    &&& p.next_token == (if p.ids@.len() == 0 {
                        None::<u64>
                    } else {
                        Some(p.ids@.last())
                    })
                }),
                Err(e) => {
                    &&& !self.working.has_ns_named(warehouse_id, namespace.deep_view())
                    &&& e.kind == ErrorKind::NotFound
                },
            },
    {
        let ni = match self.working.find_ns_named(warehouse_id, namespace) {
            Some(i) => i,
            None => {
                return Err(ErrorModel::not_found("namespace not found".to_owned()));
            },
        };
        proof {
            self.working.ns_named_unique(ni as int, warehouse_id, namespace.deep_view());
        }
        let ids = self.collect_tab_ids(
            self.working.namespaces[ni].id,
            TabularKind::View,
            ListFlags { include_staged: true, include_deleted },
        );
        Ok(paginate_ids(&ids, query))
    }

    /// List the namespaces of a warehouse, optionally only the direct
    /// children of one parent: one page of ids in stable id order. Only
    /// hard-deleted rows — rows that are gone — are excluded.
    #[verifier::loop_isolation(false)]
    pub fn list_namespaces(
        &self,
        warehouse_id: u64,
        parent: Option<&Vec<String>>,
        query: PaginationQuery,
    ) -> (r: Page)
        requires
            self.wf(),
            query.page_size >= 1,
        ensures
            ({
                let gp = match parent {
                    None => None::<Seq<Seq<char>>>,
                    Some(p) => Some(p.deep_view()),
                };
                let m = matching_ns_ids(self.working.namespaces@, warehouse_id, gp);
                &&& r.ids@ == page_of(m, query.page_token, query.page_size as int)
                &&& r.next_token == (if r.ids@.len() == 0 {
                    None::<u64>
                } else {
                    Some(r.ids@.last())
                })
            }),
    {
        let ghost gp = match parent {
            None => None::<Seq<Seq<char>>>,
            Some(p) => Some(p.deep_view()),
        };
        let reg = &self.working;
        let mut ids: Vec<u64> = Vec::new();
        let mut i: usize = 0;
        while i < reg.namespaces.len()
            invariant
                i <= reg.namespaces@.len(),
                ids@ == matching_ns_ids(reg.namespaces@.take(i as int), warehouse_id, gp),
            decreases reg.namespaces@.len() - i,
        {
            let n = &reg.namespaces[i];
            proof {
                assert(reg.namespaces@.take(i + 1).drop_last() =~= reg.namespaces@.take(i as int));
                assert(reg.namespaces@.take(i + 1).last() == reg.namespaces@[i as int]);
            }
            let keep = n.warehouse_id == warehouse_id && (match parent {
                None => true,
                Some(p) => is_direct_child(p, &n.name),
            });
            if keep {
                ids.push(n.id);
            }
            i += 1;
        }
        proof {
            assert(reg.namespaces@.take(reg.namespaces@.len() as int) =~= reg.namespaces@);
            lemma_ns_matching_sorted(reg.namespaces@, warehouse_id, gp);
        }
        paginate_ids(&ids, query)
    }

    /// Commit a batch of table updates atomically: entries are applied in
    /// order against a scratch copy, and the working registry changes only
    /// when every entry validated — all or nothing.
    #[verifier::loop_isolation(false)]
    #[verifier::rlimit(100)]
    #[verifier::spinoff_prover]
    pub fn commit_table_transaction(
        &mut self,
        warehouse_id: u64,
        commits: &Vec<TableCommit>,
    ) -> (r: Result<(), ErrorModel>)
        requires
            old(self).wf(),
            old(self).is_write(),
        ensures
            final(self).wf(),
            final(self).mode == old(self).mode,
            final(self).conn == old(self).conn,
            ({
                let w0 = old(self).working;
                let outcome = commit_apply(w0, warehouse_id, w0.tabulars@, commits@);
                match r {
                    Ok(_) => {
                        &&& w0.has_wh(warehouse_id)
                        &&& w0.wh(warehouse_id).status is Active
                        &&& outcome is Some
                        &&& final(self).working.tabulars@ == outcome->Some_0
                        &&& final(self).working.warehouses == w0.warehouses
                        &&& final(self).working.namespaces == w0.namespaces
                        &&& final(self).working.next_warehouse_id == w0.next_warehouse_id
                    },
                    Err(e) => {
                        &&& *final(self) == *old(self)
                        &&& !(w0.has_wh(warehouse_id) && w0.wh(warehouse_id).status is Active
                            && outcome is Some)
                        &&& !w0.has_wh(warehouse_id) ==> e.kind == ErrorKind::NotFound
                        &&& w0.has_wh(warehouse_id) && !(w0.wh(warehouse_id).status is Active)
                            ==> e.kind == ErrorKind::InvalidState
                        &&& w0.has_wh(warehouse_id) && w0.wh(warehouse_id).status is Active
                            ==> e.kind == (if commit_conflict(
                            w0,
                            warehouse_id,
                            w0.tabulars@,
                            commits@,
                        ) {
                            ErrorKind::Conflict
                        } else {
                            ErrorKind::NotFound
                        })
                    },
                }
            }),
    {
        let wi = match self.working.find_wh(warehouse_id) {
            Some(i) => i,
            None => {
                return Err(ErrorModel::not_found("warehouse not found".to_owned()));
            },
        };
        proof {
            self.working.wh_idx_unique(wi as int, warehouse_id);
        }
        if !matches!(self.working.warehouses[wi].status, WarehouseStatus::Active) {
            return Err(ErrorModel::invalid_state("warehouse is not active".to_owned()));
        }
        let ghost orig = self.working.tabulars@;
        let mut scratch: Vec<Tabular> = Vec::new();
        let mut ci: usize = 0;
        while ci < self.working.tabulars.len()
            invariant
                ci <= self.working.tabulars@.len(),
                scratch@ == self.working.tabulars@.take(ci as int),
            decreases self.working.tabulars@.len() - ci,
        {
            scratch.push(self.working.tabulars[ci].snapshot());
            proof {
                assert(scratch@ =~= self.working.tabulars@.take(ci + 1));
            }
            ci += 1;
        }
        proof {
            assert(self.working.tabulars@.take(self.working.tabulars@.len() as int)
                =~= self.working.tabulars@);
        }
        let mut i: usize = 0;
        while i < commits.len()
            invariant
                i <= commits@.len(),
                commit_apply(self.working, warehouse_id, orig, commits@.take(i as int)) == Some(
                    scratch@,
                ),
                scratch@.len() == orig.len(),
                forall|k: int|
                    0 <= k < orig.len() ==> #[trigger] scratch@[k].id == orig[k].id && scratch@[
                        k
                    ].namespace_id == orig[k].namespace_id && scratch@[k].name@ == orig[k].name@
                        && scratch@[k].deleted == orig[k].deleted && scratch@[k].kind == orig[
                        k
                    ].kind && scratch@[k].shape_ok(),
            decreases commits@.len() - i,
        {
            let c = &commits[i];
            proof {
                assert(commits@.take(i + 1).drop_last() =~= commits@.take(i as int));
                assert(commits@.take(i + 1).last() == commits@[i as int]);
            }
            let mut ti: usize = 0;
            let mut found = false;
            while ti < scratch.len() && !found
                invariant
                    ti <= scratch@.len(),
                    found ==> ti < scratch@.len() && scratch@[ti as int].id == c.table_id,
                    !found ==> forall|k: int| 0 <= k < ti ==> scratch@[k].id != c.table_id,
                decreases scratch@.len() - ti, if found { 0int } else { 1int },
            {
                if scratch[ti].id == c.table_id {
                    found = true;
                } else {
                    ti += 1;
                }
            }
            if !found {
                proof {
                    assert(commit_apply(self.working, warehouse_id, orig, commits@.take(i + 1))
                        is None);
                    lemma_commit_apply_none(self.working, warehouse_id, orig, commits@, i + 1);
                    assert(!commit_entry_conflict(
                        self.working,
                        warehouse_id,
                        scratch@,
                        commits@[i as int],
                    ));
                    assert(!commit_conflict(
                        self.working,
                        warehouse_id,
                        orig,
                        commits@.take(i + 1),
                    ));
                    lemma_commit_failure_kind(self.working, warehouse_id, orig, commits@, i + 1);
                }
                return Err(ErrorModel::not_found("table in commit batch not found".to_owned()));
            }
            proof {
                assert forall|j: int, k: int|
                    0 <= j < k < scratch@.len() implies scratch@[j].id != scratch@[k].id by {
                    assert(orig[j].id < orig[k].id);
                }
                let w = choose|w: int|
                    0 <= w < scratch@.len() && #[trigger] scratch@[w].id == c.table_id;
                assert(w == ti as int);
            }
            let t = &scratch[ti];
            let valid = matches!(t.kind, TabularKind::Table) && !t.deleted;
            if !valid {
                proof {
                    assert(commit_apply(self.working, warehouse_id, orig, commits@.take(i + 1))
                        is None);
                    lemma_commit_apply_none(self.working, warehouse_id, orig, commits@, i + 1);
                
                    assert(!commit_entry_conflict(
                        self.working,
                        warehouse_id,
                        scratch@,
                        commits@[i as int],
                    ));
                    assert(!commit_conflict(
                        self.working,
                        warehouse_id,
                        orig,
                        commits@.take(i + 1),
                    ));
                    lemma_commit_failure_kind(self.working, warehouse_id, orig, commits@, i + 1);
                }
                return Err(ErrorModel::not_found("commit target is not a live table".to_owned()));
            }
            let ni = match self.working.find_ns(t.namespace_id) {
                Some(x) => x,
                None => {
                    proof {
                        assert(commit_apply(self.working, warehouse_id, orig, commits@.take(i + 1))
                            is None);
                        lemma_commit_apply_none(self.working, warehouse_id, orig, commits@, i + 1);
                    
                        assert(!commit_entry_conflict(
                            self.working,
                            warehouse_id,
                            scratch@,
                            commits@[i as int],
                        ));
                        assert(!commit_conflict(
                            self.working,
                            warehouse_id,
                            orig,
                            commits@.take(i + 1),
                        ));
                        lemma_commit_failure_kind(self.working, warehouse_id, orig, commits@, i + 1);
                    }
                    return Err(ErrorModel::not_found("commit target namespace not found".to_owned()));
                },
            };
            proof {
                self.working.ns_idx_unique(ni as int, t.namespace_id);
            }
            if self.working.namespaces[ni].warehouse_id != warehouse_id {
                proof {
                    assert(commit_apply(self.working, warehouse_id, orig, commits@.take(i + 1))
                        is None);
                    lemma_commit_apply_none(self.working, warehouse_id, orig, commits@, i + 1);
                
                    assert(!commit_entry_conflict(
                        self.working,
                        warehouse_id,
                        scratch@,
                        commits@[i as int],
                    ));
                    assert(!commit_conflict(
                        self.working,
                        warehouse_id,
                        orig,
                        commits@.take(i + 1),
                    ));
                    lemma_commit_failure_kind(self.working, warehouse_id, orig, commits@, i + 1);
                }
                return Err(ErrorModel::not_found("commit target is outside the warehouse".to_owned()));
            }
            if !opt_str_eq(&t.metadata_location, &c.expected_metadata_location) {
                proof {
                    assert(commit_apply(self.working, warehouse_id, orig, commits@.take(i + 1))
                        is None);
                    lemma_commit_apply_none(self.working, warehouse_id, orig, commits@, i + 1);
                    assert(commit_entry_conflict(
                        self.working,
                        warehouse_id,
                        scratch@,
                        commits@[i as int],
                    ));
                    assert(commit_conflict(
                        self.working,
                        warehouse_id,
                        orig,
                        commits@.take(i + 1),
                    ));
                    lemma_commit_failure_kind(self.working, warehouse_id, orig, commits@, i + 1);
                }
                return Err(ErrorModel::conflict(
                    "metadata location changed since it was read".to_owned(),
                ));
            }
            let updated = Tabular {
                id: t.id,
                namespace_id: t.namespace_id,
                name: t.name.clone(),
                kind: t.kind,
                metadata_location: Some(c.new_metadata_location.clone()),
                metadata: c.new_metadata.clone(),
                staged: false,
                deleted: false,
            };
            let ghost before = scratch@;
            vec_update(&mut scratch, ti, updated);
            proof {
                assert(commit_apply_one(self.working, warehouse_id, before, commits@[i as int])
                    == Some(scratch@));
            }
            i += 1;
        }
        proof {
            assert(commits@.take(commits@.len() as int) =~= commits@);
        }
        let ghost olds = self.working;
        self.working.tabulars = scratch;
        proof {
            let s = self.working.tabulars@;
            assert forall|a: int, b: int| 0 <= a < b < s.len() implies s[a].id < s[b].id by {
                assert(orig[a].id < orig[b].id);
            }
            assert forall|a: int, b: int|
                0 <= a < b < s.len() && s[a].namespace_id == s[b].namespace_id && !s[a].deleted
                    && !s[b].deleted implies s[a].name@ != s[b].name@ by {
                assert(olds.tab_names_unique());
            }
        }
        Ok(())
    }
}

/// Whether one entry fails precisely on a stale optimistic-concurrency
/// token: its table resolves as a live table of the warehouse, but the
/// stored metadata location no longer equals the expected one.
pub open spec fn commit_entry_conflict(
    reg: Registry,
    warehouse_id: u64,
    tabs: Seq<Tabular>,
    c: TableCommit,
) -> bool {
    &&& exists|w: int| 0 <= w < tabs.len() && #[trigger] tabs[w].id == c.table_id
    &&& ({
        let w = choose|w: int| 0 <= w < tabs.len() && #[trigger] tabs[w].id == c.table_id;
        let t = tabs[w];
        t.kind is Table && !t.deleted && reg.has_ns(t.namespace_id) && reg.ns(
            t.namespace_id,
        ).warehouse_id == warehouse_id && opt_view(t.metadata_location) != opt_view(
            c.expected_metadata_location,
        )
    })
}

/// Whether a failing batch fails on a stale token: the first entry that
/// does not validate is a conflict, as opposed to a table that does not
/// resolve at all.
pub open spec fn commit_conflict(
    reg: Registry,
    warehouse_id: u64,
    tabs: Seq<Tabular>,
    cs: Seq<TableCommit>,
) -> bool
    decreases cs.len(),
{
    if cs.len() == 0 {
        false
    } else {
        match commit_apply(reg, warehouse_id, tabs, cs.drop_last()) {
            None => commit_conflict(reg, warehouse_id, tabs, cs.drop_last()),
            Some(t2) => commit_apply_one(reg, warehouse_id, t2, cs.last()) is None
                && commit_entry_conflict(reg, warehouse_id, t2, cs.last()),
        }
    }
}

/// Once a prefix has failed, the later entries change neither the outcome
/// nor the kind of the first failure.
pub proof fn lemma_commit_failure_kind(
    reg: Registry,
    warehouse_id: u64,
    tabs: Seq<Tabular>,
    cs: Seq<TableCommit>,
    j: int,
)
    requires
        0 <= j <= cs.len(),
        commit_apply(reg, warehouse_id, tabs, cs.take(j)) is None,
    ensures
        commit_conflict(reg, warehouse_id, tabs, cs) == commit_conflict(
            reg,
            warehouse_id,
            tabs,
            cs.take(j),
        ),
    decreases cs.len() - j,
{
    if j < cs.len() {
        assert(cs.take(j + 1).drop_last() =~= cs.take(j));
        lemma_commit_failure_kind(reg, warehouse_id, tabs, cs, j + 1);
    } else {
        assert(cs.take(j) =~= cs);
    }
}

/// A batch whose prefix already failed fails as a whole.
pub proof fn lemma_commit_apply_none(
    reg: Registry,
    warehouse_id: u64,
    tabs: Seq<Tabular>,
    cs: Seq<TableCommit>,
    j: int,
)
    requires
        0 <= j <= cs.len(),
        commit_apply(reg, warehouse_id, tabs, cs.take(j)) is None,
    ensures
        commit_apply(reg, warehouse_id, tabs, cs) is None,
    decreases cs.len() - j,
{
    if j < cs.len() {
        assert(cs.take(j + 1).drop_last() =~= cs.take(j));
        lemma_commit_apply_none(reg, warehouse_id, tabs, cs, j + 1);
    } else {
        assert(cs.take(j) =~= cs);
    }
}

/// One entry of the commit protocol, applied to the scratch row run: the
/// target must be a live table of the warehouse whose stored metadata
/// location still equals the expected one; its location and content are
/// then replaced and any staged flag cleared.
pub open spec fn commit_apply_one(
    reg: Registry,
    warehouse_id: u64,
    tabs: Seq<Tabular>,
    c: TableCommit,
) -> Option<Seq<Tabular>> {
    if exists|w: int| 0 <= w < tabs.len() && #[trigger] tabs[w].id == c.table_id {
        let w = choose|w: int| 0 <= w < tabs.len() && #[trigger] tabs[w].id == c.table_id;
        let t = tabs[w];
        if t.kind is Table && !t.deleted && reg.has_ns(t.namespace_id) && reg.ns(
            t.namespace_id,
        ).warehouse_id == warehouse_id && opt_view(t.metadata_location) == opt_view(
            c.expected_metadata_location,
        ) {
            Some(
                tabs.update(
                    w,
                    Tabular {
                        id: t.id,
                        namespace_id: t.namespace_id,
                        name: t.name,
                        kind: t.kind,
                        metadata_location: Some(c.new_metadata_location),
                        metadata: c.new_metadata,
                        staged: false,
                        deleted: false,
                    },
                ),
            )
        } else {
            None
        }
    } else {
        None
    }
}

/// The whole batch, applied in the order supplied; the first entry that
/// fails to validate voids the outcome.
pub open spec fn commit_apply(
    reg: Registry,
    warehouse_id: u64,
    tabs: Seq<Tabular>,
    cs: Seq<TableCommit>,
) -> Option<Seq<Tabular>>
    decreases cs.len(),
{
    if cs.len() == 0 {
        Some(tabs)
    } else {
        match commit_apply(reg, warehouse_id, tabs, cs.drop_last()) {
            None => None,
            Some(t2) => commit_apply_one(reg, warehouse_id, t2, cs.last()),
        }
    }
}

} // verus!
