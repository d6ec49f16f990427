//! The entity registry: identity resolution and hierarchy rules for
//! projects, warehouses, namespaces, tables and views.
//!
//! Entities are held in vectors kept strictly sorted by their stable id,
//! which gives both id uniqueness and the stable ordering that pagination
//! relies on. Sibling names are unique among non-deleted entries.

use vstd::prelude::*;

verus! {

/// Lifecycle status of a warehouse.
#[derive(Clone, Copy, Debug, PartialEq, Eq, Structural)]
pub enum WarehouseStatus {
    Active,
    Inactive,
}

/// Distinguishes tables from views; both share identity rules.
#[derive(Clone, Copy, Debug, PartialEq, Eq, Structural)]
pub enum TabularKind {
    Table,
    View,
}

/// Visibility flags for listing and direct fetches.
#[derive(Clone, Copy, Debug, PartialEq, Eq, Structural)]
pub struct ListFlags {
    pub include_staged: bool,
    pub include_deleted: bool,
}

/// Storage location and configuration used for future writes of a warehouse.
/// The configuration is an opaque blob at this layer; validating it against
/// object storage is an external collaborator's concern.
#[derive(Clone, Debug)]
pub struct StorageProfile {
    pub location: String,
    pub config: String,
}

/// A warehouse: tenant-scoped root for namespaces and tabulars.
#[derive(Clone, Debug)]
pub struct Warehouse {
    pub id: u64,
    pub project_id: u64,
    pub name: String,
    pub status: WarehouseStatus,
    pub storage_profile: StorageProfile,
    pub storage_secret_id: Option<u64>,
}

/// A namespace: a hierarchical grouping of tabulars inside one warehouse,
/// addressed by an ordered sequence of name levels.
#[derive(Clone, Debug)]
pub struct Namespace {
    pub id: u64,
    pub warehouse_id: u64,
    pub name: Vec<String>,
    pub properties: Vec<(String, String)>,
}

/// A table or view row. A staged table has a reserved identity but no
/// metadata location yet; a soft-deleted row keeps its data but is hidden
/// from default visibility.
#[derive(Clone, Debug)]
pub struct Tabular {
    pub id: u64,
    pub namespace_id: u64,
    pub name: String,
    pub kind: TabularKind,
    pub metadata_location: Option<String>,
    pub metadata: String,
    pub staged: bool,
    pub deleted: bool,
}

/// The registry of all catalog entities.
#[derive(Clone, Debug)]
pub struct Registry {
    pub warehouses: Vec<Warehouse>,
    pub namespaces: Vec<Namespace>,
    pub tabulars: Vec<Tabular>,
    /// Source of fresh warehouse ids; every stored warehouse id is below it.
    pub next_warehouse_id: u64,
}

/// Keys of a property list, pairwise distinct.
pub open spec fn props_unique(s: Seq<(String, String)>) -> bool {
    forall|i: int, j: int| 0 <= i < j < s.len() ==> s[i].0@ != s[j].0@
}

/// The value bound to `key`, scanning from the front.
pub open spec fn props_lookup(s: Seq<(String, String)>, key: Seq<char>) -> Option<Seq<char>>
    decreases s.len(),
{
    if s.len() == 0 {
        None
    } else if s[0].0@ == key {
        Some(s[0].1@)
    } else {
        props_lookup(s.drop_first(), key)
    }
}

/// Appending a pair changes the lookup only for keys the list did not bind.
pub proof fn lemma_props_lookup_snoc(s: Seq<(String, String)>, p: (String, String), q: Seq<char>)
    ensures
        props_lookup(s.push(p), q) == (match props_lookup(s, q) {
            Some(v) => Some(v),
            None => if p.0@ == q {
                Some(p.1@)
            } else {
                None
            },
        }),
    decreases s.len(),
{
    let t = s.push(p);
    if s.len() == 0 {
        assert(t[0] == p);
        assert(t.drop_first() =~= Seq::<(String, String)>::empty());
        assert(props_lookup(t.drop_first(), q) == None::<Seq<char>>);
        if p.0@ == q {
            assert(props_lookup(t, q) == Some(p.1@));
        } else {
            assert(props_lookup(t, q) == None::<Seq<char>>);
        }
    } else {
        assert(t[0] == s[0]);
        assert(t.drop_first() =~= s.drop_first().push(p));
        lemma_props_lookup_snoc(s.drop_first(), p, q);
        assert(props_lookup(t.drop_first(), q) == props_lookup(s.drop_first().push(p), q));
        if s[0].0@ == q {
            assert(props_lookup(t, q) == Some(s[0].1@));
            assert(props_lookup(s, q) == Some(s[0].1@));
        } else {
            assert(props_lookup(t, q) == props_lookup(t.drop_first(), q));
            assert(props_lookup(s, q) == props_lookup(s.drop_first(), q));
        }
    }
}

/// A key bound nowhere in the list looks up to nothing.
pub proof fn lemma_props_lookup_absent(s: Seq<(String, String)>, q: Seq<char>)
    requires
        forall|k: int| 0 <= k < s.len() ==> s[k].0@ != q,
    ensures
        props_lookup(s, q) == None::<Seq<char>>,
    decreases s.len(),
{
    if s.len() > 0 {
        lemma_props_lookup_absent(s.drop_first(), q);
    }
}

/// Replacing the pair that binds a key rebinds that key and nothing else.
pub proof fn lemma_props_lookup_update(
    s: Seq<(String, String)>,
    i: int,
    p: (String, String),
    q: Seq<char>,
)
    requires
        props_unique(s),
        0 <= i < s.len(),
        s[i].0@ == p.0@,
    ensures
        props_lookup(s.update(i, p), q) == (if q == p.0@ {
            Some(p.1@)
        } else {
            props_lookup(s, q)
        }),
    decreases s.len(),
{
    if i == 0 {
        assert(s.update(0, p)[0] == p);
        assert(s.update(0, p).drop_first() =~= s.drop_first());
        if q != p.0@ {
            assert(s[0].0@ != q);
        }
    } else {
        assert(s.update(i, p)[0] == s[0]);
        assert(s.update(i, p).drop_first() =~= s.drop_first().update(i - 1, p));
        assert(props_unique(s.drop_first())) by {
            assert forall|a: int, b: int|
                0 <= a < b < s.drop_first().len() implies s.drop_first()[a].0@ != s.drop_first()[
                    b
                ].0@ by {
                assert(s[a + 1].0@ != s[b + 1].0@);
            }
        }
        lemma_props_lookup_update(s.drop_first(), i - 1, p, q);
        if s[0].0@ == q {
            assert(s[0].0@ != s[i].0@);
        }
    }
}

/// Bind `key` to `value` in a property list: overwrite the pair that holds
/// the key, or append a new pair. Every other key keeps its value.
pub fn props_set(props: &mut Vec<(String, String)>, key: String, value: String)
    requires
        props_unique(old(props)@),
    ensures
        props_unique(final(props)@),
        props_lookup(final(props)@, key@) == Some(value@),
        forall|q: Seq<char>|
            q != key@ ==> props_lookup(final(props)@, q) == props_lookup(old(props)@, q),
{
    let mut i: usize = 0;
    while i < props.len()
        invariant
            i <= props@.len(),
            *props == *old(props),
            props_unique(props@),
            forall|k: int| 0 <= k < i ==> props@[k].0@ != key@,
        decreases props@.len() - i,
    {
        if props[i].0 == key {
            let ghost olds = props@;
            vec_update(props, i, (key, value));
            proof {
                assert forall|q: Seq<char>| true implies props_lookup(props@, q) == (if q
                    == olds[i as int].0@ {
                    Some(value@)
                } else {
                    props_lookup(olds, q)
                }) by {
                    lemma_props_lookup_update(olds, i as int, (props@[i as int]), q);
                }
                assert forall|a: int, b: int| 0 <= a < b < props@.len() implies props@[a].0@
                    != props@[b].0@ by {
                    assert(olds[a].0@ != olds[b].0@);
                }
            }
            return;
        }
        i += 1;
    }
    let ghost olds = props@;
    props.push((key, value));
    proof {
        assert forall|q: Seq<char>| true implies props_lookup(props@, q) == (match props_lookup(
            olds,
            q,
        ) {
            Some(v) => Some(v),
            None => if q == olds.push((props@[props@.len() - 1])).last().0@ {
                Some(value@)
            } else {
                None
            },
        }) by {
            lemma_props_lookup_snoc(olds, props@[props@.len() - 1], q);
        }
        lemma_props_lookup_absent(olds, props@[props@.len() - 1].0@);
        assert forall|a: int, b: int| 0 <= a < b < props@.len() implies props@[a].0@ != props@[
            b
        ].0@ by {
            if b == props@.len() - 1 {
                assert(olds[a].0@ != key@);
            } else {
                assert(olds[a].0@ != olds[b].0@);
            }
        }
    }
}

impl Tabular {
    /// Whether this row is visible under the given flags: staged rows need
    /// `include_staged`, soft-deleted rows need `include_deleted`.
    pub open spec fn visible(self, flags: ListFlags) -> bool {
        (!self.staged || flags.include_staged) && (!self.deleted || flags.include_deleted)
    }

    /// A staged row has no metadata location, and only tables stage.
    pub open spec fn shape_ok(self) -> bool {
        &&& self.staged <==> self.metadata_location is None
        &&& self.kind is View ==> !self.staged
    }
}

impl Registry {
    /// An empty registry.
    pub fn new() -> (r: Registry)
        ensures
            r.wf(),
            r.warehouses@.len() == 0,
            r.namespaces@.len() == 0,
            r.tabulars@.len() == 0,
            r.next_warehouse_id == 1,
    {
        Registry {
            warehouses: Vec::new(),
            namespaces: Vec::new(),
            tabulars: Vec::new(),
            next_warehouse_id: 1,
        }
    }

    // ---- sortedness ----

    pub open spec fn whs_sorted(self) -> bool {
        forall|i: int, j: int|
            0 <= i < j < self.warehouses@.len()
                ==> self.warehouses@[i].id < self.warehouses@[j].id
    }

    pub open spec fn nss_sorted(self) -> bool {
        forall|i: int, j: int|
            0 <= i < j < self.namespaces@.len()
                ==> self.namespaces@[i].id < self.namespaces@[j].id
    }

    pub open spec fn tabs_sorted(self) -> bool {
        forall|i: int, j: int|
            0 <= i < j < self.tabulars@.len()
                ==> self.tabulars@[i].id < self.tabulars@[j].id
    }

    // ---- name uniqueness among non-deleted siblings ----

    pub open spec fn wh_names_unique(self) -> bool {
        forall|i: int, j: int|
            0 <= i < j < self.warehouses@.len()
                && self.warehouses@[i].project_id == self.warehouses@[j].project_id
                ==> self.warehouses@[i].name@ != self.warehouses@[j].name@
    }

    pub open spec fn ns_names_unique(self) -> bool {
        forall|i: int, j: int|
            0 <= i < j < self.namespaces@.len()
                && self.namespaces@[i].warehouse_id == self.namespaces@[j].warehouse_id
                ==> self.namespaces@[i].name.deep_view() != self.namespaces@[j].name.deep_view()
    }

    pub open spec fn tab_names_unique(self) -> bool {
        forall|i: int, j: int|
            0 <= i < j < self.tabulars@.len()
                && self.tabulars@[i].namespace_id == self.tabulars@[j].namespace_id
                && !self.tabulars@[i].deleted && !self.tabulars@[j].deleted
                ==> self.tabulars@[i].name@ != self.tabulars@[j].name@
    }

    /// Well-formedness of the whole registry: ids strictly sorted (hence
    /// unique), warehouse ids below the allocation counter, sibling names
    /// unique among non-deleted entries, property keys unique, and every
    /// tabular row shaped correctly.
    pub open spec fn wf(self) -> bool {
        &&& self.whs_sorted()
        &&& self.nss_sorted()
        &&& self.tabs_sorted()
        &&& forall|i: int|
            0 <= i < self.warehouses@.len()
                ==> self.warehouses@[i].id < self.next_warehouse_id
        &&& self.wh_names_unique()
        &&& self.ns_names_unique()
        &&& self.tab_names_unique()
        &&& forall|i: int|
            0 <= i < self.namespaces@.len() ==> props_unique(self.namespaces@[i].properties@)
        &&& forall|i: int| 0 <= i < self.tabulars@.len() ==> self.tabulars@[i].shape_ok()
    }

    // ---- spec lookups by id ----

    pub open spec fn has_wh(self, id: u64) -> bool {
        exists|i: int| 0 <= i < self.warehouses@.len() && self.warehouses@[i].id == id
    }

    pub open spec fn wh_idx(self, id: u64) -> int {
        choose|i: int| 0 <= i < self.warehouses@.len() && self.warehouses@[i].id == id
    }

    pub open spec fn wh(self, id: u64) -> Warehouse {
        self.warehouses@[self.wh_idx(id)]
    }

    pub open spec fn has_ns(self, id: u64) -> bool {
        exists|i: int| 0 <= i < self.namespaces@.len() && self.namespaces@[i].id == id
    }

    pub open spec fn ns_idx(self, id: u64) -> int {
        choose|i: int| 0 <= i < self.namespaces@.len() && self.namespaces@[i].id == id
    }

    pub open spec fn ns(self, id: u64) -> Namespace {
        self.namespaces@[self.ns_idx(id)]
    }

    pub open spec fn has_tab(self, id: u64) -> bool {
        exists|i: int| 0 <= i < self.tabulars@.len() && self.tabulars@[i].id == id
    }

    pub open spec fn tab_idx(self, id: u64) -> int {
        choose|i: int| 0 <= i < self.tabulars@.len() && self.tabulars@[i].id == id
    }

    pub open spec fn tab(self, id: u64) -> Tabular {
        self.tabulars@[self.tab_idx(id)]
    }

    // ---- spec lookups by name ----

    pub open spec fn wh_name_taken(self, project_id: u64, name: Seq<char>) -> bool {
        exists|i: int|
            0 <= i < self.warehouses@.len() && self.warehouses@[i].project_id == project_id
                && self.warehouses@[i].name@ == name
    }

    pub open spec fn has_ns_named(self, warehouse_id: u64, name: Seq<Seq<char>>) -> bool {
        exists|i: int|
            0 <= i < self.namespaces@.len()
                && self.namespaces@[i].warehouse_id == warehouse_id
                && self.namespaces@[i].name.deep_view() == name
    }

    pub open spec fn ns_named_idx(self, warehouse_id: u64, name: Seq<Seq<char>>) -> int {
        choose|i: int|
            0 <= i < self.namespaces@.len()
                && self.namespaces@[i].warehouse_id == warehouse_id
                && self.namespaces@[i].name.deep_view() == name
    }

    pub open spec fn ns_named(self, warehouse_id: u64, name: Seq<Seq<char>>) -> Namespace {
        self.namespaces@[self.ns_named_idx(warehouse_id, name)]
    }

    /// A non-deleted tabular of this name exists in the namespace.
    pub open spec fn tab_name_taken(self, namespace_id: u64, name: Seq<char>) -> bool {
        exists|i: int|
            0 <= i < self.tabulars@.len() && self.tabulars@[i].namespace_id == namespace_id
                && !self.tabulars@[i].deleted && self.tabulars@[i].name@ == name
    }

    pub open spec fn tab_named_idx(self, namespace_id: u64, name: Seq<char>) -> int {
        choose|i: int|
            0 <= i < self.tabulars@.len() && self.tabulars@[i].namespace_id == namespace_id
                && !self.tabulars@[i].deleted && self.tabulars@[i].name@ == name
    }

    pub open spec fn tab_named(self, namespace_id: u64, name: Seq<char>) -> Tabular {
        self.tabulars@[self.tab_named_idx(namespace_id, name)]
    }

    /// The warehouse a tabular row belongs to, through its namespace.
    pub open spec fn tab_in_wh(self, t: Tabular, warehouse_id: u64) -> bool {
        self.has_ns(t.namespace_id) && self.ns(t.namespace_id).warehouse_id == warehouse_id
    }

    /// The warehouse of this tabular exists and is Active.
    pub open spec fn tab_wh_active(self, t: Tabular) -> bool {
        &&& self.has_ns(t.namespace_id)
        &&& self.has_wh(self.ns(t.namespace_id).warehouse_id)
        &&& self.wh(self.ns(t.namespace_id).warehouse_id).status is Active
    }

    // ---- uniqueness lemmas (sorted ids are distinct) ----

    pub proof fn wh_idx_unique(self, i: int, id: u64)
        requires
            self.whs_sorted(),
            0 <= i < self.warehouses@.len(),
            self.warehouses@[i].id == id,
        ensures
            self.has_wh(id),
            self.wh_idx(id) == i,
            self.wh(id) == self.warehouses@[i],
    {
        assert(self.has_wh(id));
        let j = self.wh_idx(id);
        if i < j {
            assert(self.warehouses@[i].id < self.warehouses@[j].id);
        } else if j < i {
            assert(self.warehouses@[j].id < self.warehouses@[i].id);
        }
    }

    pub proof fn ns_idx_unique(self, i: int, id: u64)
        requires
            self.nss_sorted(),
            0 <= i < self.namespaces@.len(),
            self.namespaces@[i].id == id,
        ensures
            self.has_ns(id),
            self.ns_idx(id) == i,
            self.ns(id) == self.namespaces@[i],
    {
        assert(self.has_ns(id));
        let j = self.ns_idx(id);
        if i < j {
            assert(self.namespaces@[i].id < self.namespaces@[j].id);
        } else if j < i {
            assert(self.namespaces@[j].id < self.namespaces@[i].id);
        }
    }

    pub proof fn tab_idx_unique(self, i: int, id: u64)
        requires
            self.tabs_sorted(),
            0 <= i < self.tabulars@.len(),
            self.tabulars@[i].id == id,
        ensures
            self.has_tab(id),
            self.tab_idx(id) == i,
            self.tab(id) == self.tabulars@[i],
    {
        assert(self.has_tab(id));
        let j = self.tab_idx(id);
        if i < j {
            assert(self.tabulars@[i].id < self.tabulars@[j].id);
        } else if j < i {
            assert(self.tabulars@[j].id < self.tabulars@[i].id);
        }
    }

    pub proof fn ns_named_unique(self, i: int, warehouse_id: u64, name: Seq<Seq<char>>)
        requires
            self.ns_names_unique(),
            0 <= i < self.namespaces@.len(),
            self.namespaces@[i].warehouse_id == warehouse_id,
            self.namespaces@[i].name.deep_view() == name,
        ensures
            self.has_ns_named(warehouse_id, name),
            self.ns_named_idx(warehouse_id, name) == i,
            self.ns_named(warehouse_id, name) == self.namespaces@[i],
    {
        assert(self.has_ns_named(warehouse_id, name));
        let j = self.ns_named_idx(warehouse_id, name);
        if i != j {
            assert(self.namespaces@[i].name.deep_view() != self.namespaces@[j].name.deep_view());
        }
    }

    pub proof fn tab_named_unique(self, i: int, namespace_id: u64, name: Seq<char>)
        requires
            self.tab_names_unique(),
            0 <= i < self.tabulars@.len(),
            self.tabulars@[i].namespace_id == namespace_id,
            !self.tabulars@[i].deleted,
            self.tabulars@[i].name@ == name,
        ensures
            self.tab_name_taken(namespace_id, name),
            self.tab_named_idx(namespace_id, name) == i,
            self.tab_named(namespace_id, name) == self.tabulars@[i],
    {
        assert(self.tab_name_taken(namespace_id, name));
        let j = self.tab_named_idx(namespace_id, name);
        if i != j {
            assert(self.tabulars@[i].name@ != self.tabulars@[j].name@);
        }
    }

    // ---- exec lookups ----

    /// Index of the warehouse with this id, if present.
    pub fn find_wh(&self, id: u64) -> (r: Option<usize>)
        ensures
            match r {
                Some(i) => i < self.warehouses@.len() && self.warehouses@[i as int].id == id,
                None => !self.has_wh(id),
            },
    {
        let mut i: usize = 0;
        while i < self.warehouses.len()
            invariant
                i <= self.warehouses@.len(),
                forall|k: int| 0 <= k < i ==> self.warehouses@[k].id != id,
            decreases self.warehouses@.len() - i,
        {
            if self.warehouses[i].id == id {
                return Some(i);
            }
            i += 1;
        }
        None
    }

    /// Index of the namespace with this id, if present.
    pub fn find_ns(&self, id: u64) -> (r: Option<usize>)
        ensures
            match r {
                Some(i) => i < self.namespaces@.len() && self.namespaces@[i as int].id == id,
                None => !self.has_ns(id),
            },
    {
        let mut i: usize = 0;
        while i < self.namespaces.len()
            invariant
                i <= self.namespaces@.len(),
                forall|k: int| 0 <= k < i ==> self.namespaces@[k].id != id,
            decreases self.namespaces@.len() - i,
        {
            if self.namespaces[i].id == id {
                return Some(i);
            }
            i += 1;
        }
        None
    }

    /// Index of the tabular with this id, if present.
    pub fn find_tab(&self, id: u64) -> (r: Option<usize>)
        ensures
            match r {
                Some(i) => i < self.tabulars@.len() && self.tabulars@[i as int].id == id,
                None => !self.has_tab(id),
            },
    {
        let mut i: usize = 0;
        while i < self.tabulars.len()
            invariant
                i <= self.tabulars@.len(),
                forall|k: int| 0 <= k < i ==> self.tabulars@[k].id != id,
            decreases self.tabulars@.len() - i,
        {
            if self.tabulars[i].id == id {
                return Some(i);
            }
            i += 1;
        }
        None
    }

    /// Index of the namespace with this name in the warehouse, if present.
    pub fn find_ns_named(&self, warehouse_id: u64, name: &Vec<String>) -> (r: Option<usize>)
        ensures
            match r {
                Some(i) => i < self.namespaces@.len()
                    && self.namespaces@[i as int].warehouse_id == warehouse_id
                    && self.namespaces@[i as int].name.deep_view() == name.deep_view(),
                None => !self.has_ns_named(warehouse_id, name.deep_view()),
            },
    {
        let mut i: usize = 0;
        while i < self.namespaces.len()
            invariant
                i <= self.namespaces@.len(),
                forall|k: int|
                    0 <= k < i ==> !(self.namespaces@[k].warehouse_id == warehouse_id
                        && self.namespaces@[k].name.deep_view() == name.deep_view()),
            decreases self.namespaces@.len() - i,
        {
            if self.namespaces[i].warehouse_id == warehouse_id && ident_eq(
                &self.namespaces[i].name,
                name,
            ) {
                return Some(i);
            }
            i += 1;
        }
        None
    }

    /// Index of the non-deleted tabular with this name in the namespace.
    pub fn find_tab_named(&self, namespace_id: u64, name: &String) -> (r: Option<usize>)
        ensures
            match r {
                Some(i) => i < self.tabulars@.len()
                    && self.tabulars@[i as int].namespace_id == namespace_id
                    && !self.tabulars@[i as int].deleted
                    && self.tabulars@[i as int].name@ == name@,
                None => !self.tab_name_taken(namespace_id, name@),
            },
    {
        let mut i: usize = 0;
        while i < self.tabulars.len()
            invariant
                i <= self.tabulars@.len(),
                forall|k: int|
                    0 <= k < i ==> !(self.tabulars@[k].namespace_id == namespace_id
                        && !self.tabulars@[k].deleted && self.tabulars@[k].name@ == name@),
            decreases self.tabulars@.len() - i,
        {
            if self.tabulars[i].namespace_id == namespace_id && !self.tabulars[i].deleted
                && self.tabulars[i].name == *name {
                return Some(i);
            }
            i += 1;
        }
        None
    }
}

/// A copy of a string list whose view is equal to the original's.
pub fn clone_strings(v: &Vec<String>) -> (r: Vec<String>)
    ensures
        r@ == v@,
{
    let mut r: Vec<String> = Vec::new();
    let mut i: usize = 0;
    while i < v.len()
        invariant
            i <= v@.len(),
            r@ == v@.take(i as int),
        decreases v@.len() - i,
    {
        r.push(v[i].clone());
        proof {
            assert(r@ =~= v@.take(i + 1));
        }
        i += 1;
    }
    proof {
        assert(v@.take(v@.len() as int) =~= v@);
    }
    r
}

/// A copy of a property list whose view is equal to the original's.
pub fn clone_props(v: &Vec<(String, String)>) -> (r: Vec<(String, String)>)
    ensures
        r@ == v@,
{
    let mut r: Vec<(String, String)> = Vec::new();
    let mut i: usize = 0;
    while i < v.len()
        invariant
            i <= v@.len(),
            r@ == v@.take(i as int),
        decreases v@.len() - i,
    {
        let (k, val) = (&v[i].0, &v[i].1);
        r.push((k.clone(), val.clone()));
        proof {
            assert(r@ =~= v@.take(i + 1));
        }
        i += 1;
    }
    proof {
        assert(v@.take(v@.len() as int) =~= v@);
    }
    r
}

/// A copy of an optional string that is spec-equal to the original.
pub fn clone_opt_string(v: &Option<String>) -> (r: Option<String>)
    ensures
        r == *v,
{
    match v {
        None => None,
        Some(s) => Some(s.clone()),
    }
}

impl StorageProfile {
    /// A copy that is spec-equal to the original.
    pub fn snapshot(&self) -> (r: StorageProfile)
        ensures
            r == *self,
    {
        StorageProfile { location: self.location.clone(), config: self.config.clone() }
    }
}

impl Warehouse {
    /// A copy that is spec-equal to the original.
    pub fn snapshot(&self) -> (r: Warehouse)
        ensures
            r == *self,
    {
        Warehouse {
            id: self.id,
            project_id: self.project_id,
            name: self.name.clone(),
            status: self.status,
            storage_profile: self.storage_profile.snapshot(),
            storage_secret_id: self.storage_secret_id,
        }
    }
}

impl Namespace {
    /// Two namespace rows that agree on every field, comparing the vectors
    /// by their views. A copy is `like` its original even where the vector
    /// values themselves are not provably equal.
    pub open spec fn like(self, o: Namespace) -> bool {
        &&& self.id == o.id
        &&& self.warehouse_id == o.warehouse_id
        &&& self.name@ == o.name@
        &&& self.properties@ == o.properties@
    }

    /// A copy that is `like` the original.
    pub fn snapshot(&self) -> (r: Namespace)
        ensures
            r.like(*self),
    {
        Namespace {
            id: self.id,
            warehouse_id: self.warehouse_id,
            name: clone_strings(&self.name),
            properties: clone_props(&self.properties),
        }
    }
}

impl Tabular {
    /// A copy that is spec-equal to the original.
    pub fn snapshot(&self) -> (r: Tabular)
        ensures
            r == *self,
    {
        Tabular {
            id: self.id,
            namespace_id: self.namespace_id,
            name: self.name.clone(),
            kind: self.kind,
            metadata_location: clone_opt_string(&self.metadata_location),
            metadata: self.metadata.clone(),
            staged: self.staged,
            deleted: self.deleted,
        }
    }
}

impl Registry {
    /// Two registries that agree everywhere, comparing namespace rows with
    /// `Namespace::like` and everything else by value.
    pub open spec fn like(self, o: Registry) -> bool {
        &&& self.warehouses@ == o.warehouses@
        &&& self.tabulars@ == o.tabulars@
        &&& self.namespaces@.len() == o.namespaces@.len()
        &&& forall|i: int|
            0 <= i < self.namespaces@.len()
                ==> #[trigger] self.namespaces@[i].like(o.namespaces@[i])
        &&& self.next_warehouse_id == o.next_warehouse_id
    }

    /// `like` registries are interchangeable for well-formedness: every
    /// clause of `wf` reads the fields only through their views.
    pub proof fn lemma_like_wf(self, o: Registry)
        requires
            self.like(o),
            o.wf(),
        ensures
            self.wf(),
    {
        assert forall|i: int| 0 <= i < self.namespaces@.len() implies props_unique(
            #[trigger] self.namespaces@[i].properties@,
        ) by {
            assert(self.namespaces@[i].like(o.namespaces@[i]));
            assert(props_unique(o.namespaces@[i].properties@));
        }
        assert forall|i: int, j: int|
            0 <= i < j < self.namespaces@.len()
                && self.namespaces@[i].warehouse_id == self.namespaces@[j].warehouse_id
            implies self.namespaces@[i].name.deep_view()
            != self.namespaces@[j].name.deep_view() by {
            assert(self.namespaces@[i].like(o.namespaces@[i]));
            assert(self.namespaces@[j].like(o.namespaces@[j]));
            assert(self.namespaces@[i].name.deep_view() =~= o.namespaces@[i].name.deep_view());
            assert(self.namespaces@[j].name.deep_view() =~= o.namespaces@[j].name.deep_view());
        }
        assert forall|i: int, j: int|
            0 <= i < j < self.namespaces@.len() implies self.namespaces@[i].id
            < self.namespaces@[j].id by {
            assert(self.namespaces@[i].like(o.namespaces@[i]));
            assert(self.namespaces@[j].like(o.namespaces@[j]));
        }
    }

    /// A copy of the whole registry that is `like` the original: the
    /// working state of a fresh unit of work.
    pub fn snapshot(&self) -> (r: Registry)
        ensures
            r.like(*self),
    {
        let mut warehouses: Vec<Warehouse> = Vec::new();
        let mut i: usize = 0;
        while i < self.warehouses.len()
            invariant
                i <= self.warehouses@.len(),
                warehouses@ == self.warehouses@.take(i as int),
            decreases self.warehouses@.len() - i,
        {
            warehouses.push(self.warehouses[i].snapshot());
            proof {
                assert(warehouses@ =~= self.warehouses@.take(i + 1));
            }
            i += 1;
        }
        let mut namespaces: Vec<Namespace> = Vec::new();
        let mut j: usize = 0;
        while j < self.namespaces.len()
            invariant
                j <= self.namespaces@.len(),
                namespaces@.len() == j,
                forall|k: int|
                    0 <= k < j ==> #[trigger] namespaces@[k].like(self.namespaces@[k]),
            decreases self.namespaces@.len() - j,
        {
            namespaces.push(self.namespaces[j].snapshot());
            j += 1;
        }
        let mut tabulars: Vec<Tabular> = Vec::new();
        let mut k: usize = 0;
        while k < self.tabulars.len()
            invariant
                k <= self.tabulars@.len(),
                tabulars@ == self.tabulars@.take(k as int),
            decreases self.tabulars@.len() - k,
        {
            tabulars.push(self.tabulars[k].snapshot());
            proof {
                assert(tabulars@ =~= self.tabulars@.take(k + 1));
            }
            k += 1;
        }
        proof {
            assert(self.warehouses@.take(self.warehouses@.len() as int) =~= self.warehouses@);
            assert(self.tabulars@.take(self.tabulars@.len() as int) =~= self.tabulars@);
        }
        Registry { warehouses, namespaces, tabulars, next_warehouse_id: self.next_warehouse_id }
    }
}

/// Replace one element, leaving the rest of the vector as it was.
pub fn vec_update<T>(v: &mut Vec<T>, i: usize, t: T)
    requires
        i < old(v)@.len(),
    ensures
        final(v)@ == old(v)@.update(i as int, t),
{
    v.remove(i);
    v.insert(i, t);
    proof {
        assert(v@ =~= old(v)@.update(i as int, t));
    }
}

impl Registry {
    /// Insert a namespace row at its place in the id order.
    pub fn insert_ns(&mut self, ns: Namespace)
        requires
            old(self).nss_sorted(),
            !old(self).has_ns(ns.id),
        ensures
            final(self).warehouses == old(self).warehouses,
            final(self).tabulars == old(self).tabulars,
            final(self).next_warehouse_id == old(self).next_warehouse_id,
            final(self).nss_sorted(),
            final(self).namespaces@.len() == old(self).namespaces@.len() + 1,
            exists|p: int|
                0 <= p <= old(self).namespaces@.len() && final(self).namespaces@ == old(
                    self,
                ).namespaces@.insert(p, ns),
            final(self).has_ns(ns.id),
            final(self).ns(ns.id) == ns,
    {
        let mut i: usize = 0;
        while i < self.namespaces.len() && self.namespaces[i].id < ns.id
            invariant
                i <= self.namespaces@.len(),
                forall|k: int| 0 <= k < i ==> self.namespaces@[k].id < ns.id,
            decreases self.namespaces@.len() - i,
        {
            i += 1;
        }
        proof {
            if i < self.namespaces@.len() {
                assert(self.namespaces@[i as int].id != ns.id);
            }
        }
        let ghost olds = *self;
        self.namespaces.insert(i, ns);
        proof {
            assert forall|a: int, b: int|
                0 <= a < b < self.namespaces@.len() implies self.namespaces@[a].id
                < self.namespaces@[b].id by {
                if b < i {
                } else if a > i {
                } else if a == i {
                    assert(self.namespaces@[b] == olds.namespaces@[b - 1]);
                    assert(olds.namespaces@[b - 1].id >= olds.namespaces@[i as int].id);
                } else if b == i {
                    assert(self.namespaces@[a] == olds.namespaces@[a]);
                } else {
                    assert(self.namespaces@[a] == olds.namespaces@[a]);
                    assert(self.namespaces@[b] == olds.namespaces@[b - 1]);
                    if a == i as int {
                    } else {
                    }
                }
            }
            self.ns_idx_unique(i as int, ns.id);
        }
    }

    /// Insert a tabular row at its place in the id order.
    pub fn insert_tab(&mut self, t: Tabular)
        requires
            old(self).tabs_sorted(),
            !old(self).has_tab(t.id),
        ensures
            final(self).warehouses == old(self).warehouses,
            final(self).namespaces == old(self).namespaces,
            final(self).next_warehouse_id == old(self).next_warehouse_id,
            final(self).tabs_sorted(),
            final(self).tabulars@.len() == old(self).tabulars@.len() + 1,
            exists|p: int|
                0 <= p <= old(self).tabulars@.len() && final(self).tabulars@ == old(
                    self,
                ).tabulars@.insert(p, t),
            final(self).has_tab(t.id),
            final(self).tab(t.id) == t,
    {
        let mut i: usize = 0;
        while i < self.tabulars.len() && self.tabulars[i].id < t.id
            invariant
                i <= self.tabulars@.len(),
                forall|k: int| 0 <= k < i ==> self.tabulars@[k].id < t.id,
            decreases self.tabulars@.len() - i,
        {
            i += 1;
        }
        proof {
            if i < self.tabulars@.len() {
                assert(self.tabulars@[i as int].id != t.id);
            }
        }
        let ghost olds = *self;
        self.tabulars.insert(i, t);
        proof {
            assert forall|a: int, b: int|
                0 <= a < b < self.tabulars@.len() implies self.tabulars@[a].id
                < self.tabulars@[b].id by {
                if b < i {
                } else if a > i {
                } else if a == i {
                    assert(self.tabulars@[b] == olds.tabulars@[b - 1]);
                    assert(olds.tabulars@[b - 1].id >= olds.tabulars@[i as int].id);
                } else if b == i {
                    assert(self.tabulars@[a] == olds.tabulars@[a]);
                } else {
                    assert(self.tabulars@[a] == olds.tabulars@[a]);
                    assert(self.tabulars@[b] == olds.tabulars@[b - 1]);
                }
            }
            self.tab_idx_unique(i as int, t.id);
        }
    }
}

/// Equality of two hierarchical names, level by level.
pub fn ident_eq(a: &Vec<String>, b: &Vec<String>) -> (r: bool)
    ensures
        r == (a.deep_view() == b.deep_view()),
{
    if a.len() != b.len() {
        assert(a.deep_view().len() != b.deep_view().len());
        return false;
    }
    let mut i: usize = 0;
    while i < a.len()
        invariant
            a@.len() == b@.len(),
            i <= a@.len(),
            forall|k: int| 0 <= k < i ==> a@[k]@ == b@[k]@,
        decreases a@.len() - i,
    {
        if !(a[i] == b[i]) {
            assert(a.deep_view()[i as int] != b.deep_view()[i as int]);
            return false;
        }
        i += 1;
    }
    proof {
        assert(a.deep_view() =~= b.deep_view());
    }
    true
}

} // verus!
