//! The class graph builder: merges the raw class records of every plugin
//! into one resolved graph. Ids are assigned positionally, in the stable
//! order in which distinct class names first occur; re-declarations of a
//! name merge their members, methods and parent references into the one
//! node. Parent references resolve by exact name first, then by their
//! short name with the namespace qualifier stripped; what matches nothing
//! is kept verbatim as an unresolved (external) parent. Cycles among the
//! resolved edges are allowed and never rejected.

use vstd::prelude::*;

use crate::coco_struct::{
    clone_members, clone_methods, clone_strings, ClassInfo, MemberInfo, MemberView, MethodInfo,
    MethodView, RecordView,
};
use crate::strutil::{
    index_of_first, lemma_index_of_first, spec_strip_qualifier, str_eq, strip_qualifier,
};

verus! {

/// Some record in `rs` declares the class `name`.
pub open spec fn spec_contains_name(rs: Seq<RecordView>, name: Seq<char>) -> bool {
    exists|i: int| 0 <= i < rs.len() && rs[i].name == name
}

/// The distinct class names of `rs`, each at the position of its first
/// occurrence: the node id assignment of the graph.
pub open spec fn spec_class_names(rs: Seq<RecordView>) -> Seq<Seq<char>>
    decreases rs.len(),
{
    if rs.len() == 0 {
        Seq::empty()
    } else {
        let d = spec_class_names(rs.drop_last());
        if d.contains(rs.last().name) {
            d
        } else {
            d.push(rs.last().name)
        }
    }
}

/// All members that any record of class `name` declares, in record order.
pub open spec fn spec_members_of(rs: Seq<RecordView>, name: Seq<char>) -> Seq<MemberView>
    decreases rs.len(),
{
    if rs.len() == 0 {
        Seq::empty()
    } else {
        let pre = spec_members_of(rs.drop_last(), name);
        if rs.last().name == name {
            pre + rs.last().members
        } else {
            pre
        }
    }
}

/// All methods that any record of class `name` declares, in record order.
pub open spec fn spec_methods_of(rs: Seq<RecordView>, name: Seq<char>) -> Seq<MethodView>
    decreases rs.len(),
{
    if rs.len() == 0 {
        Seq::empty()
    } else {
        let pre = spec_methods_of(rs.drop_last(), name);
        if rs.last().name == name {
            pre + rs.last().methods
        } else {
            pre
        }
    }
}

/// All raw parent references that any record of class `name` declares.
pub open spec fn spec_parents_of(rs: Seq<RecordView>, name: Seq<char>) -> Seq<Seq<char>>
    decreases rs.len(),
{
    if rs.len() == 0 {
        Seq::empty()
    } else {
        let pre = spec_parents_of(rs.drop_last(), name);
        if rs.last().name == name {
            pre + rs.last().parents
        } else {
            pre
        }
    }
}

/// The source file of the first record of class `name`; empty when no
/// record declares it.
pub open spec fn spec_file_of(rs: Seq<RecordView>, name: Seq<char>) -> Seq<char>
    decreases rs.len(),
{
    if rs.len() == 0 {
        Seq::empty()
    } else if spec_contains_name(rs.drop_last(), name) {
        spec_file_of(rs.drop_last(), name)
    } else if rs.last().name == name {
        rs.last().source_file
    } else {
        Seq::empty()
    }
}

/// How one raw parent reference resolves against the known class names:
/// an exact match wins, else the short name with its namespace qualifier
/// stripped, else nothing.
pub open spec fn spec_resolve_one(names: Seq<Seq<char>>, p: Seq<char>) -> Option<int> {
    let exact = index_of_first(names, p);
    if exact >= 0 {
        Some(exact)
    } else {
        let short = index_of_first(names, spec_strip_qualifier(p));
        if short >= 0 {
            Some(short)
        } else {
            None
        }
    }
}

/// The outcome of resolving a parent list: node ids of the matches and
/// the verbatim names of the misses, each list without duplicates, in
/// first-occurrence order.
pub ghost struct ResolutionView {
    pub resolved: Seq<int>,
    pub unresolved: Seq<Seq<char>>,
}

/// Resolves a parent list left to right, deduplicating both outcomes.
pub open spec fn spec_resolution(names: Seq<Seq<char>>, parents: Seq<Seq<char>>) -> ResolutionView
    decreases parents.len(),
{
    if parents.len() == 0 {
        ResolutionView { resolved: Seq::empty(), unresolved: Seq::empty() }
    } else {
        let acc = spec_resolution(names, parents.drop_last());
        let p = parents.last();
        match spec_resolve_one(names, p) {
            Some(id) => if acc.resolved.contains(id) {
                acc
            } else {
                ResolutionView { resolved: acc.resolved.push(id), unresolved: acc.unresolved }
            },
            None => if acc.unresolved.contains(p) {
                acc
            } else {
                ResolutionView { resolved: acc.resolved, unresolved: acc.unresolved.push(p) }
            },
        }
    }
}

/// Mathematical view of a `ClassNode`.
pub ghost struct NodeView {
    pub id: int,
    pub name: Seq<char>,
    pub source_file: Seq<char>,
    pub members: Seq<MemberView>,
    pub methods: Seq<MethodView>,
    pub resolved_parents: Seq<int>,
    pub unresolved_parents: Seq<Seq<char>>,
}

/// The node that the graph built from `rs` holds at id `k`.
pub open spec fn spec_node(rs: Seq<RecordView>, k: int) -> NodeView {
    let names = spec_class_names(rs);
    let name = names[k];
    let res = spec_resolution(names, spec_parents_of(rs, name));
    NodeView {
        id: k,
        name: name,
        source_file: spec_file_of(rs, name),
        members: spec_members_of(rs, name),
        methods: spec_methods_of(rs, name),
        resolved_parents: res.resolved,
        unresolved_parents: res.unresolved,
    }
}

/// The whole graph built from `rs`: one node per distinct class name, in
/// id order.
pub open spec fn spec_build(rs: Seq<RecordView>) -> Seq<NodeView> {
    Seq::new(spec_class_names(rs).len(), |k: int| spec_node(rs, k))
}

/// One resolved class of the graph. `resolved_parents` holds node ids of
/// this run; `unresolved_parents` holds the parent names that matched no
/// node and are presumed external.
pub struct ClassNode {
    pub id: usize,
    pub name: String,
    pub source_file: String,
    pub members: Vec<MemberInfo>,
    pub methods: Vec<MethodInfo>,
    pub resolved_parents: Vec<usize>,
    pub unresolved_parents: Vec<String>,
}

impl View for ClassNode {
    type V = NodeView;

    open spec fn view(&self) -> NodeView {
        NodeView {
            id: self.id as int,
            name: self.name@,
            source_file: self.source_file@,
            members: self.members.deep_view(),
            methods: self.methods.deep_view(),
            resolved_parents: self.resolved_parents@.map_values(|u: usize| u as int),
            unresolved_parents: self.unresolved_parents.deep_view(),
        }
    }
}

impl DeepView for ClassNode {
    type V = NodeView;

    open spec fn deep_view(&self) -> NodeView {
        self.view()
    }
}

/// The resolved class graph of one analysis run.
pub struct ClassGraph {
    pub nodes: Vec<ClassNode>,
}

impl View for ClassGraph {
    type V = Seq<NodeView>;

    open spec fn view(&self) -> Seq<NodeView> {
        self.nodes.deep_view()
    }
}

/// First position of the exact string `x` in `names`, if any.
fn find_str(names: &Vec<String>, x: &str) -> (r: Option<usize>)
    ensures
        match r {
            Some(i) => i < names@.len() && index_of_first(names.deep_view(), x@) == i as int,
            None => index_of_first(names.deep_view(), x@) == -1,
        },
{
    let ghost ns = names.deep_view();
    let mut i: usize = 0;
    while i < names.len()
        invariant
            ns == names.deep_view(),
            0 <= i <= ns.len(),
            forall|j: int| 0 <= j < i ==> ns[j] != x@,
        decreases ns.len() - i,
    {
        if str_eq(names[i].as_str(), x) {
            proof {
                assert(ns[i as int] == names@[i as int]@);
                lemma_index_of_first(ns, x@);
                assert(index_of_first(ns, x@) != -1);
                assert(index_of_first(ns, x@) == i as int);
            }
            return Some(i);
        }
        i = i + 1;
    }
    proof {
        lemma_index_of_first(ns, x@);
    }
    None
}

/// Membership of one id in an id list.
fn contains_usize(v: &Vec<usize>, x: usize) -> (r: bool)
    ensures
        r == v@.contains(x),
{
    let mut i: usize = 0;
    while i < v.len()
        invariant
            0 <= i <= v@.len(),
            forall|j: int| 0 <= j < i ==> v@[j] != x,
        decreases v@.len() - i,
    {
        if v[i] == x {
            return true;
        }
        i = i + 1;
    }
    false
}

proof fn lemma_mapped_contains(v: Seq<usize>, x: usize)
    ensures
        v.map_values(|u: usize| u as int).contains(x as int) <==> v.contains(x),
{
    let m = v.map_values(|u: usize| u as int);
    if m.contains(x as int) {
        let i = choose|i: int| 0 <= i < m.len() && m[i] == x as int;
        assert(v[i] == x);
    }
    if v.contains(x) {
        let i = choose|i: int| 0 <= i < v.len() && v[i] == x;
        assert(m[i] == x as int);
    }
}

/// Resolves one raw parent reference, against `spec_resolve_one`.
fn resolve_one(names: &Vec<String>, p: &str) -> (r: Option<usize>)
    ensures
        match r {
            Some(u) => spec_resolve_one(names.deep_view(), p@) == Some(u as int),
            None => spec_resolve_one(names.deep_view(), p@) is None,
        },
{
    match find_str(names, p) {
        Some(i) => Some(i),
        None => {
            let short = strip_qualifier(p);
            match find_str(names, short.as_str()) {
                Some(j) => Some(j),
                None => None,
            }
        },
    }
}

/// The distinct class names of the records, in first-occurrence order.
fn distinct_names(records: &Vec<ClassInfo>) -> (r: Vec<String>)
    ensures
        r.deep_view() == spec_class_names(records.deep_view()),
{
    let ghost rsv = records.deep_view();
    let mut names: Vec<String> = Vec::new();
    let mut i: usize = 0;
    proof {
        assert(names.deep_view() =~= spec_class_names(rsv.take(0)));
    }
    while i < records.len()
        invariant
            rsv == records.deep_view(),
            0 <= i <= rsv.len(),
            names.deep_view() == spec_class_names(rsv.take(i as int)),
        decreases rsv.len() - i,
    {
        let ghost d = names.deep_view();
        proof {
            assert(rsv.take(i + 1).drop_last() =~= rsv.take(i as int));
            assert(rsv.take(i + 1).last() == rsv[i as int]);
            lemma_index_of_first(d, rsv[i as int].name);
            assert(records.deep_view()[i as int] == records@[i as int]@);
        }
        match find_str(&names, records[i].name.as_str()) {
            Some(_) => {
                proof {
                    assert(d.contains(rsv[i as int].name));
                }
            },
            None => {
                let ghost before = names.deep_view();
                names.push(records[i].name.clone());
                proof {
                    assert(!before.contains(rsv[i as int].name));
                    assert(names.deep_view() =~= before.push(rsv[i as int].name));
                }
            },
        }
        i = i + 1;
    }
    proof {
        assert(rsv.take(rsv.len() as int) =~= rsv);
    }
    names
}

/// One pass over the records for class `name`: its source file (first
/// record wins) and its merged members, methods and parent references.
fn collect_for_name(records: &Vec<ClassInfo>, name: &str) -> (r: (
    String,
    Vec<MemberInfo>,
    Vec<MethodInfo>,
    Vec<String>,
))
    ensures
        r.0@ == spec_file_of(records.deep_view(), name@),
        r.1.deep_view() == spec_members_of(records.deep_view(), name@),
        r.2.deep_view() == spec_methods_of(records.deep_view(), name@),
        r.3.deep_view() == spec_parents_of(records.deep_view(), name@),
{
    let ghost rsv = records.deep_view();
    let mut file = String::new();
    let mut found = false;
    let mut members: Vec<MemberInfo> = Vec::new();
    let mut methods: Vec<MethodInfo> = Vec::new();
    let mut parents: Vec<String> = Vec::new();
    let mut i: usize = 0;
    proof {
        assert(members.deep_view() =~= spec_members_of(rsv.take(0), name@));
        assert(methods.deep_view() =~= spec_methods_of(rsv.take(0), name@));
        assert(parents.deep_view() =~= spec_parents_of(rsv.take(0), name@));
    }
    while i < records.len()
        invariant
            rsv == records.deep_view(),
            0 <= i <= rsv.len(),
            found == spec_contains_name(rsv.take(i as int), name@),
            file@ == spec_file_of(rsv.take(i as int), name@),
            members.deep_view() == spec_members_of(rsv.take(i as int), name@),
            methods.deep_view() == spec_methods_of(rsv.take(i as int), name@),
            parents.deep_view() == spec_parents_of(rsv.take(i as int), name@),
        decreases rsv.len() - i,
    {
        proof {
            assert(rsv.take(i + 1).drop_last() =~= rsv.take(i as int));
            assert(rsv.take(i + 1).last() == rsv[i as int]);
            assert(records.deep_view()[i as int] == records@[i as int]@);
        }
        if str_eq(records[i].name.as_str(), name) {
            if !found {
                file = records[i].source_file.clone();
                found = true;
            }
            let ghost m0 = members.deep_view();
            let mut more_members = clone_members(&records[i].members);
            let ghost mm = more_members.deep_view();
            members.append(&mut more_members);
            let ghost t0 = methods.deep_view();
            let mut more_methods = clone_methods(&records[i].method);
            let ghost tt = more_methods.deep_view();
            methods.append(&mut more_methods);
            let ghost p0 = parents.deep_view();
            let mut more_parents = clone_strings(&records[i].parents);
            let ghost pp = more_parents.deep_view();
            parents.append(&mut more_parents);
            proof {
                assert(members.deep_view() =~= m0 + mm);
                assert(methods.deep_view() =~= t0 + tt);
                assert(parents.deep_view() =~= p0 + pp);
                assert(spec_contains_name(rsv.take(i + 1), name@));
            }
        } else {
            proof {
                if spec_contains_name(rsv.take(i + 1), name@) {
                    let w = choose|w: int|
                        0 <= w < rsv.take(i + 1).len() && #[trigger] rsv.take(i + 1)[w].name
                            == name@;
                    assert(0 <= w < i);
                    assert(rsv.take(i as int)[w].name == name@);
                }
            }
        }
        i = i + 1;
    }
    proof {
        assert(rsv.take(rsv.len() as int) =~= rsv);
    }
    (file, members, methods, parents)
}

/// Resolves a whole parent list, against `spec_resolution`.
fn resolve_parents(names: &Vec<String>, parents: &Vec<String>) -> (r: (Vec<usize>, Vec<String>))
    ensures
        r.0@.map_values(|u: usize| u as int) == spec_resolution(
            names.deep_view(),
            parents.deep_view(),
        ).resolved,
        r.1.deep_view() == spec_resolution(names.deep_view(), parents.deep_view()).unresolved,
{
    let ghost ns = names.deep_view();
    let ghost ps = parents.deep_view();
    let mut resolved: Vec<usize> = Vec::new();
    let mut unresolved: Vec<String> = Vec::new();
    let mut j: usize = 0;
    proof {
        assert(resolved@.map_values(|u: usize| u as int) =~= spec_resolution(
            ns,
            ps.take(0),
        ).resolved);
        assert(unresolved.deep_view() =~= spec_resolution(ns, ps.take(0)).unresolved);
    }
    while j < parents.len()
        invariant
            ns == names.deep_view(),
            ps == parents.deep_view(),
            0 <= j <= ps.len(),
            resolved@.map_values(|u: usize| u as int) == spec_resolution(
                ns,
                ps.take(j as int),
            ).resolved,
            unresolved.deep_view() == spec_resolution(ns, ps.take(j as int)).unresolved,
        decreases ps.len() - j,
    {
        let ghost acc = spec_resolution(ns, ps.take(j as int));
        proof {
            assert(ps.take(j + 1).drop_last() =~= ps.take(j as int));
            assert(ps.take(j + 1).last() == ps[j as int]);
            assert(parents.deep_view()[j as int] == parents@[j as int]@);
        }
        let p = parents[j].as_str();
        match resolve_one(names, p) {
            Some(id) => {
                proof {
                    lemma_mapped_contains(resolved@, id);
                }
                if !contains_usize(&resolved, id) {
                    let ghost r0 = resolved@.map_values(|u: usize| u as int);
                    resolved.push(id);
                    proof {
                        assert(resolved@.map_values(|u: usize| u as int) =~= r0.push(id as int));
                    }
                }
            },
            None => {
                let found = match find_str(&unresolved, p) {
                    Some(_) => true,
                    None => false,
                };
                proof {
                    lemma_index_of_first(unresolved.deep_view(), p@);
                }
                if !found {
                    let ghost u0 = unresolved.deep_view();
                    unresolved.push(parents[j].clone());
                    proof {
                        assert(unresolved.deep_view() =~= u0.push(p@));
                    }
                }
            },
        }
        j = j + 1;
    }
    proof {
        assert(ps.take(ps.len() as int) =~= ps);
    }
    (resolved, unresolved)
}

impl ClassGraph {
    /// Builds the graph of one analysis run from the merged record
    /// sequences of every plugin, in their stable arrival order. The
    /// result is a function of the records alone: identical record
    /// sequences always yield the identical graph.
    pub fn build(records: &Vec<ClassInfo>) -> (g: ClassGraph)
        ensures
            g@ == spec_build(records.deep_view()),
    {
        let ghost rsv = records.deep_view();
        let names = distinct_names(records);
        let mut nodes: Vec<ClassNode> = Vec::new();
        let mut k: usize = 0;
        proof {
            assert(nodes.deep_view() =~= spec_build(rsv).take(0));
        }
        while k < names.len()
            invariant
                rsv == records.deep_view(),
                names.deep_view() == spec_class_names(rsv),
                0 <= k <= names@.len(),
                nodes.deep_view() == spec_build(rsv).take(k as int),
            decreases names@.len() - k,
        {
            proof {
                assert(names.deep_view()[k as int] == names@[k as int]@);
            }
            let name = names[k].as_str();
            let (file, members, methods, parents) = collect_for_name(records, name);
            let (resolved, unresolved) = resolve_parents(&names, &parents);
            let node = ClassNode {
                id: k,
                name: names[k].clone(),
                source_file: file,
                members,
                methods,
                resolved_parents: resolved,
                unresolved_parents: unresolved,
            };
            let ghost before = nodes.deep_view();
            proof {
                assert(node@ == spec_node(rsv, k as int));
                assert(spec_build(rsv)[k as int] == spec_node(rsv, k as int));
            }
            nodes.push(node);
            proof {
                assert(nodes.deep_view() =~= before.push(spec_build(rsv)[k as int]));
                assert(nodes.deep_view() =~= spec_build(rsv).take(k + 1));
            }
            k = k + 1;
        }
        proof {
            assert(spec_build(rsv).take(spec_build(rsv).len() as int) =~= spec_build(rsv));
        }
        ClassGraph { nodes }
    }
}

proof fn lemma_push_keeps<T>(s: Seq<T>, e: T, x: T)
    ensures
        s.contains(x) ==> s.push(e).contains(x),
        s.push(e).contains(e),
{
    if s.contains(x) {
        let i = choose|i: int| 0 <= i < s.len() && s[i] == x;
        assert(s.push(e)[i] == x);
    }
    assert(s.push(e)[s.len() as int] == e);
}

/// Law: resolution loses nothing — every raw parent reference either
/// resolves to a node id that the resolved list holds, or stands verbatim
/// in the unresolved list.
pub proof fn lemma_parent_coverage(names: Seq<Seq<char>>, parents: Seq<Seq<char>>, j: int)
    requires
        0 <= j < parents.len(),
    ensures
        match spec_resolve_one(names, parents[j]) {
            Some(id) => spec_resolution(names, parents).resolved.contains(id),
            None => spec_resolution(names, parents).unresolved.contains(parents[j]),
        },
    decreases parents.len(),
{
    let acc = spec_resolution(names, parents.drop_last());
    let p = parents.last();
    if j == parents.len() - 1 {
        match spec_resolve_one(names, p) {
            Some(id) => {
                lemma_push_keeps(acc.resolved, id, id);
            },
            None => {
                lemma_push_keeps(acc.unresolved, p, p);
            },
        }
    } else {
        lemma_parent_coverage(names, parents.drop_last(), j);
        assert(parents.drop_last()[j] == parents[j]);
        match spec_resolve_one(names, parents[j]) {
            Some(id) => {
                match spec_resolve_one(names, p) {
                    Some(id2) => {
                        lemma_push_keeps(acc.resolved, id2, id);
                    },
                    None => {
                        lemma_push_keeps(acc.resolved, 0, id);
                    },
                }
            },
            None => {
                match spec_resolve_one(names, p) {
                    Some(id2) => {
                        lemma_push_keeps(acc.unresolved, p, parents[j]);
                    },
                    None => {
                        lemma_push_keeps(acc.unresolved, p, parents[j]);
                    },
                }
            },
        }
    }
}

proof fn lemma_resolution_in_range(names: Seq<Seq<char>>, parents: Seq<Seq<char>>, e: int)
    ensures
        spec_resolution(names, parents).resolved.contains(e) ==> 0 <= e < names.len(),
    decreases parents.len(),
{
    if parents.len() > 0 {
        let acc = spec_resolution(names, parents.drop_last());
        let p = parents.last();
        lemma_resolution_in_range(names, parents.drop_last(), e);
        lemma_index_of_first(names, p);
        lemma_index_of_first(names, spec_strip_qualifier(p));
        let full = spec_resolution(names, parents);
        if full.resolved.contains(e) && !acc.resolved.contains(e) {
            let i = choose|i: int| 0 <= i < full.resolved.len() && full.resolved[i] == e;
            assert(i == acc.resolved.len());
        }
    }
}

/// Law: the graph is well formed — node ids are positional, and every
/// resolved parent id refers to an existing node of the same graph.
pub proof fn lemma_graph_well_formed(rs: Seq<RecordView>, k: int, e: int)
    requires
        0 <= k < spec_build(rs).len(),
    ensures
        spec_build(rs)[k].id == k,
        spec_build(rs)[k].resolved_parents.contains(e) ==> 0 <= e < spec_build(rs).len(),
{
    let names = spec_class_names(rs);
    lemma_resolution_in_range(names, spec_parents_of(rs, names[k]), e);
}

/// Law: ids are never reused — no two nodes of a built graph carry the
/// same class name, however often a name was re-declared.
pub proof fn lemma_class_names_distinct(rs: Seq<RecordView>)
    ensures
        forall|i: int, j: int|
            0 <= i < j < spec_class_names(rs).len() ==> spec_class_names(rs)[i]
                != spec_class_names(rs)[j],
    decreases rs.len(),
{
    if rs.len() > 0 {
        lemma_class_names_distinct(rs.drop_last());
        let d = spec_class_names(rs.drop_last());
        let names = spec_class_names(rs);
        if !d.contains(rs.last().name) {
            assert forall|i: int, j: int| 0 <= i < j < names.len() implies names[i]
                != names[j] by {
                if j == d.len() {
                    assert(names[j] == rs.last().name);
                    if names[i] == rs.last().name {
                        assert(d[i] == rs.last().name);
                        assert(d.contains(rs.last().name));
                    }
                }
            }
        }
    }
}

/// Law: the merge is complete and adds nothing — a class name has a node
/// in the built graph exactly when some record declares it.
pub proof fn lemma_names_complete(rs: Seq<RecordView>, name: Seq<char>)
    ensures
        spec_class_names(rs).contains(name) <==> spec_contains_name(rs, name),
    decreases rs.len(),
{
    if rs.len() > 0 {
        lemma_names_complete(rs.drop_last(), name);
        let d = spec_class_names(rs.drop_last());
        let names = spec_class_names(rs);
        if names.contains(name) {
            let w = choose|w: int| 0 <= w < names.len() && names[w] == name;
            if w < d.len() {
                assert(d.contains(name));
                let v = choose|v: int| 0 <= v < rs.drop_last().len() && rs.drop_last()[v].name
                    == name;
                assert(rs[v].name == name);
            } else {
                assert(name == rs.last().name);
                assert(rs[rs.len() - 1].name == name);
            }
        }
        if spec_contains_name(rs, name) {
            let w = choose|w: int| 0 <= w < rs.len() && rs[w].name == name;
            if w < rs.len() - 1 {
                assert(rs.drop_last()[w].name == name);
                assert(spec_contains_name(rs.drop_last(), name));
                lemma_push_keeps(d, rs.last().name, name);
            } else {
                if d.contains(name) {
                    assert(names.contains(name));
                } else {
                    lemma_push_keeps(d, rs.last().name, name);
                }
            }
        }
    }
}

/// Law: resolution invents nothing — every entry of the resolved list is
/// how some raw parent reference resolved, and every entry of the
/// unresolved list is a raw parent reference that resolved to nothing.
pub proof fn lemma_resolution_sound(names: Seq<Seq<char>>, parents: Seq<Seq<char>>, e: int, u: Seq<
    char,
>)
    ensures
        spec_resolution(names, parents).resolved.contains(e) ==> exists|j: int|
            0 <= j < parents.len() && #[trigger] spec_resolve_one(names, parents[j]) == Some(e),
        spec_resolution(names, parents).unresolved.contains(u) ==> exists|j: int|
            0 <= j < parents.len() && parents[j] == u && #[trigger] spec_resolve_one(
                names,
                parents[j],
            ) is None,
    decreases parents.len(),
{
    if parents.len() > 0 {
        lemma_resolution_sound(names, parents.drop_last(), e, u);
        let acc = spec_resolution(names, parents.drop_last());
        let full = spec_resolution(names, parents);
        let p = parents.last();
        assert(forall|j: int| 0 <= j < parents.len() - 1 ==> parents.drop_last()[j] == parents[j]);
        if full.resolved.contains(e) && !acc.resolved.contains(e) {
            let i = choose|i: int| 0 <= i < full.resolved.len() && full.resolved[i] == e;
            assert(i == acc.resolved.len());
            assert(spec_resolve_one(names, p) == Some(e));
            assert(parents[parents.len() - 1] == p);
        }
        if full.unresolved.contains(u) && !acc.unresolved.contains(u) {
            let i = choose|i: int| 0 <= i < full.unresolved.len() && full.unresolved[i] == u;
            assert(i == acc.unresolved.len());
            assert(p == u);
            assert(parents[parents.len() - 1] == p);
        }
    }
}

/// Law: building is deterministic — the same record sequence always
/// yields the same graph, ids and edge sets alike.
pub proof fn lemma_build_deterministic(rs1: Seq<RecordView>, rs2: Seq<RecordView>)
    requires
        rs1 == rs2,
    ensures
        spec_build(rs1) == spec_build(rs2),
{
}

} // verus!
