//! The raw structural records that the tag-file parser extracts: members,
//! methods, and per-declaration class records, with their mathematical views.

use vstd::prelude::*;

verus! {

/// Mathematical view of a `MemberInfo`.
pub ghost struct MemberView {
    pub name: Seq<char>,
    pub access: Seq<char>,
    pub data_type: Seq<char>,
}

/// One declared field of a class.
pub struct MemberInfo {
    pub name: String,
    pub access: String,
    pub data_type: String,
}

impl View for MemberInfo {
    type V = MemberView;

    open spec fn view(&self) -> MemberView {
        MemberView { name: self.name@, access: self.access@, data_type: self.data_type@ }
    }
}

impl DeepView for MemberInfo {
    type V = MemberView;

    open spec fn deep_view(&self) -> MemberView {
        self.view()
    }
}

impl Clone for MemberInfo {
    fn clone(&self) -> (r: Self)
        ensures
            r@ == self@,
    {
        MemberInfo {
            name: self.name.clone(),
            access: self.access.clone(),
            data_type: self.data_type.clone(),
        }
    }
}

/// Mathematical view of a `MethodInfo`.
pub ghost struct MethodView {
    pub name: Seq<char>,
    pub access: Seq<char>,
    pub return_type: Seq<char>,
}

/// One declared method of a class.
pub struct MethodInfo {
    pub name: String,
    pub access: String,
    pub return_type: String,
}

impl View for MethodInfo {
    type V = MethodView;

    open spec fn view(&self) -> MethodView {
        MethodView { name: self.name@, access: self.access@, return_type: self.return_type@ }
    }
}

impl DeepView for MethodInfo {
    type V = MethodView;

    open spec fn deep_view(&self) -> MethodView {
        self.view()
    }
}

impl Clone for MethodInfo {
    fn clone(&self) -> (r: Self)
        ensures
            r@ == self@,
    {
        MethodInfo {
            name: self.name.clone(),
            access: self.access.clone(),
            return_type: self.return_type.clone(),
        }
    }
}

/// Mathematical view of a `ClassInfo`: one unresolved class record.
/// The exec record's `id` field is not part of the view — ids are assigned
/// by the class graph builder alone, never read from records.
pub ghost struct RecordView {
    pub name: Seq<char>,
    pub source_file: Seq<char>,
    pub parents: Seq<Seq<char>>,
    pub members: Seq<MemberView>,
    pub methods: Seq<MethodView>,
}

/// One class declaration as extracted from a tag file: its parent names
/// are raw text references, not links, until the graph builder resolves
/// them.
pub struct ClassInfo {
    pub name: String,
    pub id: i32,
    pub source_file: String,
    pub parents: Vec<String>,
    pub members: Vec<MemberInfo>,
    pub method: Vec<MethodInfo>,
}

impl View for ClassInfo {
    type V = RecordView;

    open spec fn view(&self) -> RecordView {
        RecordView {
            name: self.name@,
            source_file: self.source_file@,
            parents: self.parents.deep_view(),
            members: self.members.deep_view(),
            methods: self.method.deep_view(),
        }
    }
}

impl DeepView for ClassInfo {
    type V = RecordView;

    open spec fn deep_view(&self) -> RecordView {
        self.view()
    }
}

impl Clone for ClassInfo {
    fn clone(&self) -> (r: Self)
        ensures
            r@ == self@,
            r.id == self.id,
    {
        let r = ClassInfo {
            name: self.name.clone(),
            id: self.id,
            source_file: self.source_file.clone(),
            parents: clone_strings(&self.parents),
            members: clone_members(&self.members),
            method: clone_methods(&self.method),
        };
        r
    }
}

impl ClassInfo {
    /// A fresh record holding only the class name; everything else is
    /// filled in by the extraction passes.
    pub fn new(class_name: &str) -> (r: Self)
        ensures
            r@ == (RecordView {
                name: class_name@,
                source_file: Seq::<char>::empty(),
                parents: Seq::<Seq<char>>::empty(),
                members: Seq::<MemberView>::empty(),
                methods: Seq::<MethodView>::empty(),
            }),
            r.id == 0,
    {
        let r = ClassInfo {
            name: class_name.to_owned(),
            id: 0,
            source_file: String::new(),
            parents: Vec::new(),
            members: Vec::new(),
            method: Vec::new(),
        };
        proof {
            assert(r.parents.deep_view() =~= Seq::<Seq<char>>::empty());
            assert(r.members.deep_view() =~= Seq::<MemberView>::empty());
            assert(r.method.deep_view() =~= Seq::<MethodView>::empty());
        }
        r
    }
}

/// An element-by-element copy of a string vector.
pub fn clone_strings(v: &Vec<String>) -> (r: Vec<String>)
    ensures
        r.deep_view() == v.deep_view(),
{
    let mut r: Vec<String> = Vec::new();
    let mut i: usize = 0;
    while i < v.len()
        invariant
            0 <= i <= v@.len(),
            r.deep_view() =~= v.deep_view().take(i as int),
        decreases v@.len() - i,
    {
        let ghost before = r.deep_view();
        r.push(v[i].clone());
        proof {
            assert(r.deep_view() =~= before.push(v@[i as int]@));
            assert(r.deep_view() =~= v.deep_view().take(i + 1));
        }
        i = i + 1;
    }
    proof {
        assert(v.deep_view().take(v@.len() as int) =~= v.deep_view());
    }
    r
}

/// An element-by-element copy of a member vector.
pub fn clone_members(v: &Vec<MemberInfo>) -> (r: Vec<MemberInfo>)
    ensures
        r.deep_view() == v.deep_view(),
{
    let mut r: Vec<MemberInfo> = Vec::new();
    let mut i: usize = 0;
    while i < v.len()
        invariant
            0 <= i <= v@.len(),
            r.deep_view() =~= v.deep_view().take(i as int),
        decreases v@.len() - i,
    {
        let ghost before = r.deep_view();
        r.push(v[i].clone());
        proof {
            assert(r.deep_view() =~= before.push(v@[i as int]@));
            assert(r.deep_view() =~= v.deep_view().take(i + 1));
        }
        i = i + 1;
    }
    proof {
        assert(v.deep_view().take(v@.len() as int) =~= v.deep_view());
    }
    r
}

/// An element-by-element copy of a record vector.
pub fn clone_records(v: &Vec<ClassInfo>) -> (r: Vec<ClassInfo>)
    ensures
        r.deep_view() == v.deep_view(),
{
    let mut r: Vec<ClassInfo> = Vec::new();
    let mut i: usize = 0;
    while i < v.len()
        invariant
            0 <= i <= v@.len(),
            r.deep_view() =~= v.deep_view().take(i as int),
        decreases v@.len() - i,
    {
        let ghost before = r.deep_view();
        r.push(v[i].clone());
        proof {
            assert(r.deep_view() =~= before.push(v@[i as int]@));
            assert(r.deep_view() =~= v.deep_view().take(i + 1));
        }
        i = i + 1;
    }
    proof {
        assert(v.deep_view().take(v@.len() as int) =~= v.deep_view());
    }
    r
}

/// An element-by-element copy of a method vector.
pub fn clone_methods(v: &Vec<MethodInfo>) -> (r: Vec<MethodInfo>)
    ensures
        r.deep_view() == v.deep_view(),
{
    let mut r: Vec<MethodInfo> = Vec::new();
    let mut i: usize = 0;
    while i < v.len()
        invariant
            0 <= i <= v@.len(),
            r.deep_view() =~= v.deep_view().take(i as int),
        decreases v@.len() - i,
    {
        let ghost before = r.deep_view();
        r.push(v[i].clone());
        proof {
            assert(r.deep_view() =~= before.push(v@[i as int]@));
            assert(r.deep_view() =~= v.deep_view().take(i + 1));
        }
        i = i + 1;
    }
    proof {
        assert(v.deep_view().take(v@.len() as int) =~= v.deep_view());
    }
    r
}

} // verus!
