//! The schema model: a type definition classified as a leaf command (a
//! record) or a command group (a tagged union whose members each wrap one
//! nested type).
use vstd::prelude::*;
use crate::attr::{
    about_key, help_key, member_name, parse_spec, Annotation, AttrError, AttrErrorView,
    Attributes, AttributesView, VariantAttributes, VariantAttributesView,
};

verus! {

/// The fields of a record or of a union member, each given by its type.
#[derive(Debug, Clone)]
pub enum Fields {
    Named(Vec<String>),
    Tuple(Vec<String>),
    Unit,
}

impl Fields {
    pub open spec fn types(&self) -> Seq<String> {
        match self {
            Fields::Named(v) => v@,
            Fields::Tuple(v) => v@,
            Fields::Unit => Seq::empty(),
        }
    }

    /// The type of the single field, where there is exactly one.
    pub fn payload_type(&self) -> (r: Option<String>)
        ensures
            r is Some <==> self.types().len() == 1,
            r is Some ==> r->Some_0@ == self.types()[0]@,
    {
        match self {
            Fields::Named(v) | Fields::Tuple(v) => {
                if v.len() == 1 {
                    Some(v[0].clone())
                } else {
                    None
                }
            },
            Fields::Unit => None,
        }
    }
}

/// One member of a tagged union, with its annotations.
#[derive(Debug, Clone)]
pub struct VariantDef {
    pub ident: String,
    pub attrs: Vec<Annotation>,
    pub fields: Fields,
}

/// The body of a type definition.
#[derive(Debug, Clone)]
pub enum Body {
    Struct(Fields),
    Enum(Vec<VariantDef>),
}

/// A type definition together with its annotations, as a front end reads it.
#[derive(Debug, Clone)]
pub struct TypeDef {
    pub ident: String,
    pub attrs: Vec<Annotation>,
    pub body: Body,
}

/// Why a type definition could not be turned into a schema node.
#[derive(Debug, Clone, PartialEq, Eq)]
pub enum SchemaError {
    /// A tuple record, named by the type.
    UnsupportedTopLevelShape(String),
    /// A member without exactly one field, named by the member.
    UnsupportedMemberShape(String),
    /// A union without members, named by the type.
    EmptyGroup(String),
    /// Two members of one group under the same name.
    DuplicateMemberName(String),
    /// The type's own annotations were rejected.
    Attribute(AttrError),
    /// The annotations of the named member were rejected.
    MemberAttribute(String, AttrError),
    /// A type of this name is already registered.
    DuplicateType(String),
    /// A member wraps a type that is not registered yet.
    UnknownPayloadType(String),
}

pub enum SchemaErrorView {
    UnsupportedTopLevelShape(Seq<char>),
    UnsupportedMemberShape(Seq<char>),
    EmptyGroup(Seq<char>),
    DuplicateMemberName(Seq<char>),
    Attribute(AttrErrorView),
    MemberAttribute(Seq<char>, AttrErrorView),
    DuplicateType(Seq<char>),
    UnknownPayloadType(Seq<char>),
}

impl View for SchemaError {
    type V = SchemaErrorView;

    open spec fn view(&self) -> SchemaErrorView {
        match self {
            SchemaError::UnsupportedTopLevelShape(s) => SchemaErrorView::UnsupportedTopLevelShape(s@),
            SchemaError::UnsupportedMemberShape(s) => SchemaErrorView::UnsupportedMemberShape(s@),
            SchemaError::EmptyGroup(s) => SchemaErrorView::EmptyGroup(s@),
            SchemaError::DuplicateMemberName(s) => SchemaErrorView::DuplicateMemberName(s@),
            SchemaError::Attribute(e) => SchemaErrorView::Attribute(e@),
            SchemaError::MemberAttribute(s, e) => SchemaErrorView::MemberAttribute(s@, e@),
            SchemaError::DuplicateType(s) => SchemaErrorView::DuplicateType(s@),
            SchemaError::UnknownPayloadType(s) => SchemaErrorView::UnknownPayloadType(s@),
        }
    }
}

/// A leaf command: a record, with no subcommands.
#[derive(Debug, Clone)]
pub struct App {
    pub ident: String,
    pub attrs: Attributes,
}

pub struct AppView {
    pub ident: Seq<char>,
    pub attrs: AttributesView,
}

impl View for App {
    type V = AppView;

    open spec fn view(&self) -> AppView {
        AppView { ident: self.ident@, attrs: self.attrs@ }
    }
}

/// A member of a command group: its identifier, the type it wraps, and its
/// annotations.
#[derive(Debug, Clone)]
pub struct SubcommandVariant {
    pub ident: String,
    pub ty: String,
    pub attrs: VariantAttributes,
}

pub struct VariantView {
    pub ident: Seq<char>,
    pub ty: Seq<char>,
    pub attrs: VariantAttributesView,
}

impl View for SubcommandVariant {
    type V = VariantView;

    open spec fn view(&self) -> VariantView {
        VariantView { ident: self.ident@, ty: self.ty@, attrs: self.attrs@ }
    }
}

impl VariantView {
    /// The subcommand name of the member.
    pub open spec fn name(self) -> Seq<char> {
        member_name(self.attrs, self.ident)
    }
}

/// A command group: a tagged union whose members are its subcommands.
#[derive(Debug, Clone)]
pub struct Subcommand {
    pub ident: String,
    pub attrs: Attributes,
    pub variants: Vec<SubcommandVariant>,
}

pub struct SubcommandView {
    pub ident: Seq<char>,
    pub attrs: AttributesView,
    pub variants: Seq<VariantView>,
}

impl View for Subcommand {
    type V = SubcommandView;

    open spec fn view(&self) -> SubcommandView {
        SubcommandView {
            ident: self.ident@,
            attrs: self.attrs@,
            variants: self.variants@.map_values(|v: SubcommandVariant| v@),
        }
    }
}

impl SubcommandView {
    /// A group has members, and no two of them share a name.
    pub open spec fn wf(self) -> bool {
        &&& self.variants.len() > 0
        &&& forall|i: int, j: int|
            0 <= i < j < self.variants.len() ==> #[trigger] self.variants[i].name()
                != #[trigger] self.variants[j].name()
    }
}

/// A schema node: a leaf command or a command group.
#[derive(Debug, Clone)]
pub enum SchemaNode {
    Leaf(App),
    Group(Subcommand),
}

pub enum SchemaNodeView {
    Leaf(AppView),
    Group(SubcommandView),
}

impl View for SchemaNode {
    type V = SchemaNodeView;

    open spec fn view(&self) -> SchemaNodeView {
        match self {
            SchemaNode::Leaf(a) => SchemaNodeView::Leaf(a@),
            SchemaNode::Group(g) => SchemaNodeView::Group(g@),
        }
    }
}

impl SchemaNodeView {
    pub open spec fn ident(self) -> Seq<char> {
        match self {
            SchemaNodeView::Leaf(a) => a.ident,
            SchemaNodeView::Group(g) => g.ident,
        }
    }

    pub open spec fn attrs(self) -> AttributesView {
        match self {
            SchemaNodeView::Leaf(a) => a.attrs,
            SchemaNodeView::Group(g) => g.attrs,
        }
    }

    pub open spec fn wf(self) -> bool {
        match self {
            SchemaNodeView::Leaf(_) => true,
            SchemaNodeView::Group(g) => g.wf(),
        }
    }
}

pub open spec fn member_parse(d: VariantDef) -> Result<AttributesView, AttrErrorView> {
    parse_spec(d.attrs@, help_key(), false)
}

pub open spec fn shape_ok(d: VariantDef) -> bool {
    d.fields.types().len() == 1
}

/// The member that a well-shaped, well-annotated definition yields.
pub open spec fn variant_spec(d: VariantDef) -> VariantView {
    VariantView {
        ident: d.ident@,
        ty: d.fields.types()[0]@,
        attrs: VariantAttributesView {
            name: member_parse(d)->Ok_0.name,
            help: member_parse(d)->Ok_0.about,
        },
    }
}

pub open spec fn first_bad_shape(defs: Seq<VariantDef>) -> int {
    choose|j: int|
        0 <= j < defs.len() && !shape_ok(defs[j]) && forall|i: int|
            0 <= i < j ==> shape_ok(#[trigger] defs[i])
}

pub open spec fn first_bad_attrs(defs: Seq<VariantDef>) -> int {
    choose|j: int|
        0 <= j < defs.len() && member_parse(defs[j]) is Err && forall|i: int|
            0 <= i < j ==> member_parse(#[trigger] defs[i]) is Ok
}

/// Whether the name at `j` was already used before `j`.
pub open spec fn repeated_at(names: Seq<Seq<char>>, j: int) -> bool {
    exists|i: int| 0 <= i < j && names[i] == names[j]
}

pub open spec fn first_repeated(names: Seq<Seq<char>>) -> int {
    choose|j: int|
        0 <= j < names.len() && repeated_at(names, j) && forall|i: int|
            0 <= i < j ==> !repeated_at(names, i)
}

/// What building a command group yields. Member shapes are checked first,
/// then that there is a member, then the group's annotations, then each
/// member's annotations, then that member names are distinct.
#[verifier::opaque]
pub open spec fn subcommand_spec(
    ident: Seq<char>,
    items: Seq<Annotation>,
    defs: Seq<VariantDef>,
) -> Result<SubcommandView, SchemaErrorView> {
    let vs = defs.map_values(|d: VariantDef| variant_spec(d));
    let names = vs.map_values(|v: VariantView| v.name());
    if exists|j: int| 0 <= j < defs.len() && !shape_ok(defs[j]) {
        Err(SchemaErrorView::UnsupportedMemberShape(defs[first_bad_shape(defs)].ident@))
    } else if defs.len() == 0 {
        Err(SchemaErrorView::EmptyGroup(ident))
    } else if parse_spec(items, about_key(), true) is Err {
        Err(SchemaErrorView::Attribute(parse_spec(items, about_key(), true)->Err_0))
    } else if exists|j: int| 0 <= j < defs.len() && member_parse(defs[j]) is Err {
        let j = first_bad_attrs(defs);
        Err(SchemaErrorView::MemberAttribute(defs[j].ident@, member_parse(defs[j])->Err_0))
    } else if exists|j: int| 0 <= j < names.len() && repeated_at(names, j) {
        Err(SchemaErrorView::DuplicateMemberName(names[first_repeated(names)]))
    } else {
        Ok(
            SubcommandView {
                ident,
                attrs: parse_spec(items, about_key(), true)->Ok_0,
                variants: vs,
            },
        )
    }
}

pub open spec fn schema_result_view<T: View>(r: Result<T, SchemaError>) -> Result<
    T::V,
    SchemaErrorView,
> {
    match r {
        Ok(t) => Ok(t@),
        Err(e) => Err(e@),
    }
}

/// The position of the first member whose shape is not a single field.
fn find_bad_shape(defs: &Vec<VariantDef>) -> (r: Option<usize>)
    ensures
        r is None ==> forall|i: int| 0 <= i < defs@.len() ==> shape_ok(#[trigger] defs@[i]),
        r is Some ==> r->Some_0 < defs@.len() && !shape_ok(defs@[r->Some_0 as int]),
        r is Some ==> r->Some_0 == first_bad_shape(defs@),
{
    let n = defs.len();
    let mut k: usize = 0;
    while k < n
        invariant
            0 <= k <= n,
            n == defs@.len(),
            forall|i: int| 0 <= i < k ==> shape_ok(#[trigger] defs@[i]),
        decreases n - k,
    {
        if defs[k].fields.payload_type().is_none() {
            proof {
                let j = first_bad_shape(defs@);
                assert(!shape_ok(defs@[k as int]));
                assert(j == k);
            }
            return Some(k);
        }
        k += 1;
    }
    None
}

/// The members of a group whose member shapes are all single fields, or the
/// position and error of the first member whose annotations are rejected.
fn build_variants(defs: &Vec<VariantDef>) -> (r: Result<Vec<SubcommandVariant>, (usize, AttrError)>)
    requires
        forall|i: int| 0 <= i < defs@.len() ==> shape_ok(#[trigger] defs@[i]),
    ensures
        r is Ok <==> forall|i: int| 0 <= i < defs@.len() ==> member_parse(#[trigger] defs@[i]) is Ok,
        r is Ok ==> r->Ok_0@.map_values(|v: SubcommandVariant| v@) == defs@.map_values(
            |d: VariantDef| variant_spec(d),
        ),
        r is Err ==> r->Err_0.0 < defs@.len(),
        r is Err ==> r->Err_0.0 == first_bad_attrs(defs@) && member_parse(defs@[r->Err_0.0 as int])
            == Err::<AttributesView, AttrErrorView>(r->Err_0.1@),
{
    let ghost ds = defs@;
    let n = defs.len();
    let mut variants: Vec<SubcommandVariant> = Vec::new();
    let mut k: usize = 0;
    while k < n
        invariant
            0 <= k <= n,
            n == ds.len(),
            ds == defs@,
            forall|i: int| 0 <= i < n ==> shape_ok(#[trigger] ds[i]),
            forall|i: int| 0 <= i < k ==> member_parse(#[trigger] ds[i]) is Ok,
            variants.len() == k,
            forall|i: int| 0 <= i < k ==> (#[trigger] variants@[i])@ == variant_spec(ds[i]),
        decreases n - k,
    {
        let d = &defs[k];
        let a = match VariantAttributes::new(&d.attrs) {
            Ok(a) => a,
            Err(e) => {
                proof {
                    let j = first_bad_attrs(ds);
                    assert(member_parse(ds[k as int]) is Err);
                    assert(j == k);
                }
                return Err((k, e));
            },
        };
        let ty = match d.fields.payload_type() {
            Some(t) => t,
            None => {
                proof {
                    assert(shape_ok(ds[k as int]));
                }
                return Err((k, AttrError::InvalidAttributeValue(d.ident.clone())));
            },
        };
        variants.push(SubcommandVariant { ident: d.ident.clone(), ty, attrs: a });
        k += 1;
    }
    assert(variants@.map_values(|v: SubcommandVariant| v@) =~= ds.map_values(
        |d: VariantDef| variant_spec(d),
    ));
    Ok(variants)
}

/// The subcommand names of the members, in order.
fn variant_names(variants: &Vec<SubcommandVariant>) -> (r: Vec<String>)
    ensures
        r.deep_view() == variants@.map_values(|v: SubcommandVariant| v@.name()),
{
    let n = variants.len();
    let mut names: Vec<String> = Vec::new();
    let mut k: usize = 0;
    while k < n
        invariant
            0 <= k <= n,
            n == variants.len(),
            names.len() == k,
            forall|i: int| 0 <= i < k ==> (#[trigger] names@[i])@ == variants@[i]@.name(),
        decreases n - k,
    {
        let v = &variants[k];
        names.push(v.attrs.attribute_name(&v.ident));
        k += 1;
    }
    assert(names.deep_view() =~= variants@.map_values(|v: SubcommandVariant| v@.name()));
    names
}

/// The position of the first name that repeats an earlier one.
fn find_repeated(names: &Vec<String>) -> (r: Option<usize>)
    ensures
        r is None ==> forall|j: int| 0 <= j < names@.len() ==> !repeated_at(names.deep_view(), j),
        r is Some ==> r->Some_0 < names@.len(),
        r is Some ==> repeated_at(names.deep_view(), r->Some_0 as int) && r->Some_0
            == first_repeated(names.deep_view()),
{
    let ghost nv = names.deep_view();
    let n = names.len();
    let mut j: usize = 0;
    while j < n
        invariant
            0 <= j <= n,
            n == names.len(),
            nv == names.deep_view(),
            forall|i: int| 0 <= i < j ==> !repeated_at(nv, i),
        decreases n - j,
    {
        let mut i: usize = 0;
        while i < j
            invariant
                0 <= i <= j < n,
                n == names.len(),
                nv == names.deep_view(),
                forall|l: int| 0 <= l < i ==> nv[l] != nv[j as int],
                forall|l: int| 0 <= l < j ==> !repeated_at(nv, l),
            decreases j - i,
        {
            if names[i] == names[j] {
                proof {
                    assert(nv[i as int] == nv[j as int]);
                    assert(repeated_at(nv, j as int));
                    let f = first_repeated(nv);
                    assert(f == j);
                }
                return Some(j);
            }
            i += 1;
        }
        j += 1;
    }
    None
}

impl Subcommand {
    /// Builds a command group from the union `ident`, its annotation items
    /// and its members.
    #[verifier::rlimit(100)]
    pub fn new(ident: &String, items: &Vec<Annotation>, defs: &Vec<VariantDef>) -> (r: Result<
        Subcommand,
        SchemaError,
    >)
        ensures
            schema_result_view(r) == subcommand_spec(ident@, items@, defs@),
            r is Ok ==> r->Ok_0@.wf(),
            (exists|j: int| 0 <= j < defs@.len() && !shape_ok(defs@[j])) ==> (r matches Err(
                SchemaError::UnsupportedMemberShape(_),
            )),
    {
        if let Some(k) = find_bad_shape(defs) {
            proof {
                reveal(subcommand_spec);
            }
            return Err(SchemaError::UnsupportedMemberShape(defs[k].ident.clone()));
        }
        if defs.len() == 0 {
            proof {
                reveal(subcommand_spec);
            }
            return Err(SchemaError::EmptyGroup(ident.clone()));
        }
        let attrs = match Attributes::new(items) {
            Ok(a) => a,
            Err(e) => {
                proof {
                    reveal(subcommand_spec);
                }
                return Err(SchemaError::Attribute(e));
            },
        };
        let variants = match build_variants(defs) {
            Ok(v) => v,
            Err((k, e)) => {
                proof {
                    reveal(subcommand_spec);
                }
                return Err(SchemaError::MemberAttribute(defs[k].ident.clone(), e));
            },
        };
        let names = variant_names(&variants);
        let ghost vview = variants@.map_values(|v: SubcommandVariant| v@);
        let ghost vs = defs@.map_values(|d: VariantDef| variant_spec(d));
        assert(vview == vs);
        assert(names.deep_view() =~= vs.map_values(|v: VariantView| v.name()));
        if let Some(j) = find_repeated(&names) {
            proof {
                reveal(subcommand_spec);
            }
            return Err(SchemaError::DuplicateMemberName(names[j].clone()));
        }
        let r = Subcommand { ident: ident.clone(), attrs, variants };
        proof {
            reveal(subcommand_spec);
            let nv = names.deep_view();
            assert forall|a: int, b: int| 0 <= a < b < vview.len() implies #[trigger] vview[a].name()
                != #[trigger] vview[b].name() by {
                assert(!repeated_at(nv, b));
                assert(nv[a] == vview[a].name());
            }
        }
        Ok(r)
    }
}

impl App {
    /// Builds a leaf command from the record `ident` and its annotation items.
    pub fn new(ident: &String, items: &Vec<Annotation>) -> (r: Result<App, AttrError>)
        ensures
            r is Ok <==> parse_spec(items@, about_key(), true) is Ok,
            r is Ok ==> r->Ok_0@ == (AppView {
                ident: ident@,
                attrs: parse_spec(items@, about_key(), true)->Ok_0,
            }),
            r is Err ==> parse_spec(items@, about_key(), true) == Err::<
                AttributesView,
                AttrErrorView,
            >(r->Err_0@),
    {
        let attrs = Attributes::new(items)?;
        Ok(App { ident: ident.clone(), attrs })
    }
}

/// What building a schema node from `def` yields: a record is a leaf, a
/// tagged union a group; a tuple record is refused.
pub open spec fn schema_spec(def: TypeDef) -> Result<SchemaNodeView, SchemaErrorView> {
    match def.body {
        Body::Struct(Fields::Tuple(_)) => Err(SchemaErrorView::UnsupportedTopLevelShape(def.ident@)),
        Body::Struct(_) => match parse_spec(def.attrs@, about_key(), true) {
            Ok(a) => Ok(SchemaNodeView::Leaf(AppView { ident: def.ident@, attrs: a })),
            Err(e) => Err(SchemaErrorView::Attribute(e)),
        },
        Body::Enum(vs) => match subcommand_spec(def.ident@, def.attrs@, vs@) {
            Ok(g) => Ok(SchemaNodeView::Group(g)),
            Err(e) => Err(e),
        },
    }
}

impl SchemaNode {
    /// Builds the schema node of a type definition.
    pub fn new(def: &TypeDef) -> (r: Result<SchemaNode, SchemaError>)
        ensures
            schema_result_view(r) == schema_spec(*def),
            r is Ok ==> r->Ok_0@.wf(),
    {
        match &def.body {
            Body::Struct(Fields::Tuple(_)) => Err(
                SchemaError::UnsupportedTopLevelShape(def.ident.clone()),
            ),
            Body::Struct(_) => match App::new(&def.ident, &def.attrs) {
                Ok(a) => Ok(SchemaNode::Leaf(a)),
                Err(e) => Err(SchemaError::Attribute(e)),
            },
            Body::Enum(vs) => match Subcommand::new(&def.ident, &def.attrs, vs) {
                Ok(g) => Ok(SchemaNode::Group(g)),
                Err(e) => Err(e),
            },
        }
    }

    pub fn ident(&self) -> (r: &String)
        ensures
            r@ == self@.ident(),
    {
        match self {
            SchemaNode::Leaf(a) => &a.ident,
            SchemaNode::Group(g) => &g.ident,
        }
    }

    pub fn attrs(&self) -> (r: &Attributes)
        ensures
            r@ == self@.attrs(),
    {
        match self {
            SchemaNode::Leaf(a) => &a.attrs,
            SchemaNode::Group(g) => &g.attrs,
        }
    }
}

} // verus!
