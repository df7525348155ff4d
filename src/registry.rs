//! The registry of compiled types and the two procedures generated for each:
//! building its parser node, and rebuilding its value from a matched node.
//!
//! A group reaches the types that its members wrap only through the
//! registry, by position, so building and rebuilding never look inside
//! another type's schema node; both read a member's name from the same
//! resolution, which keeps them synchronized.
use vstd::prelude::*;
use crate::attr::{member_about, resolved_about, resolved_name, Package, PackageView};
use crate::command::{
    lemma_command_view, new_node, CommandNode, CommandView, DispatchError, DispatchErrorView, Value, ValueView,
};
use crate::schema::{
    schema_spec, SchemaError, SchemaErrorView, SchemaNode, SchemaNodeView,
    SubcommandView, TypeDef, VariantView,
};

verus! {

pub struct EntryView {
    pub node: SchemaNodeView,
    /// For a group, the position of the type that each member wraps.
    pub children: Seq<int>,
}

pub struct RegistryView {
    pub entries: Seq<EntryView>,
}

/// The fresh node made for a member before its payload type extends it.
pub open spec fn member_node(v: VariantView) -> CommandView {
    CommandView {
        name: v.name(),
        about: Some(member_about(v.attrs, v.ident)),
        settings: Seq::empty(),
        subcommands: Seq::empty(),
    }
}

impl RegistryView {
    pub open spec fn len(self) -> int {
        self.entries.len() as int
    }

    pub open spec fn has_type(self, ty: Seq<char>) -> bool {
        exists|j: int| 0 <= j < self.len() && self.entries[j].node.ident() == ty
    }

    /// The position of the type `ty` (meaningful where it is registered).
    pub open spec fn index_of(self, ty: Seq<char>) -> int {
        choose|j: int| 0 <= j < self.len() && self.entries[j].node.ident() == ty
    }

    /// Entry `i` is well formed: its node is, its type is not registered
    /// before it, and each member of a group wraps a type registered before it.
    pub open spec fn entry_wf(self, i: int) -> bool {
        let e = self.entries[i];
        &&& e.node.wf()
        &&& forall|j: int| 0 <= j < i ==> self.entries[j].node.ident() != e.node.ident()
        &&& match e.node {
            SchemaNodeView::Leaf(_) => e.children.len() == 0,
            SchemaNodeView::Group(g) => {
                &&& e.children.len() == g.variants.len()
                &&& forall|k: int|
                    0 <= k < e.children.len() ==> 0 <= #[trigger] e.children[k] < i
                        && self.entries[e.children[k]].node.ident() == g.variants[k].ty
            },
        }
    }

    pub open spec fn wf(self) -> bool {
        forall|i: int| 0 <= i < self.len() ==> self.entry_wf(i)
    }

    /// What extending `node` with entry `i` yields: its description, then its
    /// settings in order, then for a group one subcommand per member, in
    /// order, each made fresh for the member and extended by the member's
    /// payload type.
    pub open spec fn append_spec(self, i: int, node: CommandView, package: PackageView) -> CommandView
        decreases i,
    {
        if 0 <= i < self.len() {
            let e = self.entries[i];
            let about = Some(resolved_about(e.node.attrs(), package));
            let settings = node.settings + e.node.attrs().settings;
            match e.node {
                SchemaNodeView::Leaf(_) => CommandView {
                    name: node.name,
                    about,
                    settings,
                    subcommands: node.subcommands,
                },
                SchemaNodeView::Group(g) => CommandView {
                    name: node.name,
                    about,
                    settings,
                    subcommands: node.subcommands + Seq::new(
                        g.variants.len(),
                        |k: int|
                            if 0 <= e.children[k] < i {
                                self.append_spec(e.children[k], member_node(g.variants[k]), package)
                            } else {
                                member_node(g.variants[k])
                            },
                    ),
                },
            }
        } else {
            node
        }
    }

    /// What rebuilding entry `i` from the names of the selected subcommands
    /// yields, outermost first. A record ignores them; a group takes the
    /// member whose name comes first, rebuilds that member's payload type
    /// from the rest, and wraps it. A group with no name to read, or a name
    /// none of its members has, cannot dispatch.
    pub open spec fn reconstruct_spec(self, i: int, path: Seq<Seq<char>>) -> Result<
        ValueView,
        DispatchErrorView,
    >
        decreases i,
    {
        if 0 <= i < self.len() {
            let e = self.entries[i];
            match e.node {
                SchemaNodeView::Leaf(a) => Ok(ValueView::Record(a.ident)),
                SchemaNodeView::Group(g) => {
                    if path.len() > 0 && exists|k: int|
                        0 <= k < g.variants.len() && g.variants[k].name() == path[0] {
                        let k = choose|k: int|
                            0 <= k < g.variants.len() && g.variants[k].name() == path[0];
                        let c = e.children[k];
                        if 0 <= c < i {
                            match self.reconstruct_spec(c, path.drop_first()) {
                                Ok(v) => Ok(
                                    ValueView::Variant {
                                        ty: g.ident,
                                        variant: g.variants[k].ident,
                                        payload: Box::new(v),
                                    },
                                ),
                                Err(err) => Err(err),
                            }
                        } else {
                            Err(DispatchErrorView::UnreachableDispatch(g.ident))
                        }
                    } else {
                        Err(DispatchErrorView::UnreachableDispatch(g.ident))
                    }
                },
            }
        } else {
            Err(DispatchErrorView::UnreachableDispatch(Seq::empty()))
        }
    }

    /// The root parser node of entry `i`: a node under its name, extended.
    pub open spec fn app_spec(self, i: int, package: PackageView) -> CommandView {
        self.append_spec(
            i,
            new_node(resolved_name(self.entries[i].node.attrs(), package)),
            package,
        )
    }
}

/// Extending a node keeps its name.
pub proof fn lemma_append_keeps_name(reg: RegistryView, i: int, node: CommandView, package: PackageView)
    ensures
        reg.append_spec(i, node, package).name == node.name,
{
}

/// Building and rebuilding agree: the subcommand that a group's parser node
/// holds for member `k` is named with the member's name, and rebuilding from
/// that name selects member `k`, wrapping what the member's payload type
/// rebuilds from the names that follow.
pub proof fn lemma_round_trip(
    reg: RegistryView,
    i: int,
    k: int,
    package: PackageView,
    rest: Seq<Seq<char>>,
)
    requires
        reg.wf(),
        0 <= i < reg.len(),
        reg.entries[i].node is Group,
        0 <= k < reg.entries[i].node->Group_0.variants.len(),
    ensures
        ({
            let g = reg.entries[i].node->Group_0;
            let name = reg.app_spec(i, package).subcommands[k].name;
            &&& reg.app_spec(i, package).subcommands.len() == g.variants.len()
            &&& name == g.variants[k].name()
            &&& reg.reconstruct_spec(i, seq![name] + rest) == match reg.reconstruct_spec(
                reg.entries[i].children[k],
                rest,
            ) {
                Ok(v) => Ok(
                    ValueView::Variant { ty: g.ident, variant: g.variants[k].ident, payload: Box::new(v) },
                ),
                Err(e) => Err(e),
            }
        }),
{
    let e = reg.entries[i];
    let g = e.node->Group_0;
    assert(reg.entry_wf(i));
    let c = e.children[k];
    assert(0 <= c < i);
    let app = reg.app_spec(i, package);
    assert(app.subcommands[k] == reg.append_spec(c, member_node(g.variants[k]), package));
    lemma_append_keeps_name(reg, c, member_node(g.variants[k]), package);
    let name = app.subcommands[k].name;
    let path = seq![name] + rest;
    assert(path[0] == name);
    assert(path.drop_first() =~= rest);
    let kk = choose|kk: int| 0 <= kk < g.variants.len() && g.variants[kk].name() == path[0];
    assert(g.wf());
    if kk < k {
        assert(g.variants[kk].name() != g.variants[k].name());
    } else if kk > k {
        assert(g.variants[k].name() != g.variants[kk].name());
    }
}

/// Generation depends on the schema nodes alone: two registries that agree
/// on the entries up to `i` build the same parser node for `i` (names,
/// descriptions, settings and subcommand order) and rebuild the same values.
pub proof fn lemma_generate_deterministic(
    r1: RegistryView,
    r2: RegistryView,
    i: int,
    node: CommandView,
    package: PackageView,
    path: Seq<Seq<char>>,
)
    requires
        r1.wf(),
        0 <= i < r1.len(),
        i < r2.len(),
        forall|j: int| 0 <= j <= i ==> r1.entries[j] == r2.entries[j],
    ensures
        r1.append_spec(i, node, package) == r2.append_spec(i, node, package),
        r1.app_spec(i, package) == r2.app_spec(i, package),
        r1.reconstruct_spec(i, path) == r2.reconstruct_spec(i, path),
    decreases i,
{
    let e = r1.entries[i];
    assert(r1.entry_wf(i));
    assert(r2.entries[i] == e);
    if let SchemaNodeView::Group(g) = e.node {
        assert forall|k: int| 0 <= k < g.variants.len() implies r1.append_spec(
            e.children[k],
            member_node(g.variants[k]),
            package,
        ) == r2.append_spec(e.children[k], member_node(g.variants[k]), package) by {
            lemma_generate_deterministic(
                r1,
                r2,
                e.children[k],
                member_node(g.variants[k]),
                package,
                path,
            );
        }
        let a1 = r1.append_spec(i, node, package);
        let a2 = r2.append_spec(i, node, package);
        assert(a1.subcommands =~= a2.subcommands);
        let n0 = new_node(resolved_name(e.node.attrs(), package));
        let b1 = r1.append_spec(i, n0, package);
        let b2 = r2.append_spec(i, n0, package);
        assert(b1.subcommands =~= b2.subcommands);
        if path.len() > 0 && exists|k: int|
            0 <= k < g.variants.len() && g.variants[k].name() == path[0] {
            let k = choose|k: int| 0 <= k < g.variants.len() && g.variants[k].name() == path[0];
            lemma_generate_deterministic(
                r1,
                r2,
                e.children[k],
                node,
                package,
                path.drop_first(),
            );
        }
    }
}

pub open spec fn first_unresolved(reg: RegistryView, g: SubcommandView) -> int {
    choose|k: int|
        0 <= k < g.variants.len() && !reg.has_type(g.variants[k].ty) && forall|j: int|
            0 <= j < k ==> reg.has_type(#[trigger] g.variants[j].ty)
}

/// What registering `node` does to `reg`: its type must be new, and each type
/// that a member wraps must be registered already (the first one that is not
/// is reported). The new entry comes last.
pub open spec fn register_spec(reg: RegistryView, node: SchemaNodeView) -> Result<
    RegistryView,
    SchemaErrorView,
> {
    if reg.has_type(node.ident()) {
        Err(SchemaErrorView::DuplicateType(node.ident()))
    } else {
        match node {
            SchemaNodeView::Leaf(_) => Ok(
                RegistryView { entries: reg.entries.push(EntryView { node, children: Seq::empty() }) },
            ),
            SchemaNodeView::Group(g) => {
                if exists|k: int| 0 <= k < g.variants.len() && !reg.has_type(g.variants[k].ty) {
                    Err(
                        SchemaErrorView::UnknownPayloadType(
                            g.variants[first_unresolved(reg, g)].ty,
                        ),
                    )
                } else {
                    Ok(
                        RegistryView {
                            entries: reg.entries.push(
                                EntryView {
                                    node,
                                    children: Seq::new(
                                        g.variants.len(),
                                        |k: int| reg.index_of(g.variants[k].ty),
                                    ),
                                },
                            ),
                        },
                    )
                }
            },
        }
    }
}

pub open spec fn value_result_view(r: Result<Value, DispatchError>) -> Result<
    ValueView,
    DispatchErrorView,
> {
    match r {
        Ok(v) => Ok(v@),
        Err(e) => Err(e@),
    }
}

struct Entry {
    node: SchemaNode,
    children: Vec<usize>,
}

impl View for Entry {
    type V = EntryView;

    closed spec fn view(&self) -> EntryView {
        EntryView { node: self.node@, children: self.children@.map_values(|c: usize| c as int) }
    }
}

/// The compiled types, each registered after the types its members wrap.
pub struct Registry {
    entries: Vec<Entry>,
}

impl View for Registry {
    type V = RegistryView;

    closed spec fn view(&self) -> RegistryView {
        RegistryView { entries: self.entries@.map_values(|e: Entry| e@) }
    }
}

impl Registry {
    #[verifier::type_invariant]
    spec fn inv(self) -> bool {
        self@.wf()
    }

    /// An empty registry.
    pub fn new() -> (r: Registry)
        ensures
            r@.len() == 0,
            r@.wf(),
    {
        let r = Registry { entries: Vec::new() };
        assert(r@.entries =~= Seq::<EntryView>::empty());
        r
    }

    pub fn len(&self) -> (r: usize)
        ensures
            r == self@.len(),
    {
        self.entries.len()
    }

    /// The schema node of entry `i`.
    pub fn node(&self, i: usize) -> (r: &SchemaNode)
        requires
            i < self@.len(),
        ensures
            r@ == self@.entries[i as int].node,
    {
        &self.entries[i].node
    }

    /// Extends `node` with the description, settings and subcommands of the
    /// type at `i`.
    pub fn append(&self, i: usize, node: CommandNode, package: &Package) -> (r: CommandNode)
        requires
            i < self@.len(),
        ensures
            r@ == self@.append_spec(i as int, node@, package@),
        decreases i,
    {
        proof {
            use_type_invariant(self);
        }
        let ghost reg = self@;
        let e = &self.entries[i];
        assert(e@ == reg.entries[i as int]);
        assert(reg.entry_wf(i as int));
        let attrs = e.node.attrs();
        let ghost node0 = node@;
        let mut node = node;
        node.about = Some(attrs.attribute_about(package));
        let ns = attrs.settings.len();
        let mut k: usize = 0;
        while k < ns
            invariant
                0 <= k <= ns,
                ns == attrs@.settings.len(),
                node@.name == node0.name,
                node@.about == Some(resolved_about(attrs@, package@)),
                node@.subcommands == node0.subcommands,
                node@.settings == node0.settings + attrs@.settings.take(k as int),
            decreases ns - k,
        {
            let ghost before = node.settings.deep_view();
            node.settings.push(attrs.settings[k].clone());
            proof {
                assert(node@.settings == node.settings.deep_view());
                assert(node.settings.deep_view() =~= before.push(attrs@.settings[k as int]));
                assert(node@.settings =~= node0.settings + attrs@.settings.take(k + 1));
            }
            k += 1;
        }
        assert(attrs@.settings.take(ns as int) =~= attrs@.settings);
        match &e.node {
            SchemaNode::Leaf(_) => node,
            SchemaNode::Group(g) => {
                let ghost gv = g@;
                let ghost children = e@.children;
                let ghost base = node@;
                let n = g.variants.len();
                let mut k: usize = 0;
                while k < n
                    invariant
                        0 <= k <= n,
                        n == gv.variants.len(),
                        gv == g@,
                        reg == self@,
                        i < reg.len(),
                        e@ == reg.entries[i as int],
                        e.node@ == SchemaNodeView::Group(gv),
                        children == e@.children,
                        reg.entry_wf(i as int),
                        node@.name == base.name,
                        node@.about == base.about,
                        node@.settings == base.settings,
                        node@.subcommands == base.subcommands + Seq::new(
                            k as nat,
                            |j: int|
                                reg.append_spec(
                                    children[j],
                                    member_node(gv.variants[j]),
                                    package@,
                                ),
                        ),
                    decreases n - k,
                {
                    let v = &g.variants[k];
                    assert(v@ == gv.variants[k as int]);
                    let child = CommandNode {
                        name: v.attrs.attribute_name(&v.ident),
                        about: Some(v.attrs.attribute_about(&v.ident)),
                        settings: Vec::new(),
                        subcommands: Vec::new(),
                    };
                    assert(child@.settings =~= Seq::<Seq<char>>::empty());
                    assert(child@.subcommands =~= Seq::<CommandView>::empty());
                    assert(child@ == member_node(v@));
                    let c = e.children[k];
                    assert(children[k as int] == c as int);
                    let child = self.append(c, child, package);
                    let ghost subs0 = node@.subcommands;
                    let ghost child_view = child@;
                    proof {
                        lemma_command_view(node);
                    }
                    node.subcommands.push(child);
                    proof {
                        lemma_command_view(node);
                        assert(node@.subcommands =~= subs0.push(child_view));
                        assert(node@.subcommands =~= base.subcommands + Seq::new(
                            (k + 1) as nat,
                            |j: int|
                                reg.append_spec(
                                    children[j],
                                    member_node(gv.variants[j]),
                                    package@,
                                ),
                        ));
                    }
                    k += 1;
                }
                proof {
                    assert(node@.subcommands =~= base.subcommands + Seq::new(
                        gv.variants.len(),
                        |j: int|
                            if 0 <= children[j] < i {
                                reg.append_spec(
                                    children[j],
                                    member_node(gv.variants[j]),
                                    package@,
                                )
                            } else {
                                member_node(gv.variants[j])
                            },
                    ));
                    let expected = reg.append_spec(i as int, node0, package@);
                    assert(expected.subcommands =~= node@.subcommands);
                    assert(expected.name == node@.name);
                    assert(expected.about == node@.about);
                    assert(expected.settings == node@.settings);
                }
                node
            },
        }
    }

    /// The root parser node of the type at `i`: a node under the type's name,
    /// extended with its description, settings and subcommands.
    pub fn app(&self, i: usize, package: &Package) -> (r: CommandNode)
        requires
            i < self@.len(),
        ensures
            r@ == self@.app_spec(i as int, package@),
    {
        let attrs = self.entries[i].node.attrs();
        let node = CommandNode::new(attrs.attribute_name(package));
        self.append(i, node, package)
    }

    fn reconstruct_at(&self, i: usize, path: &Vec<String>, pos: usize) -> (r: Result<
        Value,
        DispatchError,
    >)
        requires
            i < self@.len(),
            pos <= path@.len(),
        ensures
            value_result_view(r) == self@.reconstruct_spec(
                i as int,
                path.deep_view().skip(pos as int),
            ),
        decreases i,
    {
        proof {
            use_type_invariant(self);
        }
        let ghost reg = self@;
        let ghost rest = path.deep_view().skip(pos as int);
        let e = &self.entries[i];
        assert(e@ == reg.entries[i as int]);
        assert(reg.entry_wf(i as int));
        match &e.node {
            SchemaNode::Leaf(a) => Ok(Value::Record(a.ident.clone())),
            SchemaNode::Group(g) => {
                let ghost gv = g@;
                let plen = path.len();
                if pos >= plen {
                    return Err(DispatchError::UnreachableDispatch(g.ident.clone()));
                }
                let sel = &path[pos];
                assert(rest[0] == sel@);
                assert(gv.wf());
                let n = g.variants.len();
                let mut k: usize = 0;
                while k < n
                    invariant
                        0 <= k <= n,
                        n == gv.variants.len(),
                        gv == g@,
                        gv.wf(),
                        rest[0] == sel@,
                        rest == path.deep_view().skip(pos as int),
                        pos < plen,
                        plen == path@.len(),
                        reg == self@,
                        i < reg.len(),
                        e@ == reg.entries[i as int],
                        e.node@ == SchemaNodeView::Group(gv),
                        reg.entry_wf(i as int),
                        forall|j: int| 0 <= j < k ==> gv.variants[j].name() != sel@,
                    decreases n - k,
                {
                    let v = &g.variants[k];
                    assert(v@ == gv.variants[k as int]);
                    let name = v.attrs.attribute_name(&v.ident);
                    if name == *sel {
                        proof {
                            assert(gv.wf());
                            let kk = choose|kk: int|
                                0 <= kk < gv.variants.len() && gv.variants[kk].name() == rest[0];
                            assert(gv.variants[k as int].name() == rest[0]);
                            if kk < k {
                                assert(gv.variants[kk].name() != gv.variants[k as int].name());
                            } else if kk > k {
                                assert(gv.variants[k as int].name() != gv.variants[kk].name());
                            }
                            assert(kk == k);
                            assert(rest.drop_first() =~= path.deep_view().skip(pos + 1));
                        }
                        let c = e.children[k];
                        assert(e@.children[k as int] == c as int);
                        match self.reconstruct_at(c, path, pos + 1) {
                            Ok(payload) => {
                                return Ok(
                                    Value::Variant {
                                        ty: g.ident.clone(),
                                        variant: v.ident.clone(),
                                        payload: Box::new(payload),
                                    },
                                );
                            },
                            Err(err) => {
                                return Err(err);
                            },
                        }
                    }
                    k += 1;
                }
                Err(DispatchError::UnreachableDispatch(g.ident.clone()))
            },
        }
    }

    /// Rebuilds the value of the type at `i` from the names of the selected
    /// subcommands, outermost first. An `UnreachableDispatch` error means the
    /// names do not follow the parser tree built for this type; callers must
    /// treat it as fatal, never as a user input error.
    pub fn reconstruct(&self, i: usize, path: &Vec<String>) -> (r: Result<Value, DispatchError>)
        requires
            i < self@.len(),
        ensures
            value_result_view(r) == self@.reconstruct_spec(i as int, path.deep_view()),
    {
        assert(path.deep_view().skip(0) =~= path.deep_view());
        self.reconstruct_at(i, path, 0)
    }

    /// The position of the type `ty`, if it is registered.
    pub fn position(&self, ty: &String) -> (r: Option<usize>)
        ensures
            r is Some <==> self@.has_type(ty@),
            r is Some ==> r->Some_0 < self@.len() && r->Some_0 == self@.index_of(ty@),
    {
        proof {
            use_type_invariant(self);
        }
        let ghost reg = self@;
        let n = self.entries.len();
        let mut j: usize = 0;
        while j < n
            invariant
                0 <= j <= n,
                n == reg.len(),
                reg == self@,
                reg.wf(),
                forall|l: int| 0 <= l < j ==> reg.entries[l].node.ident() != ty@,
            decreases n - j,
        {
            assert(self.entries@[j as int]@ == reg.entries[j as int]);
            if *self.entries[j].node.ident() == *ty {
                proof {
                    let jj = reg.index_of(ty@);
                    assert(reg.entries[j as int].node.ident() == ty@);
                    if jj > j {
                        assert(reg.entry_wf(jj));
                    }
                    assert(jj == j);
                }
                return Some(j);
            }
            j += 1;
        }
        None
    }

    /// Registers a schema node after the types its members wrap, and gives
    /// its position.
    pub fn register(&mut self, node: SchemaNode) -> (r: Result<usize, SchemaError>)
        requires
            node@.wf(),
        ensures
            match register_spec(old(self)@, node@) {
                Ok(reg) => r == Ok::<usize, SchemaError>(old(self)@.len() as usize) && final(self)@
                    == reg,
                Err(e) => r is Err && r->Err_0@ == e && final(self)@ == old(self)@,
            },
            final(self)@.wf(),
    {
        proof {
            use_type_invariant(&*self);
        }
        let ghost reg = self@;
        if self.position(node.ident()).is_some() {
            proof {
                use_type_invariant(&*self);
            }
            return Err(SchemaError::DuplicateType(node.ident().clone()));
        }
        let mut children: Vec<usize> = Vec::new();
        if let SchemaNode::Group(g) = &node {
            let ghost gv = g@;
            let n = g.variants.len();
            let mut k: usize = 0;
            while k < n
                invariant
                    0 <= k <= n,
                    n == gv.variants.len(),
                    gv == g@,
                    reg == self@,
                    reg.wf(),
                    !reg.has_type(node@.ident()),
                    node@ == SchemaNodeView::Group(gv),
                    children.len() == k,
                    forall|j: int| 0 <= j < k ==> reg.has_type(#[trigger] gv.variants[j].ty),
                    forall|j: int|
                        0 <= j < k ==> #[trigger] children@[j] as int == reg.index_of(
                            gv.variants[j].ty,
                        ) && children@[j] < reg.len(),
                decreases n - k,
            {
                let v = &g.variants[k];
                assert(v@ == gv.variants[k as int]);
                match self.position(&v.ty) {
                    Some(p) => {
                        children.push(p);
                    },
                    None => {
                        proof {
                            let f = first_unresolved(reg, gv);
                            assert(!reg.has_type(gv.variants[k as int].ty));
                            assert(f == k);
                        }
                        return Err(SchemaError::UnknownPayloadType(v.ty.clone()));
                    },
                }
                k += 1;
            }
        }
        let i = self.entries.len();
        let entry = Entry { node, children };
        let ghost ev = entry@;
        proof {
            match node@ {
                SchemaNodeView::Leaf(_) => {
                    assert(ev.children =~= Seq::<int>::empty());
                },
                SchemaNodeView::Group(g) => {
                    assert(ev.children =~= Seq::new(
                        g.variants.len(),
                        |k: int| reg.index_of(g.variants[k].ty),
                    ));
                },
            }
        }
        let mut taken = Registry::new();
        core::mem::swap(self, &mut taken);
        assert(taken@ == reg);
        let Registry { mut entries } = taken;
        entries.push(entry);
        let ghost new_reg = RegistryView { entries: entries@.map_values(|e: Entry| e@) };
        proof {
            assert(new_reg.entries =~= reg.entries.push(ev));
            assert forall|j: int| 0 <= j < new_reg.len() implies new_reg.entry_wf(j) by {
                if j < reg.len() {
                    assert(reg.entry_wf(j));
                } else {
                    match ev.node {
                        SchemaNodeView::Leaf(_) => {},
                        SchemaNodeView::Group(g) => {
                            assert forall|k: int| 0 <= k < ev.children.len() implies 0
                                <= #[trigger] ev.children[k] < j && new_reg.entries[ev.children[k]].node.ident()
                                == g.variants[k].ty by {
                                assert(reg.has_type(g.variants[k].ty));
                            }
                        },
                    }
                }
            }
        }
        *self = Registry { entries };
        Ok(i)
    }

    /// Compiles a type definition: builds its schema node and registers it.
    /// On an error nothing is registered, and callers must treat the error as
    /// a fatal compilation failure.
    pub fn derive_clap_app(&mut self, def: &TypeDef) -> (r: Result<usize, SchemaError>)
        ensures
            match schema_spec(*def) {
                Err(e) => r is Err && r->Err_0@ == e && final(self)@ == old(self)@,
                Ok(node) => match register_spec(old(self)@, node) {
                    Ok(reg) => r == Ok::<usize, SchemaError>(old(self)@.len() as usize)
                        && final(self)@ == reg,
                    Err(e) => r is Err && r->Err_0@ == e && final(self)@ == old(self)@,
                },
            },
    {
        let node = match SchemaNode::new(def) {
            Ok(n) => n,
            Err(e) => {
                return Err(e);
            },
        };
        self.register(node)
    }
}

} // verus!
