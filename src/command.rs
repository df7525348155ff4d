//! The parser-node model: what the build procedure hands to the argument
//! parser, and the value that the reconstruct procedure rebuilds.
use vstd::prelude::*;

verus! {

/// A parser node: a command with its description, settings and subcommands.
#[derive(Debug)]
pub struct CommandNode {
    pub name: String,
    pub about: Option<String>,
    pub settings: Vec<String>,
    pub subcommands: Vec<CommandNode>,
}

pub struct CommandView {
    pub name: Seq<char>,
    pub about: Option<Seq<char>>,
    pub settings: Seq<Seq<char>>,
    pub subcommands: Seq<CommandView>,
}

/// The view of a node, with the views of its subcommands in order.
pub open spec fn command_view(n: CommandNode) -> CommandView
    decreases n,
{
    CommandView {
        name: n.name@,
        about: n.about.deep_view(),
        settings: n.settings.deep_view(),
        subcommands: Seq::new(
            n.subcommands@.len(),
            |k: int|
                if 0 <= k < n.subcommands@.len() {
                    command_view(n.subcommands@[k])
                } else {
                    arbitrary()
                },
        ),
    }
}

impl View for CommandNode {
    type V = CommandView;

    open spec fn view(&self) -> CommandView {
        command_view(*self)
    }
}

impl CommandNode {
    /// A fresh parser node under `name`, with nothing else set.
    pub fn new(name: String) -> (r: CommandNode)
        ensures
            r@ == new_node(name@),
    {
        let r = CommandNode { name, about: None, settings: Vec::new(), subcommands: Vec::new() };
        assert(r@.subcommands =~= Seq::<CommandView>::empty());
        assert(r@.settings =~= Seq::<Seq<char>>::empty());
        r
    }
}

/// The view of a node, one level down.
pub proof fn lemma_command_view(n: CommandNode)
    ensures
        n@.name == n.name@,
        n@.about == n.about.deep_view(),
        n@.settings == n.settings.deep_view(),
        n@.subcommands.len() == n.subcommands@.len(),
        forall|k: int| 0 <= k < n.subcommands@.len() ==> #[trigger] n@.subcommands[k] == n.subcommands@[k]@,
{
}

pub open spec fn new_node(name: Seq<char>) -> CommandView {
    CommandView { name, about: None, settings: Seq::empty(), subcommands: Seq::empty() }
}

/// A reconstructed value: a record, or a member of a tagged union wrapping
/// the value of its payload type.
#[derive(Debug, PartialEq, Eq)]
pub enum Value {
    Record(String),
    Variant { ty: String, variant: String, payload: Box<Value> },
}

pub enum ValueView {
    Record(Seq<char>),
    Variant { ty: Seq<char>, variant: Seq<char>, payload: Box<ValueView> },
}

impl View for Value {
    type V = ValueView;

    open spec fn view(&self) -> ValueView
        decreases self,
    {
        match self {
            Value::Record(t) => ValueView::Record(t@),
            Value::Variant { ty, variant, payload } => ValueView::Variant {
                ty: ty@,
                variant: variant@,
                payload: Box::new((**payload).view()),
            },
        }
    }
}

/// The matched node named a subcommand that the group does not have, or
/// none: the parser tree and the reconstruct procedure disagree. Carries the
/// group's type.
#[derive(Debug, Clone, PartialEq, Eq)]
pub enum DispatchError {
    UnreachableDispatch(String),
}

pub enum DispatchErrorView {
    UnreachableDispatch(Seq<char>),
}

impl View for DispatchError {
    type V = DispatchErrorView;

    open spec fn view(&self) -> DispatchErrorView {
        match self {
            DispatchError::UnreachableDispatch(t) => DispatchErrorView::UnreachableDispatch(t@),
        }
    }
}

} // verus!
