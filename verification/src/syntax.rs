//! The syntax tree: tagged nodes with ordered children and typed attributes.

use vstd::prelude::*;
use crate::views::{views, lemma_views_concat};

verus! {

/// The grammar symbol that a node stands for.
#[allow(non_camel_case_types)]
#[derive(PartialEq, Eq, Structural, Clone, Copy, Debug)]
pub enum NodeType {
    Program_Start,
    Func_Decl,
    Other_Decl,
    Arguments,
    Primitive,
    Identifier,
    Body,
    Assign_Expr,
    Expression,
    Optional_Expr,
    Condition_Expr,
    Arith_Expr,
    Arith_Subexpr,
    Arith_Term,
    Arith_Subterm,
    Arith_Factor,
    Or_Expr,
    Or_Subexpr,
    And_Expr,
    And_Subexpr,
    Equality_Expr,
    Equality_Subexpr,
    Relational_Expr,
    Relational_Subexpr,
    Not_Expr,
    Func_Call,
    Call_Args,
    Statement,
    If_Stmt,
    Elif_Stmt,
    Else_Stmt,
    While_Stmt,
    For_Stmt,
    Return_Stmt,
    VarDecl,
    Keyword,
    Constant,
    Operator,
    Separator,
}

/// The attributes that a node can carry. An attribute that is not set is
/// `None`, or `false` for `unary`.
///
/// `value` is the text of a terminal; `terminal` the leftmost operand that an
/// expression reduces to; `operator` the infix operator of an expression
/// tail; `identifier` the name that an assignment, a declaration or a call is
/// about; `unary` whether an operand is negated; `arguments` the number of
/// arguments of a call; `var_alloc` the number of declarations of a body.
#[derive(Clone, Debug)]
pub struct Properties {
    pub value: Option<String>,
    pub terminal: Option<String>,
    pub operator: Option<String>,
    pub identifier: Option<String>,
    pub unary: bool,
    pub arguments: Option<u32>,
    pub var_alloc: Option<u64>,
}

/// The mathematical value of [`Properties`].
pub struct PropertiesModel {
    pub value: Option<Seq<char>>,
    pub terminal: Option<Seq<char>>,
    pub operator: Option<Seq<char>>,
    pub identifier: Option<Seq<char>>,
    pub unary: bool,
    pub arguments: Option<u32>,
    pub var_alloc: Option<u64>,
}

/// The characters of an optional string.
pub open spec fn text_view(text: Option<String>) -> Option<Seq<char>> {
    match text {
        Some(s) => Some(s@),
        None => None,
    }
}

/// The characters of an optional text, or no characters where it is absent.
pub open spec fn text_of(text: Option<Seq<char>>) -> Seq<char> {
    match text {
        Some(s) => s,
        None => Seq::empty(),
    }
}

impl View for Properties {
    type V = PropertiesModel;

    open spec fn view(&self) -> PropertiesModel {
        PropertiesModel {
            value: text_view(self.value),
            terminal: text_view(self.terminal),
            operator: text_view(self.operator),
            identifier: text_view(self.identifier),
            unary: self.unary,
            arguments: self.arguments,
            var_alloc: self.var_alloc,
        }
    }
}

/// No attribute set.
pub open spec fn no_properties() -> PropertiesModel {
    PropertiesModel {
        value: None,
        terminal: None,
        operator: None,
        identifier: None,
        unary: false,
        arguments: None,
        var_alloc: None,
    }
}

/// `added` where it is set, `base` where it is not.
pub open spec fn later<T>(base: Option<T>, added: Option<T>) -> Option<T> {
    if added is Some {
        added
    } else {
        base
    }
}

/// The attributes of `base` with those of `added` written over them.
pub open spec fn overlay(base: PropertiesModel, added: PropertiesModel) -> PropertiesModel {
    PropertiesModel {
        value: later(base.value, added.value),
        terminal: later(base.terminal, added.terminal),
        operator: later(base.operator, added.operator),
        identifier: later(base.identifier, added.identifier),
        unary: base.unary || added.unary,
        arguments: later(base.arguments, added.arguments),
        var_alloc: later(base.var_alloc, added.var_alloc),
    }
}

/// A copy of an optional string.
pub fn copy_text(text: &Option<String>) -> (r: Option<String>)
    ensures
        text_view(r) == text_view(*text),
{
    match text {
        Some(s) => Some(s.clone()),
        None => None,
    }
}

/// The characters of an optional string as an owned string; the empty string
/// where it is absent.
pub fn text_or_empty(text: &Option<String>) -> (r: String)
    ensures
        r@ == text_of(text_view(*text)),
{
    match text {
        Some(s) => s.clone(),
        None => String::new(),
    }
}

impl Properties {
    /// No attribute set.
    pub fn new() -> (p: Properties)
        ensures
            p@ == no_properties(),
    {
        Properties {
            value: None,
            terminal: None,
            operator: None,
            identifier: None,
            unary: false,
            arguments: None,
            var_alloc: None,
        }
    }

    /// Writes the attributes that `added` has set over those of `self`.
    pub fn absorb(&mut self, added: Properties)
        ensures
            final(self)@ == overlay(old(self)@, added@),
    {
        if added.value.is_some() {
            self.value = added.value;
        }
        if added.terminal.is_some() {
            self.terminal = added.terminal;
        }
        if added.operator.is_some() {
            self.operator = added.operator;
        }
        if added.identifier.is_some() {
            self.identifier = added.identifier;
        }
        if added.unary {
            self.unary = true;
        }
        if added.arguments.is_some() {
            self.arguments = added.arguments;
        }
        if added.var_alloc.is_some() {
            self.var_alloc = added.var_alloc;
        }
    }
}

/// A node of the syntax tree. It owns its children.
#[derive(Debug)]
pub struct Node {
    pub node_type: NodeType,
    pub children: Vec<Node>,
    pub properties: Properties,
}

/// The mathematical value of a [`Node`].
pub struct NodeModel {
    pub kind: NodeType,
    pub children: Seq<NodeModel>,
    pub properties: PropertiesModel,
}

impl Node {
    /// The value of the node: its type, the values of its children in
    /// order, and its attributes.
    pub open spec fn model(&self) -> NodeModel
        decreases self,
    {
        NodeModel {
            kind: self.node_type,
            children: Seq::new(
                self.children@.len(),
                |i: int|
                    if 0 <= i < self.children@.len() {
                        self.children@[i].model()
                    } else {
                        arbitrary()
                    },
            ),
            properties: self.properties@,
        }
    }
}

impl View for Node {
    type V = NodeModel;

    open spec fn view(&self) -> NodeModel {
        self.model()
    }
}

/// The children of a node's value are the values of its children.
pub proof fn lemma_children(node: Node)
    ensures
        node@.children == views(node.children@),
        node@.kind == node.node_type,
        node@.properties == node.properties@,
{
    assert(node@.children =~= views(node.children@));
}

/// What one production contributes to the node it fills: the children it
/// appends and the attributes it sets.
pub struct Production {
    pub children: Seq<NodeModel>,
    pub properties: PropertiesModel,
}

/// A production that appends `children` and sets no attribute.
pub open spec fn plain(children: Seq<NodeModel>) -> Production {
    Production { children: children, properties: no_properties() }
}

/// A node of type `kind` without children or attributes.
pub open spec fn empty_node(kind: NodeType) -> NodeModel {
    NodeModel { kind: kind, children: Seq::empty(), properties: no_properties() }
}

/// The node after a production has filled it: the new children follow those
/// it had, and the new attributes are written over those it had.
pub open spec fn apply(base: NodeModel, p: Production) -> NodeModel {
    NodeModel {
        kind: base.kind,
        children: base.children + p.children,
        properties: overlay(base.properties, p.properties),
    }
}

/// A fresh node of type `kind` filled by `p`.
pub open spec fn filled(kind: NodeType, p: Production) -> NodeModel {
    apply(empty_node(kind), p)
}

/// Creates a node of type `n_type` without children or attributes.
pub fn create_node(n_type: NodeType) -> (node: Node)
    ensures
        node@ == empty_node(n_type),
        node.node_type == n_type,
{
    let node = Node { node_type: n_type, children: Vec::new(), properties: Properties::new() };
    proof {
        lemma_children(node);
        assert(node@.children =~= Seq::empty());
    }
    node
}

/// Appends `children` to `node` and writes the attributes that `properties`
/// has set over those of `node`.
pub fn commit(node: &mut Node, children: Vec<Node>, properties: Properties)
    ensures
        final(node)@ == apply(
            old(node)@,
            Production { children: views(children@), properties: properties@ },
        ),
{
    let mut children = children;
    proof {
        lemma_children(*node);
        lemma_views_concat(node.children@, children@);
    }
    node.children.append(&mut children);
    node.properties.absorb(properties);
    proof {
        lemma_children(*node);
    }
}

} // verus!
