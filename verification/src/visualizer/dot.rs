//! A small syntax tree for the DOT graph language and its rendering to text.

use vstd::prelude::*;
use vstd::string::*;
use vstd::std_specs::convert::{FromSpec, FromSpecImpl, IntoSpec};

verus! {

/// where to aim the endpoint of an edge
#[derive(Debug, Copy, Clone)]
pub enum Compass {
    /// point to the top of a node
    North,
    /// point to the top-right of a node
    NorthEast,
    /// point to the right of a node
    East,
    /// point to the bottom-right of a node
    SouthEast,
    /// point to the bottom of a node
    South,
    /// point to the bottom-left of a node
    SouthWest,
    /// point to the left of a node
    West,
    /// point to the top-left of a node
    NorthWest,
}

impl Compass {
    /// The compass point as DOT writes it.
    pub open spec fn text(self) -> Seq<char> {
        match self {
            Compass::North => "n"@,
            Compass::NorthEast => "ne"@,
            Compass::East => "e"@,
            Compass::SouthEast => "se"@,
            Compass::South => "s"@,
            Compass::SouthWest => "sw"@,
            Compass::West => "w"@,
            Compass::NorthWest => "nw"@,
        }
    }

    fn write(&self, writer: &mut String)
        ensures
            final(writer)@ == old(writer)@ + self.text(),
    {
        match self {
            Compass::North => writer.append("n"),
            Compass::NorthEast => writer.append("ne"),
            Compass::East => writer.append("e"),
            Compass::SouthEast => writer.append("se"),
            Compass::South => writer.append("s"),
            Compass::SouthWest => writer.append("sw"),
            Compass::West => writer.append("w"),
            Compass::NorthWest => writer.append("nw"),
        }
    }
}

/// The text in which every occurrence of `from` in `s` is replaced by `to`.
pub open spec fn replaced(s: Seq<char>, from: char, to: Seq<char>) -> Seq<char>
    decreases s.len(),
{
    if s.len() == 0 {
        s
    } else {
        replaced(s.drop_last(), from, to) + (if s.last() == from {
            to
        } else {
            seq![s.last()]
        })
    }
}

/// `str::replace` with a single character as the pattern: every occurrence of
/// the character is replaced by `to`, all other characters are kept in order.
#[verifier::external_body]
pub(crate) fn replace_char(s: &str, from: char, to: &str) -> (r: String)
    ensures
        r@ == replaced(s@, from, to@),
{
    s.replace(from, to)
}

/// an identifier in the DOT language
#[derive(Debug)]
pub enum Id {
    Ident(String),
    Quoted(String),
}

impl Clone for Id {
    fn clone(&self) -> (r: Self)
        ensures
            r == *self,
    {
        match self {
            Id::Ident(id) => Id::Ident(id.clone()),
            Id::Quoted(id) => Id::Quoted(id.clone()),
        }
    }
}

impl Id {
    /// The identifier as DOT writes it.
    pub open spec fn text(self) -> Seq<char> {
        match self {
            Id::Ident(id) => id@,
            Id::Quoted(id) => "\""@ + id@ + "\""@,
        }
    }

    /// create an unquoted alphanumeric identifier
    pub fn ident(id: &str) -> (r: Self)
        ensures
            r matches Id::Ident(s) && s@ == id@,
    {
        Id::Ident(String::from_str(id))
    }

    /// create a quoted string that can contain any characters
    pub fn quoted(id: &str) -> (r: Self)
        ensures
            r matches Id::Quoted(s) && s@ == replaced(id@, '"', "\\\""@),
    {
        Id::Quoted(replace_char(id, '"', "\\\""))
    }

    /// The identifier as DOT writes it.
    pub fn to_string(&self) -> (r: String)
        ensures
            r@ == self.text(),
    {
        let mut out = String::new();
        self.write(&mut out);
        out
    }

    fn write(&self, writer: &mut String)
        ensures
            final(writer)@ == old(writer)@ + self.text(),
    {
        match self {
            Id::Ident(id) => writer.append(id.as_str()),
            Id::Quoted(id) => {
                writer.append("\"");
                writer.append(id.as_str());
                writer.append("\"");
            },
        }
    }
}

/// The indentation in front of a statement that is nested `indents` levels deep.
pub open spec fn indent_text(indents: nat) -> Seq<char>
    decreases indents,
{
    if indents == 0 {
        Seq::empty()
    } else {
        indent_text((indents - 1) as nat) + "    "@
    }
}

#[derive(Debug)]
pub struct Attribute(pub Id, pub Id);

impl Clone for Attribute {
    fn clone(&self) -> (r: Self)
        ensures
            r == *self,
    {
        Attribute(self.0.clone(), self.1.clone())
    }
}

impl Attribute {
    /// The attribute as DOT writes it: name, equals sign, value.
    pub open spec fn text(self) -> Seq<char> {
        self.0.text() + "="@ + self.1.text()
    }

    pub fn new(attr: Id, value: Id) -> (r: Self)
        ensures
            r == Attribute(attr, value),
    {
        Attribute(attr, value)
    }

    fn write(&self, writer: &mut String)
        ensures
            final(writer)@ == old(writer)@ + self.text(),
    {
        self.0.write(writer);
        writer.append("=");
        self.1.write(writer);
    }
}

/// The attributes of a list, each followed by a comma.
pub open spec fn attrs_text(attrs: Seq<Attribute>) -> Seq<char>
    decreases attrs.len(),
{
    if attrs.len() == 0 {
        Seq::empty()
    } else {
        attrs_text(attrs.drop_last()) + attrs.last().text() + ","@
    }
}

fn write_attrs(attrs: &Vec<Attribute>, writer: &mut String)
    ensures
        final(writer)@ == old(writer)@ + attrs_text(attrs@),
{
    let mut i: usize = 0;
    while i < attrs.len()
        invariant
            i <= attrs.len(),
            writer@ == old(writer)@ + attrs_text(attrs@.take(i as int)),
        decreases attrs.len() - i,
    {
        proof {
            assert(attrs@.take(i + 1).drop_last() =~= attrs@.take(i as int));
        }
        attrs[i].write(writer);
        writer.append(",");
        i += 1;
    }
    proof {
        assert(attrs@.take(i as int) =~= attrs@);
    }
}

fn clone_attrs(attrs: &Vec<Attribute>) -> (r: Vec<Attribute>)
    ensures
        r@ == attrs@,
{
    let mut r: Vec<Attribute> = Vec::new();
    let mut i: usize = 0;
    while i < attrs.len()
        invariant
            i <= attrs.len(),
            r@ == attrs@.take(i as int),
        decreases attrs.len() - i,
    {
        r.push(attrs[i].clone());
        proof {
            assert(r@ =~= attrs@.take(i + 1));
        }
        i += 1;
    }
    proof {
        assert(attrs@.take(i as int) =~= attrs@);
    }
    r
}

/// apply attributes to nodes that match this selector
#[derive(Debug, Copy, Clone)]
pub enum SelectorKind {
    /// apply them to the subgraph itself
    Graph,
    /// apply them to all nodes within the subgraph
    Node,
    /// apply them to all edges within the subgraph
    Edge,
}

impl SelectorKind {
    /// The keyword that opens a selector statement, with its bracket.
    pub open spec fn text(self) -> Seq<char> {
        match self {
            SelectorKind::Edge => "edge["@,
            SelectorKind::Graph => "graph["@,
            SelectorKind::Node => "node["@,
        }
    }
}

/// create a selector statement
#[derive(Debug)]
pub struct Selector {
    pub kind: SelectorKind,
    pub attrs: Vec<Attribute>,
}

impl Clone for Selector {
    fn clone(&self) -> (r: Self)
        ensures
            r.kind == self.kind,
            r.attrs@ == self.attrs@,
    {
        Selector { kind: self.kind, attrs: clone_attrs(&self.attrs) }
    }
}

impl Selector {
    /// The selector as DOT writes it.
    pub open spec fn text(self) -> Seq<char> {
        self.kind.text() + attrs_text(self.attrs@) + "]"@
    }

    /// select the graph
    pub fn graph() -> (r: Self)
        ensures
            r.kind == SelectorKind::Graph,
            r.attrs@ == Seq::<Attribute>::empty(),
    {
        Selector { kind: SelectorKind::Graph, attrs: Vec::new() }
    }

    /// select all nodes
    pub fn node() -> (r: Self)
        ensures
            r.kind == SelectorKind::Node,
            r.attrs@ == Seq::<Attribute>::empty(),
    {
        Selector { kind: SelectorKind::Node, attrs: Vec::new() }
    }

    /// select all edges
    pub fn edge() -> (r: Self)
        ensures
            r.kind == SelectorKind::Edge,
            r.attrs@ == Seq::<Attribute>::empty(),
    {
        Selector { kind: SelectorKind::Edge, attrs: Vec::new() }
    }

    /// add attributes to the selector
    pub fn add(self, attr: Attribute) -> (r: Self)
        ensures
            r.kind == self.kind,
            r.attrs@ == self.attrs@.push(attr),
    {
        let mut selector = self;
        selector.attrs.push(attr);
        selector
    }

    fn write(&self, writer: &mut String)
        ensures
            final(writer)@ == old(writer)@ + self.text(),
    {
        match self.kind {
            SelectorKind::Edge => writer.append("edge["),
            SelectorKind::Graph => writer.append("graph["),
            SelectorKind::Node => writer.append("node["),
        }
        write_attrs(&self.attrs, writer);
        writer.append("]");
    }
}

/// type of edge between two nodes
#[derive(Debug, Copy, Clone)]
pub enum EdgeOp {
    Directed,
}

impl EdgeOp {
    /// The operator as DOT writes it between two operands.
    pub open spec fn text(self) -> Seq<char> {
        match self {
            EdgeOp::Directed => " -> "@,
        }
    }
}

/// identify a node with a port and compass
#[derive(Debug)]
pub struct NodeId {
    pub id: Id,
    pub port: Option<Id>,
    pub compass: Option<Compass>,
}

impl Clone for NodeId {
    fn clone(&self) -> (r: Self)
        ensures
            r == *self,
    {
        let port = match &self.port {
            Some(port) => Some(port.clone()),
            None => None,
        };
        NodeId { id: self.id.clone(), port, compass: self.compass }
    }
}

impl NodeId {
    /// The node identifier as DOT writes it: the name, then the port and the
    /// compass point where they are set, each after a colon.
    pub open spec fn text(self) -> Seq<char> {
        self.id.text() + (match self.port {
            Some(port) => ":"@ + port.text(),
            None => Seq::empty(),
        }) + (match self.compass {
            Some(compass) => ":"@ + compass.text(),
            None => Seq::empty(),
        })
    }

    /// identify a node
    pub fn new(id: Id) -> (r: Self)
        ensures
            r == (NodeId { id, port: None, compass: None }),
    {
        NodeId { id, port: None, compass: None }
    }

    /// add a port to the node id
    pub fn port(self, port: Id) -> (r: Self)
        ensures
            r == (NodeId { port: Some(port), ..self }),
    {
        NodeId { port: Some(port), ..self }
    }

    /// point the edge to a part of the node
    pub fn compass(self, compass: Compass) -> (r: Self)
        ensures
            r == (NodeId { compass: Some(compass), ..self }),
    {
        NodeId { compass: Some(compass), ..self }
    }

    /// create an edge from this node to another
    pub fn connect<T: Into<Edge>>(self, op: EdgeOp, rhs: T) -> (r: Edge)
        ensures
            T::obeys_into_spec() ==> r == (Edge::Edge {
                lhs: Box::new(Edge::Node(self)),
                op,
                rhs: Box::new(rhs.into_spec()),
            }),
    {
        Edge::from(self).connect(op, rhs)
    }

    fn write(&self, writer: &mut String)
        ensures
            final(writer)@ == old(writer)@ + self.text(),
    {
        self.id.write(writer);
        if let Some(port) = &self.port {
            writer.append(":");
            port.write(writer);
        }
        if let Some(compass) = &self.compass {
            writer.append(":");
            compass.write(writer);
        }
    }
}

#[derive(Debug)]
pub struct Node {
    pub id: Id,
    pub attrs: Vec<Attribute>,
}

impl Clone for Node {
    fn clone(&self) -> (r: Self)
        ensures
            r.id == self.id,
            r.attrs@ == self.attrs@,
    {
        Node { id: self.id.clone(), attrs: clone_attrs(&self.attrs) }
    }
}

impl Node {
    /// The node as DOT writes it: the name, then the attributes in brackets
    /// where there are any.
    pub open spec fn text(self) -> Seq<char> {
        self.id.text() + (if self.attrs@.len() >= 1 {
            " ["@ + attrs_text(self.attrs@) + "]"@
        } else {
            Seq::empty()
        })
    }

    pub fn new(id: Id) -> (r: Self)
        ensures
            r.id == id,
            r.attrs@ == Seq::<Attribute>::empty(),
    {
        Self::with_attrs(id, Vec::new())
    }

    pub fn with_attrs(id: Id, attrs: Vec<Attribute>) -> (r: Self)
        ensures
            r == (Node { id, attrs }),
    {
        Node { id, attrs }
    }

    pub fn add(self, attr: Attribute) -> (r: Self)
        ensures
            r.id == self.id,
            r.attrs@ == self.attrs@.push(attr),
    {
        let mut node = self;
        node.attrs.push(attr);
        node
    }

    fn write(&self, writer: &mut String)
        ensures
            final(writer)@ == old(writer)@ + self.text(),
    {
        self.id.write(writer);
        if self.attrs.len() >= 1 {
            writer.append(" [");
            write_attrs(&self.attrs, writer);
            writer.append("]");
        }
    }
}

/// an edge operand
#[derive(Debug)]
pub enum Edge {
    /// edge operands can be nodes
    Node(NodeId),
    /// edge operands can be subgraphs
    SubGraph(SubGraph),
    /// edge operands can be recursive
    Edge {
        /// lhs of an edge
        lhs: Box<Edge>,
        /// type of edge
        op: EdgeOp,
        /// rhs of an edge
        rhs: Box<Edge>,
    },
}

/// a subgraph structure
#[derive(Debug)]
pub struct SubGraph {
    pub strict: bool,
    pub id: Option<Id>,
    pub statements: Vec<Statement>,
}

/// a DOT statement
#[derive(Debug)]
pub enum Statement {
    /// declare a standalone node
    Node(Node),
    /// declare an edge or set of edges
    Edge(Edge),
    /// apply attributes to a set of nodes/edges
    Selector(Selector),
    /// an attribute statement
    Attribute(Attribute),
    /// a subgraph statement
    SubGraph(SubGraph),
}

/// The statements of a body in order, each as `Statement::text` writes it.
pub open spec fn statements_text(statements: Seq<Statement>, indents: nat) -> Seq<char>
    decreases statements,
{
    if statements.len() == 0 {
        Seq::empty()
    } else {
        statements_text(statements.drop_last(), indents) + statements.last().text(indents)
    }
}

impl Clone for Edge {
    fn clone(&self) -> (r: Self)
        ensures
            r.text() == self.text(),
    {
        self.copy()
    }
}

impl Clone for SubGraph {
    fn clone(&self) -> (r: Self)
        ensures
            r.strict == self.strict,
            r.id == self.id,
            forall|indents: nat| #[trigger] r.text(indents) == self.text(indents),
    {
        self.copy()
    }
}

impl Clone for Statement {
    fn clone(&self) -> (r: Self)
        ensures
            forall|indents: nat| #[trigger] r.text(indents) == self.text(indents),
    {
        self.copy()
    }
}

impl Clone for Dot {
    fn clone(&self) -> (r: Self)
        ensures
            r.text() == self.text(),
    {
        match self {
            Dot::DiGraph(subgraph) => {
                let copy = subgraph.copy();
                proof {
                    assert(statements_text(copy.statements@, 1) == statements_text(
                        subgraph.statements@,
                        1,
                    ));
                }
                Dot::DiGraph(copy)
            },
        }
    }
}

impl Edge {
    fn copy(&self) -> (r: Self)
        ensures
            r.text() == self.text(),
        decreases self,
    {
        match self {
            Edge::Node(node_id) => {
                let copy = node_id.clone();
                assert(copy == *node_id);
                Edge::Node(copy)
            },
            Edge::SubGraph(subgraph) => {
                let copy = subgraph.copy();
                assert(copy.text(0) == subgraph.text(0));
                Edge::SubGraph(copy)
            },
            Edge::Edge { lhs, op, rhs } => {
                let left = lhs.copy();
                let right = rhs.copy();
                assert(left.text() == lhs.text());
                assert(right.text() == rhs.text());
                Edge::Edge { lhs: Box::new(left), op: *op, rhs: Box::new(right) }
            },
        }
    }

    /// The edge as DOT writes it: its operands from left to right with the
    /// operator between them. A subgraph operand is written without indentation.
    pub open spec fn text(self) -> Seq<char>
        decreases self,
    {
        match self {
            Edge::Node(node_id) => node_id.text(),
            Edge::SubGraph(subgraph) => subgraph.text(0),
            Edge::Edge { lhs, op, rhs } => lhs.text() + op.text() + rhs.text(),
        }
    }

    /// add more operands to the edge
    pub fn connect<T: Into<Edge>>(self, op: EdgeOp, rhs: T) -> (r: Self)
        ensures
            T::obeys_into_spec() ==> r == (Edge::Edge {
                lhs: Box::new(self),
                op,
                rhs: Box::new(rhs.into_spec()),
            }),
    {
        Edge::Edge { lhs: Box::new(self), op: op, rhs: Box::new(rhs.into()) }
    }

    fn write(&self, writer: &mut String)
        ensures
            final(writer)@ == old(writer)@ + self.text(),
        decreases self,
    {
        match self {
            Edge::Node(node_id) => node_id.write(writer),
            Edge::SubGraph(subgraph) => {
                proof {
                    reveal_strlit("");
                    assert(""@ =~= indent_text(0));
                }
                subgraph.write(writer, "", Ghost(0))
            },
            Edge::Edge { lhs, op, rhs } => {
                lhs.write(writer);
                match op {
                    EdgeOp::Directed => writer.append(" -> "),
                }
                rhs.write(writer);
            },
        }
    }
}

impl SubGraph {
    fn copy(&self) -> (r: Self)
        ensures
            r.strict == self.strict,
            r.id == self.id,
            forall|indents: nat|
                statements_text(r.statements@, indents) == #[trigger] statements_text(
                    self.statements@,
                    indents,
                ),
            forall|indents: nat| #[trigger] r.text(indents) == self.text(indents),
        decreases self,
    {
        let id = match &self.id {
            Some(id) => Some(id.clone()),
            None => None,
        };
        let mut statements: Vec<Statement> = Vec::new();
        let mut i: usize = 0;
        while i < self.statements.len()
            invariant
                i <= self.statements.len(),
                forall|indents: nat|
                    statements_text(statements@, indents) == #[trigger] statements_text(
                        self.statements@.take(i as int),
                        indents,
                    ),
            decreases self.statements.len() - i,
        {
            let ghost before = statements@;
            let statement = self.statements[i].copy();
            statements.push(statement);
            proof {
                assert(statements@.drop_last() =~= before);
                assert(self.statements@.take(i + 1).drop_last() =~= self.statements@.take(
                    i as int,
                ));
                assert forall|indents: nat|
                    statements_text(statements@, indents) == #[trigger] statements_text(
                        self.statements@.take(i + 1),
                        indents,
                    ) by {
                    assert(statements_text(before, indents) == statements_text(
                        self.statements@.take(i as int),
                        indents,
                    ));
                    assert(statement.text(indents) == self.statements@[i as int].text(indents));
                }
            }
            i += 1;
        }
        proof {
            assert(self.statements@.take(i as int) =~= self.statements@);
        }
        let r = SubGraph { strict: self.strict, id, statements };
        proof {
            assert forall|indents: nat| #[trigger] r.text(indents) == self.text(indents) by {
                assert(statements_text(r.statements@, indents + 1) == statements_text(
                    self.statements@,
                    indents + 1,
                ));
            }
        }
        r
    }

    /// The opening of a graph or subgraph: `strict ` where it is strict.
    pub open spec fn strict_text(self) -> Seq<char> {
        if self.strict {
            "strict "@
        } else {
            Seq::empty()
        }
    }

    /// The subgraph as DOT writes it at the given depth. The indentation is
    /// written at the start of the header and once more before the opening
    /// brace; the body is one level deeper.
    pub open spec fn text(self, indents: nat) -> Seq<char>
        decreases self,
    {
        indent_text(indents) + self.strict_text() + (match self.id {
            Some(id) => "subgraph "@ + id.text() + " "@,
            None => Seq::empty(),
        }) + indent_text(indents) + "{\n"@ + statements_text(self.statements@, indents + 1)
            + indent_text(indents) + "}\n"@
    }

    /// create a new subgraph
    pub fn new() -> (r: Self)
        ensures
            !r.strict,
            r.id is None,
            r.statements@ == Seq::<Statement>::empty(),
    {
        SubGraph { strict: false, id: None, statements: Vec::new() }
    }

    /// make the subgraph strict
    pub fn strict(self) -> (r: Self)
        ensures
            r == (SubGraph { strict: true, ..self }),
    {
        SubGraph { strict: true, ..self }
    }

    /// set the name of the subgraph
    pub fn id(self, id: Id) -> (r: Self)
        ensures
            r == (SubGraph { id: Some(id), ..self }),
    {
        SubGraph { id: Some(id), ..self }
    }

    /// add statements to the body of the subgraph
    pub fn add<T: Into<Statement>>(self, statement: T) -> (r: Self)
        ensures
            r.strict == self.strict,
            r.id == self.id,
            T::obeys_into_spec() ==> r.statements@ == self.statements@.push(statement.into_spec()),
    {
        let mut subgraph = self;
        subgraph.statements.push(statement.into());
        subgraph
    }

    fn write(&self, writer: &mut String, pad: &str, Ghost(indents): Ghost<nat>)
        requires
            pad@ == indent_text(indents),
        ensures
            final(writer)@ == old(writer)@ + self.text(indents),
        decreases self, 1nat,
    {
        writer.append(pad);
        if self.strict {
            writer.append("strict ");
        }
        if let Some(id) = &self.id {
            writer.append("subgraph ");
            id.write(writer);
            writer.append(" ");
        }
        writer.append(pad);
        writer.append("{\n");
        self.write_body(writer, pad, Ghost(indents));
        writer.append(pad);
        writer.append("}\n");
    }

    fn write_body(&self, writer: &mut String, pad: &str, Ghost(indents): Ghost<nat>)
        requires
            pad@ == indent_text(indents),
        ensures
            final(writer)@ == old(writer)@ + statements_text(self.statements@, indents + 1),
        decreases self, 0nat,
    {
        let mut inner = String::from_str(pad);
        inner.append("    ");
        let mut i: usize = 0;
        while i < self.statements.len()
            invariant
                i <= self.statements.len(),
                inner@ == indent_text(indents + 1),
                writer@ == old(writer)@ + statements_text(
                    self.statements@.take(i as int),
                    indents + 1,
                ),
            decreases self.statements.len() - i,
        {
            proof {
                assert(self.statements@.take(i + 1).drop_last() =~= self.statements@.take(
                    i as int,
                ));
            }
            self.statements[i].write(writer, inner.as_str(), Ghost(indents + 1));
            i += 1;
        }
        proof {
            assert(self.statements@.take(i as int) =~= self.statements@);
        }
    }
}

impl Statement {
    fn copy(&self) -> (r: Self)
        ensures
            forall|indents: nat| #[trigger] r.text(indents) == self.text(indents),
        decreases self,
    {
        match self {
            Statement::Node(node) => {
                let copy = node.clone();
                let r = Statement::Node(copy);
                assert forall|indents: nat| #[trigger] r.text(indents) == self.text(indents) by {
                    assert(copy.text() == node.text());
                }
                r
            },
            Statement::Edge(edge) => {
                let copy = edge.copy();
                let r = Statement::Edge(copy);
                assert forall|indents: nat| #[trigger] r.text(indents) == self.text(indents) by {
                    assert(copy.text() == edge.text());
                }
                r
            },
            Statement::Selector(selector) => {
                let copy = selector.clone();
                let r = Statement::Selector(copy);
                assert forall|indents: nat| #[trigger] r.text(indents) == self.text(indents) by {
                    assert(copy.text() == selector.text());
                }
                r
            },
            Statement::Attribute(attr) => Statement::Attribute(attr.clone()),
            Statement::SubGraph(subgraph) => {
                let copy = subgraph.copy();
                let r = Statement::SubGraph(copy);
                assert forall|indents: nat| #[trigger] r.text(indents) == self.text(indents) by {
                    assert(copy.text(indents) == subgraph.text(indents));
                }
                r
            },
        }
    }

    /// The statement as DOT writes it at the given depth: indented and closed
    /// by a semicolon, but for a subgraph, which is written as it is.
    pub open spec fn text(self, indents: nat) -> Seq<char>
        decreases self,
    {
        match self {
            Statement::Node(node) => indent_text(indents) + node.text() + ";\n"@,
            Statement::Edge(edge) => indent_text(indents) + edge.text() + ";\n"@,
            Statement::Selector(selector) => indent_text(indents) + selector.text() + ";\n"@,
            Statement::Attribute(attr) => indent_text(indents) + attr.text() + ";\n"@,
            Statement::SubGraph(subgraph) => subgraph.text(indents),
        }
    }

    fn write(&self, writer: &mut String, pad: &str, Ghost(indents): Ghost<nat>)
        requires
            pad@ == indent_text(indents),
        ensures
            final(writer)@ == old(writer)@ + self.text(indents),
        decreases self,
    {
        match self {
            Statement::Node(node) => {
                writer.append(pad);
                node.write(writer);
                writer.append(";\n");
            },
            Statement::Edge(edge) => {
                writer.append(pad);
                edge.write(writer);
                writer.append(";\n");
            },
            Statement::Selector(selector) => {
                writer.append(pad);
                selector.write(writer);
                writer.append(";\n");
            },
            Statement::Attribute(attr) => {
                writer.append(pad);
                attr.write(writer);
                writer.append(";\n");
            },
            Statement::SubGraph(subgraph) => subgraph.write(writer, pad, Ghost(indents)),
        }
    }
}

/// the root AST node
#[derive(Debug)]
pub enum Dot {
    /// create a directed graph
    DiGraph(SubGraph),
}

impl Dot {
    /// The whole graph as DOT writes it: the header, the statements one level
    /// deep, and the closing brace.
    pub open spec fn text(self) -> Seq<char> {
        match self {
            Dot::DiGraph(subgraph) => subgraph.strict_text() + "digraph "@ + (match subgraph.id {
                Some(id) => id.text() + " "@,
                None => Seq::empty(),
            }) + "{\n"@ + statements_text(subgraph.statements@, 1) + "}\n"@,
        }
    }

    /// render the AST to the writer
    pub fn render(&self, writer: &mut String)
        ensures
            final(writer)@ == old(writer)@ + self.text(),
    {
        match self {
            Dot::DiGraph(subgraph) => {
                if subgraph.strict {
                    writer.append("strict ");
                }
                writer.append("digraph ");
                if let Some(id) = &subgraph.id {
                    id.write(writer);
                    writer.append(" ");
                }
                writer.append("{\n");
                proof {
                    reveal_strlit("");
                    assert(""@ =~= indent_text(0));
                }
                subgraph.write_body(writer, "", Ghost(0));
                writer.append("}\n");
            },
        }
    }
}

impl From<NodeId> for Edge {
    fn from(id: NodeId) -> (r: Self) {
        Edge::Node(id)
    }
}

impl FromSpecImpl<NodeId> for Edge {
    open spec fn obeys_from_spec() -> bool {
        true
    }

    open spec fn from_spec(id: NodeId) -> Self {
        Edge::Node(id)
    }
}

impl From<SubGraph> for Edge {
    fn from(subgraph: SubGraph) -> (r: Self) {
        Edge::SubGraph(subgraph)
    }
}

impl FromSpecImpl<SubGraph> for Edge {
    open spec fn obeys_from_spec() -> bool {
        true
    }

    open spec fn from_spec(subgraph: SubGraph) -> Self {
        Edge::SubGraph(subgraph)
    }
}

impl From<Node> for Statement {
    fn from(node: Node) -> (r: Self) {
        Statement::Node(node)
    }
}

impl FromSpecImpl<Node> for Statement {
    open spec fn obeys_from_spec() -> bool {
        true
    }

    open spec fn from_spec(node: Node) -> Self {
        Statement::Node(node)
    }
}

impl From<Edge> for Statement {
    fn from(edge: Edge) -> (r: Self) {
        Statement::Edge(edge)
    }
}

impl FromSpecImpl<Edge> for Statement {
    open spec fn obeys_from_spec() -> bool {
        true
    }

    open spec fn from_spec(edge: Edge) -> Self {
        Statement::Edge(edge)
    }
}

impl From<Selector> for Statement {
    fn from(selector: Selector) -> (r: Self) {
        Statement::Selector(selector)
    }
}

impl FromSpecImpl<Selector> for Statement {
    open spec fn obeys_from_spec() -> bool {
        true
    }

    open spec fn from_spec(selector: Selector) -> Self {
        Statement::Selector(selector)
    }
}

impl From<Attribute> for Statement {
    fn from(attr: Attribute) -> (r: Self) {
        Statement::Attribute(attr)
    }
}

impl FromSpecImpl<Attribute> for Statement {
    open spec fn obeys_from_spec() -> bool {
        true
    }

    open spec fn from_spec(attr: Attribute) -> Self {
        Statement::Attribute(attr)
    }
}

impl From<SubGraph> for Statement {
    fn from(subgraph: SubGraph) -> (r: Self) {
        Statement::SubGraph(subgraph)
    }
}

impl FromSpecImpl<SubGraph> for Statement {
    open spec fn obeys_from_spec() -> bool {
        true
    }

    open spec fn from_spec(subgraph: SubGraph) -> Self {
        Statement::SubGraph(subgraph)
    }
}

} // verus!
