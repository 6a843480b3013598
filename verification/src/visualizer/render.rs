//! The probed structure of an organelle as a DOT graph: each axon a record
//! with a port for each constraint, each organelle a cluster, each synapse an
//! edge from the terminal of one axon to the dendrite of another.

use std::collections::HashMap;

use vstd::arithmetic::power::pow;
use vstd::prelude::*;
use vstd::string::*;

use crate::probe::{ConstraintData, SomaData};
use crate::soma::SomaId;
use crate::visualizer::dot::{
    indent_text, replace_char, replaced, statements_text, Attribute, Dot, Edge, EdgeOp, Id, Node,
    NodeId, Selector, Statement, SubGraph,
};

verus! {

broadcast use vstd::std_specs::hash::group_hash_axioms;

/// The text of an identifier: its 32 hexadecimal digits in lower case, the
/// most significant first, in groups of 8, 4, 4, 4 and 12 with a hyphen
/// between two groups.
pub open spec fn hyphenated(uuid: SomaId) -> Seq<char> {
    Seq::new(
        36,
        |i: int|
            if i == 8 || i == 13 || i == 18 || i == 23 {
                '-'
            } else {
                let hyphens: int = if i > 23 {
                    4
                } else if i > 18 {
                    3
                } else if i > 13 {
                    2
                } else if i > 8 {
                    1
                } else {
                    0
                };
                "0123456789abcdef"@[(uuid as int / pow(16, (31 - (i - hyphens)) as nat)) % 16]
            },
    )
}

/// `Uuid::to_string` of the UUID with the given 128 bits: the hyphenated form
/// in lower case.
#[verifier::external_body]
pub(crate) fn uuid_text(uuid: SomaId) -> (text: String)
    ensures
        text@ == hyphenated(uuid),
{
    uuid::Uuid::from_u128(uuid).to_string()
}

/// The identifier of the axon that stands for a soma in the graph: for an
/// organelle, that of its nucleus.
pub open spec fn axon_of(data: SomaData) -> Option<SomaId>
    decreases data,
{
    match data {
        SomaData::Organelle { nucleus, .. } => axon_of(*nucleus),
        SomaData::Axon { uuid, .. } => Some(uuid),
        SomaData::Soma { .. } => None,
    }
}

/// Whether the structure can be drawn: it holds organelles and axons only.
pub open spec fn drawable(data: SomaData) -> bool
    decreases data,
{
    match data {
        SomaData::Organelle { nucleus, somas, .. } => drawable(*nucleus) && forall|i: int|
            0 <= i < somas@.len() ==> drawable(#[trigger] somas@[i]),
        SomaData::Axon { .. } => true,
        SomaData::Soma { .. } => false,
    }
}

/// The map from each organelle of the structure to the axon that stands for
/// it, on top of `remap`: the organelle itself first, then its nucleus, then
/// its other somas in order.
pub open spec fn remapped(data: SomaData, remap: Map<SomaId, SomaId>) -> Map<SomaId, SomaId>
    decreases data,
{
    match data {
        SomaData::Organelle { uuid, nucleus, somas, .. } => {
            let own = match axon_of(*nucleus) {
                Some(inner) => remap.insert(uuid, inner),
                None => remap,
            };
            remapped_all(somas@, remapped(*nucleus, own))
        },
        _ => remap,
    }
}

/// The map after each of the given structures in order.
pub open spec fn remapped_all(somas: Seq<SomaData>, remap: Map<SomaId, SomaId>) -> Map<
    SomaId,
    SomaId,
>
    decreases somas,
{
    if somas.len() == 0 {
        remap
    } else {
        remapped(somas.last(), remapped_all(somas.drop_last(), remap))
    }
}

/// find the axon that stands for a soma in the graph
pub fn get_uuid(data: &SomaData) -> (uuid: Option<SomaId>)
    ensures
        uuid == axon_of(*data),
    decreases data,
{
    match data {
        SomaData::Organelle { nucleus, .. } => get_uuid(nucleus),
        SomaData::Axon { uuid, .. } => Some(*uuid),
        _ => None,
    }
}

/// whether the structure can be drawn
pub fn is_drawable(data: &SomaData) -> (r: bool)
    ensures
        r == drawable(*data),
    decreases data,
{
    match data {
        SomaData::Organelle { nucleus, somas, .. } => {
            if !is_drawable(nucleus) {
                return false;
            }
            let mut i: usize = 0;
            while i < somas.len()
                invariant
                    i <= somas.len(),
                    *data matches SomaData::Organelle { somas: s, .. } && s == *somas,
                    forall|j: int| 0 <= j < i ==> drawable(#[trigger] somas@[j]),
                decreases somas.len() - i,
            {
                if !is_drawable(&somas[i]) {
                    return false;
                }
                i += 1;
            }
            true
        },
        SomaData::Axon { .. } => true,
        SomaData::Soma { .. } => false,
    }
}

/// note for each organelle of the structure the axon that stands for it
pub fn remap_uuids(data: &SomaData, remap: &mut HashMap<SomaId, SomaId>)
    ensures
        final(remap)@ == remapped(*data, old(remap)@),
    decreases data,
{
    match data {
        SomaData::Organelle { uuid, nucleus, somas, .. } => {
            if let Some(inner_uuid) = get_uuid(data) {
                remap.insert(*uuid, inner_uuid);
            }
            remap_uuids(nucleus, remap);
            let ghost start = remap@;
            let mut i: usize = 0;
            while i < somas.len()
                invariant
                    i <= somas.len(),
                    *data matches SomaData::Organelle { somas: s, .. } && s == *somas,
                    remap@ == remapped_all(somas@.take(i as int), start),
                decreases somas.len() - i,
            {
                proof {
                    assert(somas@.take(i + 1).drop_last() =~= somas@.take(i as int));
                }
                remap_uuids(&somas[i], remap);
                i += 1;
            }
            proof {
                assert(somas@.take(i as int) =~= somas@);
            }
        },
        _ => {},
    }
}

/// A text between double quotes, each double quote inside it escaped.
pub open spec fn quoted(text: Seq<char>) -> Seq<char> {
    "\""@ + replaced(text, '"', "\\\""@) + "\""@
}

/// The kind that a constraint is about, by its name.
pub open spec fn variant_of(constraint: ConstraintData) -> Seq<char> {
    match constraint {
        ConstraintData::One { variant, .. } => variant@,
        ConstraintData::Variadic { variant, .. } => variant@,
    }
}

/// The port of a record for a kind: its name in the graph between angle
/// brackets, then the name to show.
pub open spec fn port_text(tag: Seq<char>, variant: Seq<char>) -> Seq<char> {
    "<"@ + tag + variant + "> "@ + variant
}

/// The ports of the given constraints, with ` | ` between two of them.
pub open spec fn ports_text(tag: Seq<char>, constraints: Seq<ConstraintData>) -> Seq<char>
    decreases constraints.len(),
{
    if constraints.len() == 0 {
        Seq::empty()
    } else if constraints.len() == 1 {
        port_text(tag, variant_of(constraints[0]))
    } else {
        ports_text(tag, constraints.drop_last()) + " | "@ + port_text(
            tag,
            variant_of(constraints.last()),
        )
    }
}

/// The label of the record of an axon: its name, with the angle brackets in
/// it escaped, then the ports of its dendrites and the ports of its
/// terminals.
pub open spec fn label_text(
    name: Seq<char>,
    dendrites: Seq<ConstraintData>,
    terminals: Seq<ConstraintData>,
) -> Seq<char> {
    "<name> "@ + replaced(replaced(name, '<', "\\<"@), '>', "\\>"@) + " | { { "@ + ports_text(
        "d_"@,
        dendrites,
    ) + " } | { } | { "@ + ports_text("t_"@, terminals) + " } } | { }"@
}

/// An attribute: name, equals sign, value.
pub open spec fn attr_text(name: Seq<char>, value: Seq<char>) -> Seq<char> {
    name + "="@ + value
}

/// The record of an axon: a subgraph without a name around one node, which is
/// named by the identifier of the axon and carries the label.
pub open spec fn axon_text(
    uuid: SomaId,
    name: Seq<char>,
    terminals: Seq<ConstraintData>,
    dendrites: Seq<ConstraintData>,
    indents: nat,
) -> Seq<char> {
    indent_text(indents) + indent_text(indents) + "{\n"@ + indent_text(indents + 1) + quoted(
        hyphenated(uuid),
    ) + " ["@ + attr_text("label"@, quoted(label_text(name, dendrites, terminals))) + ","@
        + attr_text("shape"@, "Mrecord"@) + ","@ + attr_text("style"@, "rounded"@) + ","@ + "]"@
        + ";\n"@ + indent_text(indents) + "}\n"@
}

fn ports(tag: &str, constraints: &Vec<ConstraintData>) -> (text: String)
    ensures
        text@ == ports_text(tag@, constraints@),
{
    let mut text = String::new();
    let mut i: usize = 0;
    while i < constraints.len()
        invariant
            i <= constraints.len(),
            text@ == ports_text(tag@, constraints@.take(i as int)),
        decreases constraints.len() - i,
    {
        let ghost before = text@;
        proof {
            assert(constraints@.take(i + 1).drop_last() =~= constraints@.take(i as int));
            assert(constraints@.take(i + 1).last() == constraints@[i as int]);
        }
        if i > 0 {
            text.append(" | ");
        }
        let variant = match &constraints[i] {
            ConstraintData::One { variant, .. } => variant,
            ConstraintData::Variadic { variant, .. } => variant,
        };
        text.append("<");
        text.append(tag);
        text.append(variant.as_str());
        text.append("> ");
        text.append(variant.as_str());
        proof {
            let port = port_text(tag@, variant_of(constraints@[i as int]));
            if i == 0 {
                assert(before =~= Seq::<char>::empty());
                assert(constraints@.take(i + 1)[0] == constraints@[i as int]);
                assert(text@ =~= port);
            } else {
                assert(text@ =~= before + " | "@ + port);
            }
        }
        i += 1;
    }
    proof {
        assert(constraints@.take(i as int) =~= constraints@);
    }
    text
}

fn label(name: &str, dendrites: &Vec<ConstraintData>, terminals: &Vec<ConstraintData>) -> (text:
    String)
    ensures
        text@ == label_text(name@, dendrites@, terminals@),
{
    let shown = replace_char(replace_char(name, '<', "\\<").as_str(), '>', "\\>");
    let dendrites = ports("d_", dendrites);
    let terminals = ports("t_", terminals);
    let mut text = String::from_str("<name> ");
    text.append(shown.as_str());
    text.append(" | { { ");
    text.append(dendrites.as_str());
    text.append(" } | { } | { ");
    text.append(terminals.as_str());
    text.append(" } } | { }");
    text
}

/// The text of a list of statements with one more at its end.
proof fn lemma_statements_push(statements: Seq<Statement>, statement: Statement, indents: nat)
    ensures
        statements_text(statements.push(statement), indents) == statements_text(
            statements,
            indents,
        ) + statement.text(indents),
{
    assert(statements.push(statement).drop_last() =~= statements);
}

/// The text of a list of attributes with one more at its end.
proof fn lemma_attrs_push(attrs: Seq<Attribute>, attr: Attribute)
    ensures
        crate::visualizer::dot::attrs_text(attrs.push(attr)) == crate::visualizer::dot::attrs_text(
            attrs,
        ) + attr.text() + ","@,
{
    assert(attrs.push(attr).drop_last() =~= attrs);
}

/// draw an axon: a record with a port for each of its constraints
pub fn render_axon(
    uuid: SomaId,
    name: &str,
    terminals: &Vec<ConstraintData>,
    dendrites: &Vec<ConstraintData>,
) -> (axon: SubGraph)
    ensures
        forall|indents: nat| #[trigger]
            axon.text(indents) == axon_text(uuid, name@, terminals@, dendrites@, indents),
{
    let id = Id::quoted(uuid_text(uuid).as_str());
    let label = Attribute::new(
        Id::ident("label"),
        Id::quoted(label(name, dendrites, terminals).as_str()),
    );
    let shape = Attribute::new(Id::ident("shape"), Id::ident("Mrecord"));
    let style = Attribute::new(Id::ident("style"), Id::ident("rounded"));
    let node = Node::new(id).add(label).add(shape).add(style);
    let axon = SubGraph::new().add(node);
    proof {
        let none = Seq::<Attribute>::empty();
        lemma_attrs_push(none, label);
        lemma_attrs_push(none.push(label), shape);
        lemma_attrs_push(none.push(label).push(shape), style);
        assert(node.attrs@ == none.push(label).push(shape).push(style));
        assert(label.text() == attr_text("label"@, quoted(label_text(name@, dendrites@, terminals@))));
        assert(shape.text() == attr_text("shape"@, "Mrecord"@));
        assert(style.text() == attr_text("style"@, "rounded"@));
        assert(node.id.text() == quoted(hyphenated(uuid)));
        assert(axon.statements@ =~= Seq::<Statement>::empty().push(Statement::Node(node)));
        assert forall|indents: nat| #[trigger]
            axon.text(indents) == axon_text(uuid, name@, terminals@, dendrites@, indents) by {
            lemma_statements_push(Seq::empty(), Statement::Node(node), indents + 1);
            assert(axon.text(indents) =~= axon_text(
                uuid,
                name@,
                terminals@,
                dendrites@,
                indents,
            ));
        }
    }
    axon
}

/// The soma that an edge to `soma` ends at: the axon that stands for it where
/// it is an organelle, and otherwise itself.
pub open spec fn target(remap: Map<SomaId, SomaId>, soma: SomaId) -> SomaId {
    if remap.contains_key(soma) {
        remap[soma]
    } else {
        soma
    }
}

/// The edge of one synapse: from the terminal port of the kind at the source
/// to the dendrite port of the kind at the target.
pub open spec fn edge_text(src: SomaId, variant: Seq<char>, tgt: SomaId) -> Seq<char> {
    quoted(hyphenated(src)) + ":"@ + ("t_"@ + variant) + " -> "@ + (quoted(hyphenated(tgt)) + ":"@
        + ("d_"@ + variant))
}

/// The statement of an edge at the given depth.
pub open spec fn edge_statement(edge: Seq<char>, indents: nat) -> Seq<char> {
    indent_text(indents) + edge + ";\n"@
}

/// The edges of a variadic terminal, one statement for each soma at its other
/// ends, in order.
pub open spec fn variadic_edges_text(
    src: SomaId,
    variant: Seq<char>,
    somas: Seq<SomaId>,
    remap: Map<SomaId, SomaId>,
    indents: nat,
) -> Seq<char>
    decreases somas.len(),
{
    if somas.len() == 0 {
        Seq::empty()
    } else {
        variadic_edges_text(src, variant, somas.drop_last(), remap, indents) + edge_statement(
            edge_text(src, variant, target(remap, somas.last())),
            indents,
        )
    }
}

/// The edges of the terminals of an axon, one statement for each synapse, in
/// the order of the terminals.
pub open spec fn terminal_edges_text(
    src: SomaId,
    terminals: Seq<ConstraintData>,
    remap: Map<SomaId, SomaId>,
    indents: nat,
) -> Seq<char>
    decreases terminals.len(),
{
    if terminals.len() == 0 {
        Seq::empty()
    } else {
        terminal_edges_text(src, terminals.drop_last(), remap, indents) + (match terminals.last() {
            ConstraintData::One { variant, soma } => edge_statement(
                edge_text(src, variant@, target(remap, soma)),
                indents,
            ),
            ConstraintData::Variadic { variant, somas } => variadic_edges_text(
                src,
                variant@,
                somas@,
                remap,
                indents,
            ),
        })
    }
}

/// The edges that start at a soma: those of its terminals where it is an
/// axon, and none otherwise.
pub open spec fn soma_edges_text(data: SomaData, remap: Map<SomaId, SomaId>, indents: nat) -> Seq<
    char,
> {
    match data {
        SomaData::Axon { uuid, terminals, .. } => terminal_edges_text(
            uuid,
            terminals@,
            remap,
            indents,
        ),
        _ => Seq::empty(),
    }
}

/// The edges that start at the given somas, in order.
pub open spec fn edges_text(somas: Seq<SomaData>, remap: Map<SomaId, SomaId>, indents: nat) -> Seq<
    char,
>
    decreases somas.len(),
{
    if somas.len() == 0 {
        Seq::empty()
    } else {
        edges_text(somas.drop_last(), remap, indents) + soma_edges_text(
            somas.last(),
            remap,
            indents,
        )
    }
}

/// The first statement of a cluster: its frame is rounded, and it is labelled
/// with the name of the organelle.
pub open spec fn cluster_head_text(name: Seq<char>, indents: nat) -> Seq<char> {
    indent_text(indents) + ("graph["@ + attr_text("style"@, "rounded"@) + ","@ + attr_text(
        "label"@,
        quoted(name),
    ) + ","@ + "]"@) + ";\n"@
}

/// A cluster: a subgraph under a quoted name around the given statements.
pub open spec fn cluster_text(name: Seq<char>, body: Seq<char>, indents: nat) -> Seq<char> {
    indent_text(indents) + ("subgraph "@ + quoted(name) + " "@) + indent_text(indents) + "{\n"@
        + body + indent_text(indents) + "}\n"@
}

/// A soma as the graph shows it at the given depth: an axon as its record, an
/// organelle as a cluster under its name, which holds its somas, its nucleus
/// last, and after them the edges that start at them.
pub open spec fn soma_text(data: SomaData, remap: Map<SomaId, SomaId>, indents: nat) -> Seq<char>
    decreases data,
{
    match data {
        SomaData::Organelle { nucleus, somas, uuid, name } => cluster_text(
            "cluster_"@ + hyphenated(uuid),
            cluster_head_text(name@, indents + 1) + somas_text(somas@, remap, indents + 1)
                + soma_text(*nucleus, remap, indents + 1) + edges_text(somas@, remap, indents + 1)
                + soma_edges_text(*nucleus, remap, indents + 1),
            indents,
        ),
        SomaData::Axon { terminals, dendrites, uuid, name } => axon_text(
            uuid,
            name@,
            terminals@,
            dendrites@,
            indents,
        ),
        SomaData::Soma { .. } => Seq::empty(),
    }
}

/// The given somas as the graph shows them, in order.
pub open spec fn somas_text(somas: Seq<SomaData>, remap: Map<SomaId, SomaId>, indents: nat) -> Seq<
    char,
>
    decreases somas,
{
    if somas.len() == 0 {
        Seq::empty()
    } else {
        somas_text(somas.drop_last(), remap, indents) + soma_text(somas.last(), remap, indents)
    }
}

/// The whole graph of a structure: directed, drawn from left to right, with
/// every edge to an organelle ending at the axon that stands for it.
pub open spec fn dot_text(data: SomaData) -> Seq<char> {
    "digraph "@ + "{\n"@ + soma_text(data, remapped(data, Map::empty()), 1) + indent_text(1)
        + attr_text("rankdir"@, "LR"@) + ";\n"@ + "}\n"@
}

fn edge(src: SomaId, variant: &str, tgt: SomaId) -> (edge: Edge)
    ensures
        edge.text() == edge_text(src, variant@, tgt),
{
    let mut from = String::from_str("t_");
    from.append(variant);
    let mut to = String::from_str("d_");
    to.append(variant);
    let lhs = NodeId::new(Id::quoted(uuid_text(src).as_str())).port(Id::ident(from.as_str()));
    let rhs = NodeId::new(Id::quoted(uuid_text(tgt).as_str())).port(Id::ident(to.as_str()));
    let edge = lhs.connect(EdgeOp::Directed, rhs);
    proof {
        assert(lhs.text() =~= quoted(hyphenated(src)) + ":"@ + ("t_"@ + variant@));
        assert(rhs.text() =~= quoted(hyphenated(tgt)) + ":"@ + ("d_"@ + variant@));
        assert(edge == (Edge::Edge {
            lhs: Box::new(Edge::Node(lhs)),
            op: EdgeOp::Directed,
            rhs: Box::new(Edge::Node(rhs)),
        }));
        assert(edge.text() == Edge::Node(lhs).text() + EdgeOp::Directed.text() + Edge::Node(
            rhs,
        ).text());
    }
    edge
}

fn aim(remap: &HashMap<SomaId, SomaId>, soma: SomaId) -> (tgt: SomaId)
    ensures
        tgt == target(remap@, soma),
{
    match remap.get(&soma) {
        Some(uuid) => *uuid,
        None => soma,
    }
}

fn terminal_edges(
    src: SomaId,
    terminals: &Vec<ConstraintData>,
    remap: &HashMap<SomaId, SomaId>,
    edges: &mut Vec<Statement>,
)
    ensures
        forall|indents: nat| #[trigger]
            statements_text(final(edges)@, indents) == statements_text(old(edges)@, indents)
                + terminal_edges_text(src, terminals@, remap@, indents),
{
    let mut i: usize = 0;
    proof {
        assert forall|indents: nat| #[trigger]
            statements_text(edges@, indents) == statements_text(old(edges)@, indents)
                + terminal_edges_text(src, terminals@.take(0), remap@, indents) by {
            assert(statements_text(old(edges)@, indents) + Seq::<char>::empty()
                =~= statements_text(old(edges)@, indents));
        }
    }
    while i < terminals.len()
        invariant
            i <= terminals.len(),
            forall|indents: nat| #[trigger]
                statements_text(edges@, indents) == statements_text(old(edges)@, indents)
                    + terminal_edges_text(src, terminals@.take(i as int), remap@, indents),
        decreases terminals.len() - i,
    {
        let ghost done = edges@;
        proof {
            assert(terminals@.take(i + 1).drop_last() =~= terminals@.take(i as int));
            assert(terminals@.take(i + 1).last() == terminals@[i as int]);
        }
        match &terminals[i] {
            ConstraintData::One { variant, soma } => {
                let e = edge(src, variant.as_str(), aim(remap, *soma));
                edges.push(Statement::Edge(e));
                proof {
                    assert(edges@.drop_last() =~= done);
                    assert forall|indents: nat| #[trigger]
                        statements_text(edges@, indents) == statements_text(old(edges)@, indents)
                            + terminal_edges_text(
                            src,
                            terminals@.take(i + 1),
                            remap@,
                            indents,
                        ) by {
                        let first = statements_text(old(edges)@, indents);
                        let middle = terminal_edges_text(
                            src,
                            terminals@.take(i as int),
                            remap@,
                            indents,
                        );
                        let last = edge_statement(e.text(), indents);
                        lemma_statements_push(done, Statement::Edge(e), indents);
                        assert(edges@ == done.push(Statement::Edge(e)));
                        assert(Statement::Edge(e).text(indents) == last);
                        assert(statements_text(done, indents) == first + middle);
                        assert((first + middle) + last =~= first + (middle + last));
                    }
                }
            },
            ConstraintData::Variadic { variant, somas } => {
                let mut j: usize = 0;
                proof {
                    assert forall|indents: nat| #[trigger]
                        statements_text(edges@, indents) == statements_text(done, indents)
                            + variadic_edges_text(src, variant@, somas@.take(0), remap@, indents) by {
                        assert(statements_text(done, indents) + Seq::<char>::empty()
                            =~= statements_text(done, indents));
                    }
                }
                while j < somas.len()
                    invariant
                        j <= somas.len(),
                        forall|indents: nat| #[trigger]
                            statements_text(edges@, indents) == statements_text(done, indents)
                                + variadic_edges_text(
                                src,
                                variant@,
                                somas@.take(j as int),
                                remap@,
                                indents,
                            ),
                    decreases somas.len() - j,
                {
                    let ghost sofar = edges@;
                    let e = edge(src, variant.as_str(), aim(remap, somas[j]));
                    edges.push(Statement::Edge(e));
                    proof {
                        assert(somas@.take(j + 1).drop_last() =~= somas@.take(j as int));
                        assert(somas@.take(j + 1).last() == somas@[j as int]);
                        assert(edges@.drop_last() =~= sofar);
                        assert forall|indents: nat| #[trigger]
                            statements_text(edges@, indents) == statements_text(done, indents)
                                + variadic_edges_text(
                                src,
                                variant@,
                                somas@.take(j + 1),
                                remap@,
                                indents,
                            ) by {
                            let first = statements_text(done, indents);
                            let middle = variadic_edges_text(
                                src,
                                variant@,
                                somas@.take(j as int),
                                remap@,
                                indents,
                            );
                            let last = edge_statement(e.text(), indents);
                            lemma_statements_push(sofar, Statement::Edge(e), indents);
                            assert(edges@ == sofar.push(Statement::Edge(e)));
                            assert(Statement::Edge(e).text(indents) == last);
                            assert(statements_text(sofar, indents) == first + middle);
                            assert((first + middle) + last =~= first + (middle + last));
                        }
                    }
                    j += 1;
                }
                proof {
                    assert(somas@.take(j as int) =~= somas@);
                    assert forall|indents: nat| #[trigger]
                        statements_text(edges@, indents) == statements_text(old(edges)@, indents)
                            + terminal_edges_text(
                            src,
                            terminals@.take(i + 1),
                            remap@,
                            indents,
                        ) by {
                        let first = statements_text(old(edges)@, indents);
                        let middle = terminal_edges_text(
                            src,
                            terminals@.take(i as int),
                            remap@,
                            indents,
                        );
                        let last = variadic_edges_text(src, variant@, somas@, remap@, indents);
                        assert(statements_text(done, indents) == first + middle);
                        assert((first + middle) + last =~= first + (middle + last));
                    }
                }
            },
        }
        i += 1;
    }
    proof {
        assert(terminals@.take(i as int) =~= terminals@);
    }
}

/// The text of two lists of statements, one after the other.
proof fn lemma_statements_concat(first: Seq<Statement>, second: Seq<Statement>, indents: nat)
    ensures
        statements_text(first + second, indents) == statements_text(first, indents)
            + statements_text(second, indents),
    decreases second.len(),
{
    if second.len() == 0 {
        assert(first + second =~= first);
        assert(statements_text(first, indents) + Seq::<char>::empty() =~= statements_text(
            first,
            indents,
        ));
    } else {
        lemma_statements_concat(first, second.drop_last(), indents);
        assert((first + second).drop_last() =~= first + second.drop_last());
        assert((first + second).last() == second.last());
        assert(statements_text(first, indents) + (statements_text(second.drop_last(), indents)
            + second.last().text(indents)) =~= (statements_text(first, indents) + statements_text(
            second.drop_last(),
            indents,
        )) + second.last().text(indents));
    }
}

fn soma_edges(data: &SomaData, remap: &HashMap<SomaId, SomaId>, edges: &mut Vec<Statement>)
    ensures
        forall|indents: nat| #[trigger]
            statements_text(final(edges)@, indents) == statements_text(old(edges)@, indents)
                + soma_edges_text(*data, remap@, indents),
{
    match data {
        SomaData::Axon { uuid, terminals, .. } => {
            terminal_edges(*uuid, terminals, remap, edges);
        },
        _ => {
            proof {
                assert forall|indents: nat| #[trigger]
                    statements_text(edges@, indents) == statements_text(old(edges)@, indents)
                        + soma_edges_text(*data, remap@, indents) by {
                    assert(statements_text(old(edges)@, indents) + Seq::<char>::empty()
                        =~= statements_text(old(edges)@, indents));
                }
            }
        },
    }
}

/// Whether `id` is the quoted name of the cluster of an organelle.
spec fn organelle_id_text(id: Id, uuid: SomaId) -> bool {
    id.text() == quoted("cluster_"@ + hyphenated(uuid))
}

fn render_organelle(
    uuid: SomaId,
    name: &str,
    nucleus: &SomaData,
    somas: &Vec<SomaData>,
    remap: &HashMap<SomaId, SomaId>,
    Ghost(whole): Ghost<SomaData>,
) -> (organelle: SubGraph)
    requires
        drawable(whole),
        whole matches SomaData::Organelle { nucleus: n, somas: s, uuid: u, name: m } && *n
            == *nucleus && s == *somas && u == uuid && m@ == name@,
    ensures
        forall|indents: nat| #[trigger]
            organelle.text(indents) == soma_text(whole, remap@, indents),
    decreases whole, 0nat,
{
    let mut cluster = String::from_str("cluster_");
    cluster.append(uuid_text(uuid).as_str());
    let id = Id::quoted(cluster.as_str());
    let style = Attribute::new(Id::ident("style"), Id::ident("rounded"));
    let label = Attribute::new(Id::ident("label"), Id::quoted(name));
    let selector = Selector::graph().add(style).add(label);
    let mut statements: Vec<Statement> = Vec::new();
    statements.push(Statement::Selector(selector));
    let mut edges: Vec<Statement> = Vec::new();
    let ghost head = statements@;
    proof {
        let none = Seq::<Attribute>::empty();
        lemma_attrs_push(none, style);
        lemma_attrs_push(none.push(style), label);
        assert(selector.attrs@ == none.push(style).push(label));
        assert(selector.text() =~= "graph["@ + attr_text("style"@, "rounded"@) + ","@ + attr_text(
            "label"@,
            quoted(name@),
        ) + ","@ + "]"@);
        assert(organelle_id_text(id, uuid));
        assert(head =~= Seq::<Statement>::empty().push(Statement::Selector(selector)));
        assert forall|indents: nat| #[trigger]
            statements_text(statements@, indents) == statements_text(head, indents) + somas_text(
                somas@.take(0),
                remap@,
                indents,
            ) by {
            assert(statements_text(head, indents) + Seq::<char>::empty() =~= statements_text(
                head,
                indents,
            ));
        }
        assert forall|indents: nat| #[trigger]
            statements_text(edges@, indents) == edges_text(somas@.take(0), remap@, indents) by {}
    }
    let mut i: usize = 0;
    while i < somas.len()
        invariant
            i <= somas.len(),
            drawable(whole),
            whole matches SomaData::Organelle { somas: s, .. } && s == *somas,
            forall|indents: nat| #[trigger]
                statements_text(statements@, indents) == statements_text(head, indents)
                    + somas_text(somas@.take(i as int), remap@, indents),
            forall|indents: nat| #[trigger]
                statements_text(edges@, indents) == edges_text(
                    somas@.take(i as int),
                    remap@,
                    indents,
                ),
        decreases somas.len() - i,
    {
        let ghost drawn = statements@;
        let ghost linked = edges@;
        proof {
            assert(somas@.take(i + 1).drop_last() =~= somas@.take(i as int));
            assert(somas@.take(i + 1).last() == somas@[i as int]);
            assert(drawable(somas@[i as int]));
        }
        soma_edges(&somas[i], remap, &mut edges);
        let soma = render_soma(&somas[i], remap);
        statements.push(Statement::SubGraph(soma));
        proof {
            assert forall|indents: nat| #[trigger]
                statements_text(statements@, indents) == statements_text(head, indents)
                    + somas_text(somas@.take(i + 1), remap@, indents) by {
                lemma_statements_push(drawn, Statement::SubGraph(soma), indents);
                assert(soma.text(indents) == soma_text(somas@[i as int], remap@, indents));
                let first = statements_text(head, indents);
                let middle = somas_text(somas@.take(i as int), remap@, indents);
                let last = soma_text(somas@[i as int], remap@, indents);
                assert(statements_text(drawn, indents) == first + middle);
                assert((first + middle) + last =~= first + (middle + last));
            }
            assert forall|indents: nat| #[trigger]
                statements_text(edges@, indents) == edges_text(
                    somas@.take(i + 1),
                    remap@,
                    indents,
                ) by {
                assert(statements_text(linked, indents) == edges_text(
                    somas@.take(i as int),
                    remap@,
                    indents,
                ));
            }
        }
        i += 1;
    }
    let ghost drawn = statements@;
    let ghost linked = edges@;
    soma_edges(nucleus, remap, &mut edges);
    let center = render_soma(nucleus, remap);
    statements.push(Statement::SubGraph(center));
    let ghost body = statements@;
    let ghost links = edges@;
    statements.append(&mut edges);
    let organelle = SubGraph { strict: false, id: Some(id), statements };
    proof {
        assert(somas@.take(i as int) =~= somas@);
        assert(organelle_id_text(id, uuid));
        assert forall|indents: nat| #[trigger]
            organelle.text(indents) == soma_text(whole, remap@, indents) by {
            let deeper = (indents + 1) as nat;
            let head_text = cluster_head_text(name@, deeper);
            let somas_part = somas_text(somas@, remap@, deeper);
            let center_part = soma_text(*nucleus, remap@, deeper);
            let edges_part = edges_text(somas@, remap@, deeper);
            let center_edges = soma_edges_text(*nucleus, remap@, deeper);
            let inside = head_text + somas_part + center_part + edges_part + center_edges;
            assert(statements_text(head, deeper) == head_text) by {
                lemma_statements_push(Seq::empty(), Statement::Selector(selector), deeper);
            }
            assert(statements_text(body, deeper) == head_text + somas_part + center_part) by {
                lemma_statements_push(drawn, Statement::SubGraph(center), deeper);
                assert(center.text(deeper) == center_part);
                assert(statements_text(drawn, deeper) == statements_text(head, deeper)
                    + somas_part);
            }
            assert(statements_text(links, deeper) == edges_part + center_edges) by {
                assert(statements_text(linked, deeper) == edges_part);
            }
            assert(statements_text(organelle.statements@, deeper) == inside) by {
                lemma_statements_concat(body, links, deeper);
                assert(organelle.statements@ == body + links);
                assert((head_text + somas_part + center_part) + (edges_part + center_edges)
                    =~= inside);
            }
            assert(organelle.strict_text() =~= Seq::<char>::empty());
            assert(organelle.text(indents) =~= cluster_text(
                "cluster_"@ + hyphenated(uuid),
                inside,
                indents,
            ));
        }
    }
    organelle
}

/// draw a soma: an organelle as a cluster, an axon as a record
pub fn render_soma(data: &SomaData, remap: &HashMap<SomaId, SomaId>) -> (soma: SubGraph)
    requires
        drawable(*data),
    ensures
        forall|indents: nat| #[trigger] soma.text(indents) == soma_text(*data, remap@, indents),
    decreases data, 1nat,
{
    match data {
        SomaData::Organelle { uuid, nucleus, somas, name } => render_organelle(
            *uuid,
            name.as_str(),
            nucleus,
            somas,
            remap,
            Ghost(*data),
        ),
        SomaData::Axon { terminals, dendrites, uuid, name } => render_axon(
            *uuid,
            name.as_str(),
            terminals,
            dendrites,
        ),
        SomaData::Soma { .. } => unreached(),
    }
}

/// draw the whole structure as a DOT graph
pub fn render_dot(data: &SomaData) -> (viz: String)
    requires
        drawable(*data),
    ensures
        viz@ == dot_text(*data),
{
    let mut remap: HashMap<SomaId, SomaId> = HashMap::new();
    remap_uuids(data, &mut remap);
    let soma = render_soma(data, &remap);
    let rankdir = Attribute::new(Id::ident("rankdir"), Id::ident("LR"));
    let graph = SubGraph::new().add(soma).add(rankdir);
    let dot = Dot::DiGraph(graph);
    let mut viz = String::new();
    dot.render(&mut viz);
    proof {
        let none = Seq::<Statement>::empty();
        lemma_statements_push(none, Statement::SubGraph(soma), 1);
        lemma_statements_push(none.push(Statement::SubGraph(soma)), Statement::Attribute(rankdir), 1);
        assert(graph.statements@ == none.push(Statement::SubGraph(soma)).push(
            Statement::Attribute(rankdir),
        ));
        assert(soma.text(1) == soma_text(*data, remap@, 1));
        assert(rankdir.text() == attr_text("rankdir"@, "LR"@));
        assert(viz@ =~= dot_text(*data));
    }
    viz
}

} // verus!
