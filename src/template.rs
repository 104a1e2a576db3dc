use vstd::prelude::*;
use crate::bindings::{latest, Bindings};
use crate::error::{fresh, traced, Error, ErrorKind, SpecError, SpecErrorKind};

verus! {

/// A compiled node, as the contracts see it.
pub enum SpecNode {
    Text(Seq<char>),
    Variable(Seq<char>),
    Assign(Seq<char>, Seq<char>),
    Partial(Seq<char>, Seq<SpecNode>),
}

/// A compiled node: literal text, a variable's value, an assignment, or an
/// included partial.
#[derive(Debug)]
pub enum Node {
    Text(String),
    Variable(String),
    Assign(String, String),
    Partial(Box<Include>),
}

/// An included partial: its name, for diagnostics, and its compiled content.
/// Both are fixed once the node is built.
#[derive(Debug)]
pub struct Include {
    name: String,
    partial: Template,
}

/// A compiled template, ready to render.
#[derive(Debug)]
pub struct Template {
    nodes: Vec<Node>,
}

pub closed spec fn node_view(n: Node) -> SpecNode
    decreases n,
    via node_view_decreases
{
    match n {
        Node::Text(s) => SpecNode::Text(s@),
        Node::Variable(s) => SpecNode::Variable(s@),
        Node::Assign(k, v) => SpecNode::Assign(k@, v@),
        Node::Partial(b) => SpecNode::Partial(
            b.name@,
            Seq::new(
                b.partial.nodes@.len(),
                |i: int|
                    if 0 <= i < b.partial.nodes@.len() {
                        node_view(b.partial.nodes@[i])
                    } else {
                        SpecNode::Text(Seq::empty())
                    },
            ),
        ),
    }
}

#[via_fn]
proof fn node_view_decreases(n: Node) {
    broadcast use vstd::std_specs::vec::group_vec_axioms;

    match n {
        Node::Partial(b) => {
            assert forall|i: int| 0 <= i < b.partial.nodes@.len() implies decreases_to!(n => b.partial.nodes@[i]) by {
                assert(decreases_to!(b.partial.nodes => b.partial.nodes@));
            }
        },
        _ => {},
    }
}

impl View for Node {
    type V = SpecNode;

    open spec fn view(&self) -> SpecNode {
        node_view(*self)
    }
}

pub open spec fn nodes_view(v: Seq<Node>) -> Seq<SpecNode> {
    v.map_values(|n: Node| n@)
}

impl View for Template {
    type V = Seq<SpecNode>;

    closed spec fn view(&self) -> Seq<SpecNode> {
        nodes_view(self.nodes@)
    }
}

impl View for Include {
    type V = SpecNode;

    closed spec fn view(&self) -> SpecNode {
        SpecNode::Partial(self.name@, self.partial@)
    }
}

proof fn lemma_partial_view(b: Box<Include>)
    ensures
        Node::Partial(b)@ == (*b)@,
{
    let v = node_view(Node::Partial(b));
    let sub = nodes_view(b.partial.nodes@);
    assert(v is Partial);
    assert(v->Partial_0 == b.name@);
    assert(v->Partial_1.len() == sub.len());
    assert forall|i: int| 0 <= i < sub.len() implies v->Partial_1[i] == sub[i] by {
        assert(sub[i] == b.partial.nodes@[i]@);
    }
    assert(v->Partial_1 =~= sub);
}

impl Node {
    pub fn text(s: String) -> (r: Node)
        ensures
            r@ == SpecNode::Text(s@),
    {
        Node::Text(s)
    }

    pub fn variable(name: String) -> (r: Node)
        ensures
            r@ == SpecNode::Variable(name@),
    {
        Node::Variable(name)
    }

    pub fn assign(name: String, value: String) -> (r: Node)
        ensures
            r@ == SpecNode::Assign(name@, value@),
    {
        Node::Assign(name, value)
    }

    pub fn partial(inc: Include) -> (r: Node)
        ensures
            r@ == inc@,
    {
        let b = Box::new(inc);
        proof {
            lemma_partial_view(b);
        }
        Node::Partial(b)
    }
}

impl Include {
    pub fn new(name: String, partial: Template) -> (r: Include)
        ensures
            r@ == SpecNode::Partial(name@, partial@),
    {
        Include { name, partial }
    }

    pub fn name(&self) -> (r: &String)
        ensures
            self@ == SpecNode::Partial(r@, self@->Partial_1),
    {
        &self.name
    }
}

impl Template {
    pub fn new(nodes: Vec<Node>) -> (r: Template)
        ensures
            r@ == nodes_view(nodes@),
    {
        Template { nodes }
    }

    pub fn len(&self) -> (r: usize)
        ensures
            r == self@.len(),
    {
        self.nodes.len()
    }
}

/// The variables visible while rendering; an assignment shadows earlier ones.
#[derive(Debug)]
pub struct Context {
    vars: Bindings,
}

impl View for Context {
    type V = Seq<(Seq<char>, Seq<char>)>;

    closed spec fn view(&self) -> Seq<(Seq<char>, Seq<char>)> {
        self.vars@
    }
}

impl Context {
    pub fn new() -> (r: Context)
        ensures
            r@ == Seq::<(Seq<char>, Seq<char>)>::empty(),
    {
        Context { vars: Bindings::new() }
    }

    pub fn set_val(&mut self, name: String, value: String)
        ensures
            final(self)@ == old(self)@.push((name@, value@)),
    {
        self.vars.set(name, value);
    }

    pub fn get_val(&self, name: &str) -> (r: Option<String>)
        ensures
            match r {
                Some(v) => latest(self@, name@) == Some(v@),
                None => latest(self@, name@) is None,
            },
    {
        self.vars.get(name)
    }
}

/// The annotation that a partial adds to an error passing through it.
pub open spec fn partial_label(name: Seq<char>) -> Seq<char> {
    "{% include "@ + name + " %}"@
}

/// The state of a render: the output so far, the variables, and the error
/// that stopped it, if one did.
pub struct Rendered {
    pub out: Seq<char>,
    pub vars: Seq<(Seq<char>, Seq<char>)>,
    pub error: Option<SpecError>,
}

/// Renders one node after output `out` with variables `vars`.
pub open spec fn render_node(n: SpecNode, out: Seq<char>, vars: Seq<(Seq<char>, Seq<char>)>) -> Rendered
    decreases n, 0int,
{
    match n {
        SpecNode::Text(t) => Rendered { out: out + t, vars, error: None },
        SpecNode::Variable(name) => match latest(vars, name) {
            Some(v) => Rendered { out: out + v, vars, error: None },
            None => Rendered {
                out,
                vars,
                error: Some(fresh(SpecErrorKind::UnknownVariable { name })),
            },
        },
        SpecNode::Assign(k, v) => Rendered { out, vars: vars.push((k, v)), error: None },
        SpecNode::Partial(name, sub) => {
            let r = render_from(sub, 0, out, vars);
            Rendered {
                out: r.out,
                vars: r.vars,
                error: match r.error {
                    Some(e) => Some(traced(e, partial_label(name))),
                    None => None,
                },
            }
        },
    }
}

/// Renders the nodes of `ns` from `i` on, stopping at the first error.
pub open spec fn render_from(ns: Seq<SpecNode>, i: int, out: Seq<char>, vars: Seq<(Seq<char>, Seq<char>)>) -> Rendered
    decreases ns, ns.len() - i,
{
    if i < 0 || i >= ns.len() {
        Rendered { out, vars, error: None }
    } else {
        let r = render_node(ns[i], out, vars);
        if r.error is Some {
            r
        } else {
            render_from(ns, i + 1, r.out, r.vars)
        }
    }
}

/// Renders a whole sequence of nodes.
pub open spec fn render_spec(ns: Seq<SpecNode>, out: Seq<char>, vars: Seq<(Seq<char>, Seq<char>)>) -> Rendered {
    render_from(ns, 0, out, vars)
}

pub open spec fn outcome(out: Seq<char>, vars: Seq<(Seq<char>, Seq<char>)>, r: Result<(), Error>) -> Rendered {
    Rendered {
        out,
        vars,
        error: match r {
            Ok(_) => None,
            Err(e) => Some(e@),
        },
    }
}

pub fn partial_label_text(name: &String) -> (r: String)
    ensures
        r@ == partial_label(name@),
{
    let mut r = String::new();
    r.append("{% include ");
    r.append(name.as_str());
    r.append(" %}");
    r
}

impl Node {
    /// Renders this node, appending to `out`.
    pub fn render_to(&self, out: &mut String, ctx: &mut Context) -> (r: Result<(), Error>)
        ensures
            render_node(self@, old(out)@, old(ctx)@) == outcome(final(out)@, final(ctx)@, r),
        decreases self,
    {
        match self {
            Node::Text(t) => {
                out.append(t.as_str());
                Ok(())
            },
            Node::Variable(name) => match ctx.get_val(name.as_str()) {
                Some(v) => {
                    out.append(v.as_str());
                    Ok(())
                },
                None => Err(Error::new(ErrorKind::UnknownVariable { name: name.clone() })),
            },
            Node::Assign(k, v) => {
                ctx.set_val(k.clone(), v.clone());
                Ok(())
            },
            Node::Partial(b) => {
                proof {
                    lemma_partial_view(*b);
                }
                b.render_to(out, ctx)
            },
        }
    }
}

impl Include {
    /// Renders the partial into `out` with the caller's own context; an
    /// error coming out of it is annotated with this partial's label.
    pub fn render_to(&self, out: &mut String, ctx: &mut Context) -> (r: Result<(), Error>)
        ensures
            render_node(self@, old(out)@, old(ctx)@) == outcome(final(out)@, final(ctx)@, r),
        decreases self,
    {
        match self.partial.render_to(out, ctx) {
            Ok(()) => Ok(()),
            Err(e) => Err(e.trace_with(partial_label_text(&self.name))),
        }
    }
}

impl Template {
    /// Renders every node in order, appending to `out`, and stops at the first error.
    pub fn render_to(&self, out: &mut String, ctx: &mut Context) -> (r: Result<(), Error>)
        ensures
            render_spec(self@, old(out)@, old(ctx)@) == outcome(final(out)@, final(ctx)@, r),
        decreases self,
    {
        let mut i: usize = 0;
        while i < self.nodes.len()
            invariant
                i <= self.nodes@.len(),
                render_spec(self@, old(out)@, old(ctx)@) == render_from(self@, i as int, out@, ctx@),
            decreases self.nodes@.len() - i,
        {
            proof {
                broadcast use vstd::std_specs::vec::group_vec_axioms;
                assert(decreases_to!(self.nodes => self.nodes@));
                assert(decreases_to!(self => self.nodes@[i as int]));
            }
            match self.nodes[i].render_to(out, ctx) {
                Ok(()) => {},
                Err(e) => {
                    return Err(e);
                },
            }
            i = i + 1;
        }
        Ok(())
    }

    /// Renders into a fresh string.
    pub fn render(&self, ctx: &mut Context) -> (r: Result<String, Error>)
        ensures
            ({
                let s = render_spec(self@, Seq::empty(), old(ctx)@);
                &&& s.vars == final(ctx)@
                &&& match r {
                    Ok(o) => s.error is None && s.out == o@,
                    Err(e) => s.error == Some(e@),
                }
            }),
    {
        let mut out = String::new();
        match self.render_to(&mut out, ctx) {
            Ok(()) => Ok(out),
            Err(e) => Err(e),
        }
    }
}

} // verus!
