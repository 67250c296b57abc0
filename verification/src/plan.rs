//! Execution plan trees, and their serialised and human-readable text forms.

use vstd::prelude::*;
use crate::text::{push_char, push_str, chars_of, is_whitespace, unicode_white_space};
use crate::docpath::{DocPath, Step, path_text};
use crate::value::{NodeValue, NodeVal, value_text};
use crate::result::{NodeResult, NodeRes, opt_result_view, result_text, copy_opt_result};

verus! {

/// The type of a plan node.
#[derive(Debug)]
#[allow(non_camel_case_types)]
pub enum PlanNodeType {
    /// Empty node
    EMPTY,
    /// Container node with a label
    CONTAINER(String),
    /// Action node with a function reference
    ACTION(String),
    /// Leaf node that contains a value
    VALUE(NodeValue),
    /// Leaf node that stores an expression to resolve against the test context
    RESOLVE(DocPath),
    /// Pipeline node (apply), which applies each node to the next as a pipeline returning the last
    PIPELINE,
    /// Leaf node that stores an expression to resolve against the current stack item
    RESOLVE_CURRENT(DocPath),
    /// Leaf node that describes the nodes around it
    ANNOTATION(String),
}

/// The model of a node type.
#[allow(non_camel_case_types)]
pub enum PlanKind {
    EMPTY,
    CONTAINER(Seq<char>),
    ACTION(Seq<char>),
    VALUE(NodeVal),
    RESOLVE(Seq<Step>),
    PIPELINE,
    RESOLVE_CURRENT(Seq<Step>),
    ANNOTATION(Seq<char>),
}

impl View for PlanNodeType {
    type V = PlanKind;

    open spec fn view(&self) -> PlanKind {
        match *self {
            PlanNodeType::EMPTY => PlanKind::EMPTY,
            PlanNodeType::CONTAINER(l) => PlanKind::CONTAINER(l@),
            PlanNodeType::ACTION(a) => PlanKind::ACTION(a@),
            PlanNodeType::VALUE(v) => PlanKind::VALUE(v@),
            PlanNodeType::RESOLVE(p) => PlanKind::RESOLVE(p@),
            PlanNodeType::PIPELINE => PlanKind::PIPELINE,
            PlanNodeType::RESOLVE_CURRENT(p) => PlanKind::RESOLVE_CURRENT(p@),
            PlanNodeType::ANNOTATION(a) => PlanKind::ANNOTATION(a@),
        }
    }
}

impl PlanNodeType {
    /// A copy of this node type.
    pub fn copy(&self) -> (r: PlanNodeType)
        ensures
            r@ == self@,
    {
        match self {
            PlanNodeType::EMPTY => PlanNodeType::EMPTY,
            PlanNodeType::CONTAINER(l) => PlanNodeType::CONTAINER(l.clone()),
            PlanNodeType::ACTION(a) => PlanNodeType::ACTION(a.clone()),
            PlanNodeType::VALUE(v) => PlanNodeType::VALUE(v.copy()),
            PlanNodeType::RESOLVE(p) => PlanNodeType::RESOLVE(p.copy()),
            PlanNodeType::PIPELINE => PlanNodeType::PIPELINE,
            PlanNodeType::RESOLVE_CURRENT(p) => PlanNodeType::RESOLVE_CURRENT(p.copy()),
            PlanNodeType::ANNOTATION(a) => PlanNodeType::ANNOTATION(a.clone()),
        }
    }
}

/// Node in an executable plan tree.
#[derive(Debug)]
pub struct ExecutionPlanNode {
    /// Type of the node
    pub node_type: PlanNodeType,
    /// Any result associated with the node
    pub result: Option<NodeResult>,
    /// Child nodes
    pub children: Vec<ExecutionPlanNode>,
}

/// The model of a plan node.
pub struct PlanNode {
    pub kind: PlanKind,
    pub result: Option<NodeRes>,
    pub children: Seq<PlanNode>,
}

/// The model of a plan node.
pub open spec fn plan_view(n: ExecutionPlanNode) -> PlanNode
    decreases n, 1nat,
{
    proof { vstd::std_specs::vec::axiom_vec_decreases_to_view(n.children); }
    PlanNode {
        kind: n.node_type@,
        result: opt_result_view(n.result),
        children: plan_views(n.children@),
    }
}

/// The models of a sequence of plan nodes.
pub open spec fn plan_views(xs: Seq<ExecutionPlanNode>) -> Seq<PlanNode>
    decreases xs, 0nat,
{
    if xs.len() == 0 {
        Seq::empty()
    } else {
        plan_views(xs.drop_last()).push(plan_view(xs.last()))
    }
}

impl View for ExecutionPlanNode {
    type V = PlanNode;

    open spec fn view(&self) -> PlanNode {
        plan_view(*self)
    }
}

/// The models of a sequence of plan nodes, element by element.
pub proof fn lemma_plan_views(xs: Seq<ExecutionPlanNode>)
    ensures
        plan_views(xs).len() == xs.len(),
        forall|i: int| 0 <= i < xs.len() ==> #[trigger] plan_views(xs)[i] == plan_view(xs[i]),
    decreases xs.len(),
{
    if xs.len() > 0 {
        lemma_plan_views(xs.drop_last());
    }
}

/// Whether a node is a leaf: an empty node, or one without children.
pub open spec fn node_is_empty(n: PlanNode) -> bool {
    match n.kind {
        PlanKind::EMPTY => true,
        _ => n.children.len() == 0,
    }
}

/// Whether some character of a label is whitespace.
pub open spec fn has_whitespace(l: Seq<char>) -> bool {
    exists|i: int| 0 <= i < l.len() && unicode_white_space(#[trigger] l[i])
}

/// A container label, in double quotes when it holds whitespace.
pub open spec fn label_text(l: Seq<char>) -> Seq<char> {
    if has_whitespace(l) { seq!['"'] + l + seq!['"'] } else { l }
}

/// The text of a result after an arrow, or nothing when there is no result.
pub open spec fn result_suffix(r: Option<NodeRes>, arrow: Seq<char>) -> Seq<char> {
    match r {
        Some(x) => arrow + result_text(x),
        None => Seq::empty(),
    }
}

/// The serialised text form of a node.
pub open spec fn node_str(n: PlanNode) -> Seq<char>
    decreases n, 0nat,
{
    let inner = match n.kind {
        PlanKind::EMPTY => Seq::empty(),
        PlanKind::CONTAINER(l) => seq![':'] + label_text(l) + seq!['('] + children_str(n.children, n.children.len()) + seq![')'],
        PlanKind::ACTION(a) => seq!['%'] + a + seq!['('] + children_str(n.children, n.children.len()) + seq![')'] + result_suffix(n.result, "=>"@),
        PlanKind::VALUE(v) => value_text(v) + result_suffix(n.result, "=>"@),
        PlanKind::RESOLVE(p) => path_text(p) + result_suffix(n.result, "=>"@),
        PlanKind::PIPELINE => "->("@ + children_str(n.children, n.children.len()) + seq![')'] + result_suffix(n.result, "=>"@),
        PlanKind::RESOLVE_CURRENT(p) => "~>"@ + path_text(p) + result_suffix(n.result, "=>"@),
        PlanKind::ANNOTATION(a) => "#{"@ + value_text(NodeVal::STRING(a)) + seq!['}'],
    };
    seq!['('] + inner + seq![')']
}

/// The serialised forms of the first `k` children, separated by commas.
pub open spec fn children_str(cs: Seq<PlanNode>, k: nat) -> Seq<char>
    decreases cs, k,
{
    if k == 0 || k > cs.len() {
        Seq::empty()
    } else {
        children_str(cs, (k - 1) as nat) + (if k > 1 { seq![','] } else { Seq::empty() }) + node_str(cs[k - 1])
    }
}

/// `n` spaces.
pub open spec fn spaces(n: nat) -> Seq<char> {
    Seq::new(n, |i: int| ' ')
}

/// The human-readable text form of a node, indented by `indent` spaces.
pub open spec fn node_pretty(n: PlanNode, indent: nat) -> Seq<char>
    decreases n, 0nat,
{
    let pad = spaces(indent);
    let body = if node_is_empty(n) {
        " ()"@
    } else {
        " (\n"@ + children_pretty(n.children, n.children.len(), indent) + pad + seq![')']
    };
    match n.kind {
        PlanKind::EMPTY => Seq::empty(),
        PlanKind::CONTAINER(l) => pad + seq![':'] + label_text(l) + body,
        PlanKind::ACTION(a) => pad + seq!['%'] + a + body + result_suffix(n.result, " => "@),
        PlanKind::VALUE(v) => pad + value_text(v) + result_suffix(n.result, " => "@),
        PlanKind::RESOLVE(p) => pad + path_text(p) + result_suffix(n.result, " => "@),
        PlanKind::PIPELINE => pad + "->"@ + body + result_suffix(n.result, " => "@),
        PlanKind::RESOLVE_CURRENT(p) => pad + "~>"@ + path_text(p) + result_suffix(n.result, " => "@),
        PlanKind::ANNOTATION(a) => pad + "#{"@ + value_text(NodeVal::STRING(a)) + seq!['}'],
    }
}

/// The human-readable forms of the first `k` children of a node indented by `indent`:
/// each child indented two more, followed by a comma unless it is the last, and a newline.
pub open spec fn children_pretty(cs: Seq<PlanNode>, k: nat, indent: nat) -> Seq<char>
    decreases cs, k,
{
    if k == 0 || k > cs.len() {
        Seq::empty()
    } else {
        children_pretty(cs, (k - 1) as nat, indent) + node_pretty(cs[k - 1], indent + 2)
            + (if k < cs.len() { seq![','] } else { Seq::empty() }) + seq!['\n']
    }
}

/// The height of a plan tree.
pub open spec fn plan_height(n: PlanNode) -> nat
    decreases n, 0nat,
{
    1 + children_height(n.children, n.children.len())
}

/// The greatest height among the first `k` children.
pub open spec fn children_height(cs: Seq<PlanNode>, k: nat) -> nat
    decreases cs, k,
{
    if k == 0 || k > cs.len() {
        0
    } else {
        let a = children_height(cs, (k - 1) as nat);
        let b = plan_height(cs[k - 1]);
        if a >= b { a } else { b }
    }
}

/// Each of the first `k` children is no higher than their greatest height.
pub proof fn lemma_children_height(cs: Seq<PlanNode>, k: nat, i: int)
    requires
        k <= cs.len(),
        0 <= i < k,
    ensures
        plan_height(cs[i]) <= children_height(cs, k),
    decreases k,
{
    if i < k - 1 {
        lemma_children_height(cs, (k - 1) as nat, i);
    }
}

fn push_spaces(buf: &mut String, n: usize)
    ensures
        final(buf)@ == old(buf)@ + spaces(n as nat),
{
    let mut i: usize = 0;
    while i < n
        invariant
            i <= n,
            buf@ == old(buf)@ + spaces(i as nat),
        decreases n - i,
    {
        push_char(buf, ' ');
        i = i + 1;
        assert(buf@ =~= old(buf)@ + spaces(i as nat));
    }
}

fn push_label(buf: &mut String, label: &str)
    ensures
        final(buf)@ == old(buf)@ + label_text(label@),
{
    let cs = chars_of(label);
    let mut ws = false;
    let mut i: usize = 0;
    while i < cs.len()
        invariant
            cs@ == label@,
            i <= cs.len(),
            ws == exists|j: int| 0 <= j < i && unicode_white_space(#[trigger] cs@[j]),
        decreases cs.len() - i,
    {
        if is_whitespace(cs[i]) {
            ws = true;
        }
        i = i + 1;
    }
    if ws {
        push_char(buf, '"');
        push_str(buf, label);
        push_char(buf, '"');
    } else {
        push_str(buf, label);
    }
    assert(buf@ =~= old(buf)@ + label_text(label@));
}

fn push_result_suffix(buf: &mut String, r: &Option<NodeResult>, arrow: &str)
    ensures
        final(buf)@ == old(buf)@ + result_suffix(opt_result_view(*r), arrow@),
{
    match r {
        Some(x) => {
            push_str(buf, arrow);
            x.write_text(buf);
        },
        None => {},
    }
    assert(buf@ =~= old(buf)@ + result_suffix(opt_result_view(*r), arrow@));
}

impl ExecutionPlanNode {
    /// A copy of this node and its subtree.
    pub fn copy(&self) -> (r: ExecutionPlanNode)
        ensures
            r@ == self@,
        decreases self,
    {
        proof { lemma_plan_views(self.children@); }
        let mut out: Vec<ExecutionPlanNode> = Vec::new();
        let mut i: usize = 0;
        while i < self.children.len()
            invariant
                i <= self.children.len(),
                out.len() == i,
                forall|j: int| 0 <= j < i ==> plan_view(#[trigger] out@[j]) == plan_view(self.children@[j]),
            decreases self.children.len() - i,
        {
            proof {
                vstd::std_specs::vec::axiom_vec_index_decreases(self.children, i as int);
                assert(decreases_to!(*self => self.children));
                assert(decreases_to!(*self => self.children[i as int]));
            }
            let c = self.children[i].copy();
            out.push(c);
            i = i + 1;
        }
        proof { lemma_plan_views(out@); }
        assert(plan_views(out@) =~= plan_views(self.children@));
        ExecutionPlanNode {
            node_type: self.node_type.copy(),
            result: copy_opt_result(&self.result),
            children: out,
        }
    }

    /// Constructor for a container node.
    pub fn container(label: &str) -> (r: ExecutionPlanNode)
        ensures
            r@ == (PlanNode { kind: PlanKind::CONTAINER(label@), result: None, children: Seq::empty() }),
    {
        let r = ExecutionPlanNode {
            node_type: PlanNodeType::CONTAINER(label.to_string()),
            result: None,
            children: Vec::new(),
        };
        assert(r@.children =~= Seq::<PlanNode>::empty());
        r
    }

    /// Constructor for an action node.
    pub fn action(value: &str) -> (r: ExecutionPlanNode)
        ensures
            r@ == (PlanNode { kind: PlanKind::ACTION(value@), result: None, children: Seq::empty() }),
    {
        let r = ExecutionPlanNode {
            node_type: PlanNodeType::ACTION(value.to_string()),
            result: None,
            children: Vec::new(),
        };
        assert(r@.children =~= Seq::<PlanNode>::empty());
        r
    }

    /// Constructor for a value node.
    pub fn value_node(value: NodeValue) -> (r: ExecutionPlanNode)
        ensures
            r@ == (PlanNode { kind: PlanKind::VALUE(value@), result: None, children: Seq::empty() }),
    {
        let r = ExecutionPlanNode {
            node_type: PlanNodeType::VALUE(value),
            result: None,
            children: Vec::new(),
        };
        assert(r@.children =~= Seq::<PlanNode>::empty());
        r
    }

    /// Constructor for a resolve node.
    pub fn resolve_value(path: DocPath) -> (r: ExecutionPlanNode)
        ensures
            r@ == (PlanNode { kind: PlanKind::RESOLVE(path@), result: None, children: Seq::empty() }),
    {
        let r = ExecutionPlanNode {
            node_type: PlanNodeType::RESOLVE(path),
            result: None,
            children: Vec::new(),
        };
        assert(r@.children =~= Seq::<PlanNode>::empty());
        r
    }

    /// Constructor for a resolve current node.
    pub fn resolve_current_value(path: DocPath) -> (r: ExecutionPlanNode)
        ensures
            r@ == (PlanNode { kind: PlanKind::RESOLVE_CURRENT(path@), result: None, children: Seq::empty() }),
    {
        let r = ExecutionPlanNode {
            node_type: PlanNodeType::RESOLVE_CURRENT(path),
            result: None,
            children: Vec::new(),
        };
        assert(r@.children =~= Seq::<PlanNode>::empty());
        r
    }

    /// Constructor for an annotation node.
    pub fn annotation(text: &str) -> (r: ExecutionPlanNode)
        ensures
            r@ == (PlanNode { kind: PlanKind::ANNOTATION(text@), result: None, children: Seq::empty() }),
    {
        let r = ExecutionPlanNode {
            node_type: PlanNodeType::ANNOTATION(text.to_string()),
            result: None,
            children: Vec::new(),
        };
        assert(r@.children =~= Seq::<PlanNode>::empty());
        r
    }

    /// Constructor for an apply (pipeline) node.
    pub fn apply() -> (r: ExecutionPlanNode)
        ensures
            r@ == (PlanNode { kind: PlanKind::PIPELINE, result: None, children: Seq::empty() }),
    {
        let r = ExecutionPlanNode {
            node_type: PlanNodeType::PIPELINE,
            result: None,
            children: Vec::new(),
        };
        assert(r@.children =~= Seq::<PlanNode>::empty());
        r
    }

    /// Adds the node as the last child.
    pub fn add(&mut self, node: ExecutionPlanNode)
        ensures
            final(self)@ == (PlanNode { children: old(self)@.children.push(node@), ..old(self)@ }),
    {
        let ghost before = self.children@;
        self.children.push(node);
        proof {
            assert(self.children@.drop_last() == before);
        }
        assert(self@.children =~= old(self)@.children.push(node@));
    }

    /// This node with the given node added as its last child.
    pub fn with(self, node: ExecutionPlanNode) -> (r: ExecutionPlanNode)
        ensures
            r@ == (PlanNode { children: self@.children.push(node@), ..self@ }),
    {
        let mut s = self;
        s.add(node);
        s
    }

    /// Pushes the node onto the front of the list of children.
    pub fn push_node(&mut self, node: ExecutionPlanNode)
        ensures
            final(self)@ == (PlanNode { children: seq![node@] + old(self)@.children, ..old(self)@ }),
    {
        proof { lemma_plan_views(self.children@); }
        self.children.insert(0, node);
        proof { lemma_plan_views(self.children@); }
        assert(self@.children =~= seq![node@] + old(self)@.children);
    }

    /// If the node is a leaf node.
    pub fn is_empty(&self) -> (r: bool)
        ensures
            r == node_is_empty(self@),
    {
        proof { lemma_plan_views(self.children@); }
        match self.node_type {
            PlanNodeType::EMPTY => true,
            _ => self.children.len() == 0,
        }
    }

    /// Returns the value for the node.
    pub fn value(&self) -> (r: Option<NodeResult>)
        ensures
            opt_result_view(r) == self@.result,
    {
        copy_opt_result(&self.result)
    }

    /// Returns the serialised text form of the node.
    pub fn str_form(&self) -> (r: String)
        ensures
            r@ == node_str(self@),
    {
        let mut s = String::new();
        self.write_str_form(&mut s);
        assert(s@ =~= node_str(self@));
        s
    }

    fn write_children_str(&self, buf: &mut String)
        ensures
            final(buf)@ == old(buf)@ + children_str(self@.children, self@.children.len()),
        decreases self, 0nat,
    {
        proof { lemma_plan_views(self.children@); }
        let mut i: usize = 0;
        while i < self.children.len()
            invariant
                i <= self.children.len(),
                plan_views(self.children@).len() == self.children.len(),
                forall|j: int| 0 <= j < self.children.len() ==> #[trigger] plan_views(self.children@)[j] == plan_view(self.children@[j]),
                buf@ == old(buf)@ + children_str(self@.children, i as nat),
            decreases self.children.len() - i,
        {
            proof {
                vstd::std_specs::vec::axiom_vec_index_decreases(self.children, i as int);
                assert(decreases_to!(*self => self.children));
                assert(decreases_to!(*self => self.children[i as int]));
            }
            if i > 0 {
                push_char(buf, ',');
            }
            self.children[i].write_str_form(buf);
            i = i + 1;
            assert(buf@ =~= old(buf)@ + children_str(self@.children, i as nat));
        }
    }

    /// Appends the serialised text form of the node.
    pub fn write_str_form(&self, buf: &mut String)
        ensures
            final(buf)@ == old(buf)@ + node_str(self@),
        decreases self, 1nat,
    {
        proof {
            reveal_strlit("=>");
            reveal_strlit("->(");
            reveal_strlit("~>");
            reveal_strlit("#{");
        }
        push_char(buf, '(');
        match &self.node_type {
            PlanNodeType::EMPTY => {},
            PlanNodeType::CONTAINER(label) => {
                push_char(buf, ':');
                push_label(buf, label.as_str());
                push_char(buf, '(');
                self.write_children_str(buf);
                push_char(buf, ')');
            },
            PlanNodeType::ACTION(value) => {
                push_char(buf, '%');
                push_str(buf, value.as_str());
                push_char(buf, '(');
                self.write_children_str(buf);
                push_char(buf, ')');
                push_result_suffix(buf, &self.result, "=>");
            },
            PlanNodeType::VALUE(value) => {
                value.write_str_form(buf);
                push_result_suffix(buf, &self.result, "=>");
            },
            PlanNodeType::RESOLVE(path) => {
                path.write_to(buf);
                push_result_suffix(buf, &self.result, "=>");
            },
            PlanNodeType::PIPELINE => {
                push_str(buf, "->(");
                self.write_children_str(buf);
                push_char(buf, ')');
                push_result_suffix(buf, &self.result, "=>");
            },
            PlanNodeType::RESOLVE_CURRENT(path) => {
                push_str(buf, "~>");
                path.write_to(buf);
                push_result_suffix(buf, &self.result, "=>");
            },
            PlanNodeType::ANNOTATION(text) => {
                push_str(buf, "#{");
                crate::value::push_escaped(buf, text.as_str());
                push_char(buf, '}');
            },
        }
        push_char(buf, ')');
        assert(buf@ =~= old(buf)@ + node_str(self@));
    }

    fn write_children_pretty(&self, buf: &mut String, indent: usize)
        requires
            indent + 2 * plan_height(self@) <= usize::MAX,
        ensures
            final(buf)@ == old(buf)@ + children_pretty(self@.children, self@.children.len(), indent as nat),
        decreases self, 0nat,
    {
        proof { lemma_plan_views(self.children@); }
        let mut i: usize = 0;
        while i < self.children.len()
            invariant
                i <= self.children.len(),
                indent + 2 * plan_height(self@) <= usize::MAX,
                plan_views(self.children@).len() == self.children.len(),
                forall|j: int| 0 <= j < self.children.len() ==> #[trigger] plan_views(self.children@)[j] == plan_view(self.children@[j]),
                buf@ == old(buf)@ + children_pretty(self@.children, i as nat, indent as nat),
            decreases self.children.len() - i,
        {
            proof {
                vstd::std_specs::vec::axiom_vec_index_decreases(self.children, i as int);
                assert(decreases_to!(*self => self.children));
                assert(decreases_to!(*self => self.children[i as int]));
                lemma_children_height(self@.children, self@.children.len(), i as int);
            }
            self.children[i].pretty_form(buf, indent + 2);
            if i + 1 < self.children.len() {
                push_char(buf, ',');
            }
            push_char(buf, '\n');
            i = i + 1;
            assert(buf@ =~= old(buf)@ + children_pretty(self@.children, i as nat, indent as nat));
        }
    }

    fn write_pretty_body(&self, buf: &mut String, indent: usize)
        requires
            indent + 2 * plan_height(self@) <= usize::MAX,
        ensures
            final(buf)@ == old(buf)@ + (if node_is_empty(self@) {
                " ()"@
            } else {
                " (\n"@ + children_pretty(self@.children, self@.children.len(), indent as nat) + spaces(indent as nat) + seq![')']
            }),
        decreases self, 1nat,
    {
        proof {
            reveal_strlit(" ()");
            reveal_strlit(" (\n");
        }
        if self.is_empty() {
            push_str(buf, " ()");
        } else {
            push_str(buf, " (\n");
            self.write_children_pretty(buf, indent);
            push_spaces(buf, indent);
            push_char(buf, ')');
        }
        assert(buf@ =~= old(buf)@ + (if node_is_empty(self@) {
                " ()"@
            } else {
                " (\n"@ + children_pretty(self@.children, self@.children.len(), indent as nat) + spaces(indent as nat) + seq![')']
            }));
    }

    /// Appends the human-readable text form of the node, indented by `indent` spaces.
    pub fn pretty_form(&self, buffer: &mut String, indent: usize)
        requires
            indent + 2 * plan_height(self@) <= usize::MAX,
        ensures
            final(buffer)@ == old(buffer)@ + node_pretty(self@, indent as nat),
        decreases self, 2nat,
    {
        proof {
            reveal_strlit(" => ");
            reveal_strlit("->");
            reveal_strlit("~>");
            reveal_strlit("#{");
        }
        match &self.node_type {
            PlanNodeType::EMPTY => {},
            PlanNodeType::CONTAINER(label) => {
                push_spaces(buffer, indent);
                push_char(buffer, ':');
                push_label(buffer, label.as_str());
                self.write_pretty_body(buffer, indent);
            },
            PlanNodeType::ACTION(value) => {
                push_spaces(buffer, indent);
                push_char(buffer, '%');
                push_str(buffer, value.as_str());
                self.write_pretty_body(buffer, indent);
                push_result_suffix(buffer, &self.result, " => ");
            },
            PlanNodeType::VALUE(value) => {
                push_spaces(buffer, indent);
                value.write_str_form(buffer);
                push_result_suffix(buffer, &self.result, " => ");
            },
            PlanNodeType::RESOLVE(path) => {
                push_spaces(buffer, indent);
                path.write_to(buffer);
                push_result_suffix(buffer, &self.result, " => ");
            },
            PlanNodeType::PIPELINE => {
                push_spaces(buffer, indent);
                push_str(buffer, "->");
                self.write_pretty_body(buffer, indent);
                push_result_suffix(buffer, &self.result, " => ");
            },
            PlanNodeType::RESOLVE_CURRENT(path) => {
                push_spaces(buffer, indent);
                push_str(buffer, "~>");
                path.write_to(buffer);
                push_result_suffix(buffer, &self.result, " => ");
            },
            PlanNodeType::ANNOTATION(text) => {
                push_spaces(buffer, indent);
                push_str(buffer, "#{");
                crate::value::push_escaped(buffer, text.as_str());
                push_char(buffer, '}');
            },
        }
        assert(buffer@ =~= old(buffer)@ + node_pretty(self@, indent as nat));
    }
}

/// An executable plan that contains a tree of execution nodes.
#[derive(Debug)]
pub struct ExecutionPlan {
    /// Root node for the plan tree
    pub plan_root: ExecutionPlanNode,
}

impl ExecutionPlan {
    /// Creates a new empty execution plan with a single root container.
    pub fn new(label: &str) -> (r: ExecutionPlan)
        ensures
            r.plan_root@ == (PlanNode { kind: PlanKind::CONTAINER(label@), result: None, children: Seq::empty() }),
    {
        ExecutionPlan { plan_root: ExecutionPlanNode::container(label) }
    }

    /// Adds the node as a child of the root node if the node is not empty (i.e. not a leaf node).
    pub fn add(&mut self, node: ExecutionPlanNode)
        ensures
            final(self).plan_root@ == if node_is_empty(node@) {
                old(self).plan_root@
            } else {
                PlanNode { children: old(self).plan_root@.children.push(node@), ..old(self).plan_root@ }
            },
    {
        if !node.is_empty() {
            self.plan_root.add(node);
        }
    }

    /// Returns the serialised text form of the execution plan.
    pub fn str_form(&self) -> (r: String)
        ensures
            r@ == seq!['('] + node_str(self.plan_root@) + seq![')'],
    {
        let mut s = String::new();
        push_char(&mut s, '(');
        self.plan_root.write_str_form(&mut s);
        push_char(&mut s, ')');
        assert(s@ =~= seq!['('] + node_str(self.plan_root@) + seq![')']);
        s
    }

    /// Returns the human-readable text form of the execution plan.
    pub fn pretty_form(&self) -> (r: String)
        requires
            2 + 2 * plan_height(self.plan_root@) <= usize::MAX,
        ensures
            r@ == "(\n"@ + node_pretty(self.plan_root@, 2) + "\n)\n"@,
    {
        proof {
            reveal_strlit("(\n");
            reveal_strlit("\n)\n");
        }
        let mut s = String::new();
        push_str(&mut s, "(\n");
        self.plan_root.pretty_form(&mut s, 2);
        push_str(&mut s, "\n)\n");
        assert(s@ =~= "(\n"@ + node_pretty(self.plan_root@, 2) + "\n)\n"@);
        s
    }
}

} // verus!
