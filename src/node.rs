//! Nodes of the ucre object model and the capabilities they offer.
use vstd::prelude::*;
use crate::attributes::{Attributes, texts};
use crate::error::{NodeKind, NodeOperation, UcreError};

verus! {

/// A node of any kind, owned by its parent.
pub enum AnyNode {
    Heading(Heading),
}

/// A node of the object model, written in ucre lang as
/// `node_name { attribute_name value value ... }`.
///
/// A kind supports some of three capabilities: text, attributes and
/// children. Setting text or children on a kind that does not carry them
/// fails with `UnsupportedNodeOperation` and leaves the node as it was.
pub trait Node: Sized {
    /// The node is internally consistent.
    spec fn wf(&self) -> bool;

    /// Which kind of node this is.
    spec fn kind_view(&self) -> NodeKind;

    /// Whether the kind carries text.
    spec fn carries_text(&self) -> bool;

    /// Whether the kind holds children.
    spec fn carries_children(&self) -> bool;

    /// The text, for kinds that carry text.
    spec fn text_view(&self) -> Seq<char>;

    /// The attributes.
    spec fn attr_view(&self) -> Map<Seq<char>, Seq<Seq<char>>>;

    /// The children, for kinds that hold children.
    spec fn children_view(&self) -> Seq<AnyNode>;

    /// The contained text; `None` for kinds without text.
    fn text(&self) -> (r: Option<&str>)
        requires
            self.wf(),
        ensures
            r is Some <==> self.carries_text(),
            r matches Some(t) ==> t@ == self.text_view(),
    ;

    /// Replaces the contained text.
    fn set_text(&mut self, s: String) -> (r: Result<(), UcreError>)
        requires
            old(self).wf(),
        ensures
            final(self).wf(),
            old(self).carries_text() ==> r is Ok && final(self).text_view() == s@
                && final(self).attr_view() == old(self).attr_view() && final(self).kind_view()
                == old(self).kind_view(),
            !old(self).carries_text() ==> r == Err::<(), UcreError>(
                UcreError::UnsupportedNodeOperation {
                    kind: old(self).kind_view(),
                    operation: NodeOperation::SetText,
                },
            ) && *final(self) == *old(self),
    ;

    /// All attributes.
    fn attr(&self) -> (r: &Attributes)
        requires
            self.wf(),
        ensures
            r.wf(),
            r@ == self.attr_view(),
    ;

    /// Sets attribute `k` to `v`, replacing any values it had.
    fn set_attr(&mut self, k: String, v: Vec<String>)
        requires
            old(self).wf(),
        ensures
            final(self).wf(),
            final(self).attr_view() == old(self).attr_view().insert(k@, texts(v@)),
            final(self).kind_view() == old(self).kind_view(),
            final(self).carries_text() == old(self).carries_text(),
            final(self).carries_children() == old(self).carries_children(),
            final(self).text_view() == old(self).text_view(),
            final(self).children_view() == old(self).children_view(),
    ;

    /// The children; `None` for kinds that hold none.
    fn children(&self) -> (r: Option<&Vec<AnyNode>>)
        requires
            self.wf(),
        ensures
            r is Some <==> self.carries_children(),
            r matches Some(c) ==> c@ == self.children_view(),
    ;

    /// Replaces the children, taking ownership of them.
    fn set_children(&mut self, c: Vec<AnyNode>) -> (r: Result<(), UcreError>)
        requires
            old(self).wf(),
        ensures
            final(self).wf(),
            old(self).carries_children() ==> r is Ok && final(self).children_view() == c@
                && final(self).attr_view() == old(self).attr_view() && final(self).kind_view()
                == old(self).kind_view(),
            !old(self).carries_children() ==> r == Err::<(), UcreError>(
                UcreError::UnsupportedNodeOperation {
                    kind: old(self).kind_view(),
                    operation: NodeOperation::SetChildren,
                },
            ) && *final(self) == *old(self),
    ;

    /// Which kind of node this is.
    fn kind(&self) -> (k: NodeKind)
        ensures
            k == self.kind_view(),
    ;
}

/// Setting an attribute twice leaves only the second list of values under
/// its name: the second call overwrites, it does not merge.
pub proof fn lemma_set_attr_overwrites(
    before: Map<Seq<char>, Seq<Seq<char>>>,
    k: Seq<char>,
    first: Seq<Seq<char>>,
    second: Seq<Seq<char>>,
)
    ensures
        before.insert(k, first).insert(k, second) == before.insert(k, second),
        before.insert(k, first).insert(k, second)[k] == second,
{
    assert(before.insert(k, first).insert(k, second) =~= before.insert(k, second));
}

/// A heading never holds children: reading them gives `None` and setting
/// them fails, whatever the heading holds.
pub proof fn lemma_heading_has_no_children(h: Heading)
    ensures
        !h.carries_children(),
        h.kind_view() == NodeKind::Heading,
{
}

/// A heading, `heading { ... }` in ucre lang: text and attributes, no children.
pub struct Heading {
    attr: Attributes,
    text: String,
}

impl Heading {
    /// A heading with the given text and no attributes.
    pub fn new(text: String) -> (h: Self)
        ensures
            h.wf(),
            h.text_view() == text@,
            h.attr_view() == Map::<Seq<char>, Seq<Seq<char>>>::empty(),
    {
        Heading { attr: Attributes::new(), text }
    }
}

impl Node for Heading {
    closed spec fn wf(&self) -> bool {
        self.attr.wf()
    }

    open spec fn kind_view(&self) -> NodeKind {
        NodeKind::Heading
    }

    open spec fn carries_text(&self) -> bool {
        true
    }

    open spec fn carries_children(&self) -> bool {
        false
    }

    closed spec fn text_view(&self) -> Seq<char> {
        self.text@
    }

    closed spec fn attr_view(&self) -> Map<Seq<char>, Seq<Seq<char>>> {
        self.attr@
    }

    open spec fn children_view(&self) -> Seq<AnyNode> {
        Seq::empty()
    }

    fn text(&self) -> (r: Option<&str>) {
        Some(self.text.as_str())
    }

    fn set_text(&mut self, s: String) -> (r: Result<(), UcreError>) {
        self.text = s;
        Ok(())
    }

    fn attr(&self) -> (r: &Attributes) {
        &self.attr
    }

    fn set_attr(&mut self, k: String, v: Vec<String>) {
        self.attr.insert(k, v);
    }

    fn children(&self) -> (r: Option<&Vec<AnyNode>>) {
        None
    }

    fn set_children(&mut self, c: Vec<AnyNode>) -> (r: Result<(), UcreError>) {
        Err(
            UcreError::UnsupportedNodeOperation {
                kind: NodeKind::Heading,
                operation: NodeOperation::SetChildren,
            },
        )
    }

    fn kind(&self) -> (k: NodeKind) {
        NodeKind::Heading
    }
}

impl Node for AnyNode {
    open spec fn wf(&self) -> bool {
        match self {
            AnyNode::Heading(h) => h.wf(),
        }
    }

    open spec fn kind_view(&self) -> NodeKind {
        match self {
            AnyNode::Heading(h) => h.kind_view(),
        }
    }

    open spec fn carries_text(&self) -> bool {
        match self {
            AnyNode::Heading(h) => h.carries_text(),
        }
    }

    open spec fn carries_children(&self) -> bool {
        match self {
            AnyNode::Heading(h) => h.carries_children(),
        }
    }

    open spec fn text_view(&self) -> Seq<char> {
        match self {
            AnyNode::Heading(h) => h.text_view(),
        }
    }

    open spec fn attr_view(&self) -> Map<Seq<char>, Seq<Seq<char>>> {
        match self {
            AnyNode::Heading(h) => h.attr_view(),
        }
    }

    open spec fn children_view(&self) -> Seq<AnyNode> {
        match self {
            AnyNode::Heading(h) => h.children_view(),
        }
    }

    fn text(&self) -> (r: Option<&str>) {
        match self {
            AnyNode::Heading(h) => h.text(),
        }
    }

    fn set_text(&mut self, s: String) -> (r: Result<(), UcreError>) {
        match self {
            AnyNode::Heading(h) => h.set_text(s),
        }
    }

    fn attr(&self) -> (r: &Attributes) {
        match self {
            AnyNode::Heading(h) => h.attr(),
        }
    }

    fn set_attr(&mut self, k: String, v: Vec<String>) {
        match self {
            AnyNode::Heading(h) => h.set_attr(k, v),
        }
    }

    fn children(&self) -> (r: Option<&Vec<AnyNode>>) {
        match self {
            AnyNode::Heading(h) => h.children(),
        }
    }

    fn set_children(&mut self, c: Vec<AnyNode>) -> (r: Result<(), UcreError>) {
        match self {
            AnyNode::Heading(h) => h.set_children(c),
        }
    }

    fn kind(&self) -> (k: NodeKind) {
        match self {
            AnyNode::Heading(h) => h.kind(),
        }
    }
}

} // verus!
