use vstd::prelude::*;

verus! {

/// Model of an XML element: the view of `XmlNode`.
pub struct NodeV {
    pub tag: Seq<char>,
    pub attrs: Seq<(Seq<char>, Seq<char>)>,
    pub children: Seq<NodeV>,
    pub text: Option<Seq<char>>,
}

/// An XML element of an already-parsed document: tag name, attributes and
/// child elements in document order, and the element's direct text content,
/// if any.
#[derive(Debug, PartialEq)]
pub struct XmlNode {
    pub tag: String,
    pub attrs: Vec<(String, String)>,
    pub children: Vec<XmlNode>,
    pub text: Option<String>,
}

/// The model of an `XmlNode`.
pub open spec fn node_view(n: XmlNode) -> NodeV
    decreases n,
{
    NodeV {
        tag: n.tag@,
        attrs: n.attrs.deep_view(),
        children: Seq::new(
            n.children@.len(),
            |i: int|
                if 0 <= i < n.children@.len() {
                    node_view(n.children@[i])
                } else {
                    NodeV {
                        tag: Seq::empty(),
                        attrs: Seq::empty(),
                        children: Seq::empty(),
                        text: None,
                    }
                },
        ),
        text: n.text.deep_view(),
    }
}

impl DeepView for XmlNode {
    type V = NodeV;

    open spec fn deep_view(&self) -> NodeV {
        node_view(*self)
    }
}

} // verus!
