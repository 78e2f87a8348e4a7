//! The document: metadata, a raw script and the root nodes.
use vstd::prelude::*;
use std::collections::HashMap;
use crate::node::AnyNode;

verus! {

/// A parsed ucre document. It owns its metadata (custom keys allowed), the
/// raw script text of its `lua` block and its root nodes, in order.
pub struct File {
    meta_data: HashMap<String, String>,
    lua: String,
    doc: Vec<AnyNode>,
}

impl File {
    pub closed spec fn meta_data_view(&self) -> HashMap<String, String> {
        self.meta_data
    }

    pub closed spec fn lua_view(&self) -> Seq<char> {
        self.lua@
    }

    pub closed spec fn doc_view(&self) -> Seq<AnyNode> {
        self.doc@
    }

    /// A document with no metadata, an empty script and no nodes.
    pub fn new() -> (f: Self)
        ensures
            f.meta_data_view()@ == Map::<String, String>::empty(),
            f.lua_view() == Seq::<char>::empty(),
            f.doc_view() == Seq::<AnyNode>::empty(),
    {
        File { meta_data: HashMap::new(), lua: String::new(), doc: Vec::new() }
    }

    pub fn meta_data(&self) -> (r: &HashMap<String, String>)
        ensures
            *r == self.meta_data_view(),
    {
        &self.meta_data
    }

    /// Replaces the metadata as a whole.
    pub fn set_meta_data(&mut self, m: HashMap<String, String>)
        ensures
            final(self).meta_data_view() == m,
            final(self).lua_view() == old(self).lua_view(),
            final(self).doc_view() == old(self).doc_view(),
    {
        self.meta_data = m;
    }

    pub fn lua(&self) -> (r: &str)
        ensures
            r@ == self.lua_view(),
    {
        self.lua.as_str()
    }

    /// Replaces the raw script text.
    pub fn set_lua(&mut self, s: String)
        ensures
            final(self).lua_view() == s@,
            final(self).meta_data_view() == old(self).meta_data_view(),
            final(self).doc_view() == old(self).doc_view(),
    {
        self.lua = s;
    }

    pub fn doc(&self) -> (r: &Vec<AnyNode>)
        ensures
            r@ == self.doc_view(),
    {
        &self.doc
    }

    /// Replaces the root nodes, taking ownership of them.
    pub fn set_doc(&mut self, d: Vec<AnyNode>)
        ensures
            final(self).doc_view() == d@,
            final(self).meta_data_view() == old(self).meta_data_view(),
            final(self).lua_view() == old(self).lua_view(),
    {
        self.doc = d;
    }
}

} // verus!
