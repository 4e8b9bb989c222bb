//! The configuration value model: what a parsed descriptor file holds.
//! A document maps section names to sections; a section maps keys to
//! items; an item is a string, an integer, a boolean, an array, or a
//! table of nested items.

use vstd::prelude::*;
use crate::strutil::str_eq;

verus! {

/// One configuration value.
#[derive(Debug, PartialEq)]
pub enum Item {
    Str(String),
    Int(i64),
    Bool(bool),
    Arr(Vec<Item>),
    Table(Vec<(String, Item)>),
}

/// A parsed configuration document: named sections of keyed items, in
/// file order.
pub struct Document {
    pub sections: Vec<(String, Vec<(String, Item)>)>,
}

/// The first value bound to `key` in an association sequence.
pub open spec fn assoc_find<T>(s: Seq<(String, T)>, key: Seq<char>) -> Option<T>
    decreases s.len(),
{
    if s.len() == 0 {
        Option::None
    } else if s[0].0@ == key {
        Option::Some(s[0].1)
    } else {
        assoc_find(s.skip(1), key)
    }
}

/// The item bound to `key` in section `ns` of the document, if any.
pub open spec fn spec_doc_get(doc: Document, ns: Seq<char>, key: Seq<char>) -> Option<Item> {
    match assoc_find(doc.sections@, ns) {
        Option::Some(section) => assoc_find(section@, key),
        Option::None => Option::None,
    }
}

/// Finds the first entry bound to `key`, as a reference.
pub fn assoc_get<'a, T>(s: &'a Vec<(String, T)>, key: &str) -> (r: Option<&'a T>)
    ensures
        match r {
            Some(v) => assoc_find(s@, key@) == Option::Some(*v),
            None => assoc_find(s@, key@) is None,
        },
{
    let mut i: usize = 0;
    let n = s.len();
    proof {
        assert(s@.skip(0) =~= s@);
    }
    while i < n
        invariant
            i <= n,
            n == s@.len(),
            assoc_find(s@, key@) == assoc_find(s@.skip(i as int), key@),
        decreases n - i,
    {
        let ghost pre = s@.skip(i as int);
        if str_eq(s[i].0.as_str(), key) {
            assert(pre[0] == s@[i as int]);
            return Some(&s[i].1);
        }
        proof {
            assert(pre[0] == s@[i as int]);
            assert(pre.skip(1) =~= s@.skip(i as int + 1));
        }
        i += 1;
    }
    proof {
        assert(s@.skip(n as int).len() == 0);
    }
    None
}

/// Looks `section.key` up in the document, the raw step under every
/// defaulted accessor.
pub fn doc_get<'a>(doc: &'a Document, ns: &str, key: &str) -> (r: Option<&'a Item>)
    ensures
        match r {
            Some(v) => spec_doc_get(*doc, ns@, key@) == Option::Some(*v),
            None => spec_doc_get(*doc, ns@, key@) is None,
        },
{
    match assoc_get(&doc.sections, ns) {
        Some(section) => assoc_get(section, key),
        None => None,
    }
}

} // verus!
