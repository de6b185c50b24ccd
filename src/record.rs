//! Decoded records: an identifier plus a nested tree of named fields.
use vstd::prelude::*;

verus! {

/// A node of a record's field tree.
pub enum FieldTree {
    /// An explicit null value.
    Null,
    /// A scalar, in its textual representation.
    Text(String),
    /// A nested map of named children, in document order.
    Node(Vec<(String, FieldTree)>),
}

/// One decoded event: its record identifier and its field tree.
pub struct RawRecord {
    pub id: u64,
    pub data: FieldTree,
}

/// The first child of `entries` named `key`.
pub open spec fn child_spec(entries: Seq<(String, FieldTree)>, key: Seq<char>) -> Option<FieldTree>
    decreases entries.len(),
{
    if entries.len() == 0 {
        None
    } else if entries[0].0@ == key {
        Some(entries[0].1)
    } else {
        child_spec(entries.drop_first(), key)
    }
}

/// The node that `path` leads to from `t`, one key per level.
pub open spec fn resolve_spec(t: FieldTree, path: Seq<String>) -> Option<FieldTree>
    decreases path.len(),
{
    if path.len() == 0 {
        Some(t)
    } else {
        match t {
            FieldTree::Node(entries) => match child_spec(entries@, path[0]@) {
                Some(c) => resolve_spec(c, path.drop_first()),
                None => None,
            },
            _ => None,
        }
    }
}

/// Looks up the first child of `entries` named `key`.
pub fn child<'a>(entries: &'a Vec<(String, FieldTree)>, key: &String) -> (r: Option<&'a FieldTree>)
    ensures
        match r {
            Some(c) => child_spec(entries@, key@) == Some(*c),
            None => child_spec(entries@, key@) is None,
        },
{
    let mut i: usize = 0;
    assert(entries@.skip(0) =~= entries@);
    while i < entries.len()
        invariant
            0 <= i <= entries@.len(),
            child_spec(entries@, key@) == child_spec(entries@.skip(i as int), key@),
        decreases entries@.len() - i,
    {
        assert(entries@.skip(i as int).drop_first() =~= entries@.skip(i as int + 1));
        if entries[i].0 == *key {
            return Some(&entries[i].1);
        }
        i = i + 1;
    }
    None
}

/// Follows `path` from `t`, one key per level.
pub fn resolve<'a>(t: &'a FieldTree, path: &Vec<String>) -> (r: Option<&'a FieldTree>)
    ensures
        match r {
            Some(c) => resolve_spec(*t, path@) == Some(*c),
            None => resolve_spec(*t, path@) is None,
        },
{
    let mut cur: &FieldTree = t;
    let mut i: usize = 0;
    assert(path@.skip(0) =~= path@);
    while i < path.len()
        invariant
            0 <= i <= path@.len(),
            resolve_spec(*t, path@) == resolve_spec(*cur, path@.skip(i as int)),
        decreases path@.len() - i,
    {
        assert(path@.skip(i as int).drop_first() =~= path@.skip(i as int + 1));
        match cur {
            FieldTree::Node(entries) => {
                match child(entries, &path[i]) {
                    Some(c) => {
                        cur = c;
                    },
                    None => {
                        return None;
                    },
                }
            },
            _ => {
                return None;
            },
        }
        i = i + 1;
    }
    assert(path@.skip(i as int) =~= Seq::<String>::empty());
    Some(cur)
}

} // verus!
