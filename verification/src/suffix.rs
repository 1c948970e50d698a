//! A reverse-character index: a tree that is walked from the last character
//! of a text towards its first.

use std::collections::HashMap;

use vstd::prelude::*;

use crate::text::chars_of;

verus! {

/// A node of the index. The children are keyed by code point; `trigger` is
/// set at the nodes where a stored text ends.
pub struct SuffixNode {
    children: HashMap<u32, SuffixNode>,
    trigger: Option<String>,
}

/// Different characters have different code points.
proof fn lemma_code_points_differ(a: char, b: char)
    requires
        a != b,
    ensures
        a as u32 != b as u32,
{
}

impl SuffixNode {
    /// The text stored at the end of a path of characters, if there is one.
    pub closed spec fn find(self, path: Seq<char>) -> Option<Seq<char>>
        decreases path.len(),
    {
        if path.len() == 0 {
            match self.trigger {
                Some(t) => Some(t@),
                None => None,
            }
        } else if self.children@.contains_key(path[0] as u32) {
            self.children@[path[0] as u32].find(path.drop_first())
        } else {
            None
        }
    }

    pub fn new() -> (node: SuffixNode)
        ensures
            forall|path: Seq<char>| #[trigger] node.find(path) is None,
    {
        SuffixNode { children: HashMap::new(), trigger: None }
    }

    /// Stores `trigger` at the end of the path that reads the first `n`
    /// characters backwards.
    fn store(&mut self, chars: &Vec<char>, n: usize, trigger: String)
        requires
            n <= chars@.len(),
        ensures
            forall|path: Seq<char>| #[trigger]
                final(self).find(path) == if path == chars@.take(n as int).reverse() {
                    Some(trigger@)
                } else {
                    old(self).find(path)
                },
        decreases n,
    {
        let ghost whole = chars@.take(n as int).reverse();
        if n == 0 {
            self.trigger = Some(trigger);
            assert forall|path: Seq<char>| #[trigger]
                self.find(path) == if path == whole {
                    Some(trigger@)
                } else {
                    old(self).find(path)
                } by {
                if path.len() == 0 {
                    assert(path =~= whole);
                }
            }
        } else {
            let last: char = chars[n - 1];
            let key: u32 = last as u32;
            let child = self.children.entry(key).or_insert(SuffixNode::new());
            let ghost before = *child;
            child.store(chars, n - 1, trigger);
            proof {
                let c = chars@[n - 1];
                let rest = chars@.take(n - 1).reverse();
                let after = self.children@[key];
                assert(whole =~= seq![c] + rest);
                assert(whole.drop_first() =~= rest);
                assert(self.children@ =~= old(self).children@.insert(key, after));
                assert forall|path: Seq<char>| #[trigger]
                    self.find(path) == if path == whole {
                        Some(trigger@)
                    } else {
                        old(self).find(path)
                    } by {
                    if path.len() > 0 {
                        let tail = path.drop_first();
                        assert(path =~= seq![path[0]] + tail);
                        if path[0] == c {
                            assert((path == whole) == (tail == rest));
                            assert(self.find(path) == after.find(tail));
                            assert(old(self).find(path) == before.find(tail));
                        } else {
                            lemma_code_points_differ(path[0], c);
                            assert(path != whole);
                        }
                    }
                }
            }
        }
    }

    /// Stores a text at the end of the path that reads it backwards.
    pub fn insert(&mut self, trigger: &str)
        ensures
            forall|path: Seq<char>| #[trigger]
                final(self).find(path) == if path == trigger@.reverse() {
                    Some(trigger@)
                } else {
                    old(self).find(path)
                },
    {
        let chars = chars_of(trigger);
        let n: usize = chars.len();
        assert(chars@.take(n as int) =~= trigger@);
        self.store(&chars, n, trigger.to_string());
    }

    /// The node one character further along.
    pub fn child(&self, c: char) -> (node: Option<&SuffixNode>)
        ensures
            match node {
                Some(n) => forall|path: Seq<char>| #[trigger]
                    n.find(path) == self.find(seq![c] + path),
                None => forall|path: Seq<char>|
                    (#[trigger] self.find(seq![c] + path)) is None,
            },
    {
        let key: u32 = c as u32;
        proof {
            assert forall|path: Seq<char>| (#[trigger] (seq![c] + path)).drop_first() == path by {
                assert((seq![c] + path).drop_first() =~= path);
            }
        }
        let node = self.children.get(&key);
        node
    }

    /// The text that ends at this node.
    pub fn stored(&self) -> (t: Option<&String>)
        ensures
            match t {
                Some(t) => self.find(Seq::empty()) == Some(t@),
                None => self.find(Seq::empty()) is None,
            },
    {
        self.trigger.as_ref()
    }
}

} // verus!
