//! Snippet store and the matcher.
//!
//! A snippet is one of two kinds:
//! - `Text`: detected by walking a reverse-character index from the end of
//!   the rolling input buffer, which selects the longest match. A trigger
//!   only fires when the character before it is a word boundary, which stops
//!   `gm` from firing inside `programming`.
//! - `Shortcut`: a key-chord string (such as "Ctrl+Shift+KeyV") that is
//!   registered as a hotkey. It is never matched as typed text.

use std::collections::HashMap;

use vstd::hash_map::StringHashMap;
use vstd::hash_set::StringHashSet;
use vstd::prelude::*;

use crate::collate::{ascending, before, before_total, keys, sorted_pairs};
use crate::seqs::{lemma_filter, lemma_filter_all, lemma_push_contains, lemma_push_no_duplicates};
use crate::suffix::SuffixNode;
use crate::text::{alphanumeric, is_alphanumeric, same_text};

verus! {

/// The rolling input buffer is bounded; no text trigger may be longer, so
/// that every accepted one can fire.
pub const MAX_TEXT_TRIGGER_CHARS: usize = 64;

#[derive(Clone, Copy, PartialEq, Eq, Debug, Structural)]
pub enum TriggerKind {
    Text,
    Shortcut,
}

struct Entry {
    expansion: String,
    kind: TriggerKind,
}

/// The abstract content of a snippet store: what each trigger stands for, and
/// the order in which the user sees the triggers.
#[verifier::ext_equal]
pub struct Book {
    pub order: Seq<Seq<char>>,
    pub entries: Map<Seq<char>, (Seq<char>, TriggerKind)>,
}

impl Book {
    /// The order names every trigger exactly once.
    pub open spec fn wf(self) -> bool {
        &&& self.order.no_duplicates()
        &&& forall|t: Seq<char>| #[trigger]
            self.order.contains(t) <==> self.entries.contains_key(t)
    }

    pub open spec fn empty() -> Book {
        Book { order: Seq::empty(), entries: Map::empty() }
    }

    /// Whether a trigger is there and is matched as typed text.
    pub open spec fn has_text(self, t: Seq<char>) -> bool {
        self.entries.contains_key(t) && self.entries[t].1 == TriggerKind::Text
    }

    /// A new trigger goes to the end; one that is there keeps its position.
    pub open spec fn upsert(self, t: Seq<char>, expansion: Seq<char>, kind: TriggerKind) -> Book {
        Book {
            order: if self.entries.contains_key(t) {
                self.order
            } else {
                self.order.push(t)
            },
            entries: self.entries.insert(t, (expansion, kind)),
        }
    }

    /// Every item is put in, in turn.
    pub open spec fn upsert_all(self, items: Seq<(Seq<char>, Seq<char>, TriggerKind)>) -> Book
        decreases items.len(),
    {
        if items.len() == 0 {
            self
        } else {
            let last = items.last();
            self.upsert_all(items.drop_last()).upsert(last.0, last.1, last.2)
        }
    }

    /// A snippet is replaced where it stands, under its old or a new trigger.
    pub open spec fn replace(
        self,
        old_trigger: Seq<char>,
        new_trigger: Seq<char>,
        expansion: Seq<char>,
        kind: TriggerKind,
    ) -> Book {
        Book {
            order: self.order.update(self.order.index_of(old_trigger), new_trigger),
            entries: self.entries.remove(old_trigger).insert(new_trigger, (expansion, kind)),
        }
    }

    /// A trigger is taken out; the others keep their relative positions.
    pub open spec fn remove(self, t: Seq<char>) -> Book {
        Book { order: self.order.filter(other_than(t)), entries: self.entries.remove(t) }
    }

    /// The triggers of a wanted order that are there, each at its first
    /// occurrence.
    pub open spec fn known_once(self, wanted: Seq<Seq<char>>) -> Seq<Seq<char>>
        decreases wanted.len(),
    {
        if wanted.len() == 0 {
            Seq::empty()
        } else {
            let before = self.known_once(wanted.drop_last());
            if self.entries.contains_key(wanted.last()) && !before.contains(wanted.last()) {
                before.push(wanted.last())
            } else {
                before
            }
        }
    }

    /// The wanted triggers come first; those that the wanted order leaves out
    /// follow in their old relative positions.
    pub open spec fn reorder(self, wanted: Seq<Seq<char>>) -> Book {
        let first = self.known_once(wanted);
        Book {
            order: first + self.order.filter(|t: Seq<char>| !first.contains(t)),
            entries: self.entries,
        }
    }

    /// The snippets in user order.
    pub open spec fn list(self) -> Seq<(Seq<char>, Seq<char>, TriggerKind)> {
        Seq::new(
            self.order.len(),
            |i: int|
                (
                    self.order[i],
                    self.entries[self.order[i]].0,
                    self.entries[self.order[i]].1,
                ),
        )
    }

    /// Whether the last `n` characters of a buffer are a text trigger that
    /// stands at a word boundary.
    pub open spec fn fires(self, buffer: Seq<char>, n: int) -> bool {
        &&& 1 <= n <= buffer.len()
        &&& n == buffer.len() || !alphanumeric(buffer[buffer.len() - n - 1])
        &&& self.has_text(ending(buffer, n))
    }

    /// Whether the last `n` characters of a buffer are a text trigger that
    /// stands at a word boundary, when `in_word` tells which characters of the
    /// buffer belong to words.
    pub open spec fn fires_given(self, buffer: Seq<char>, in_word: Seq<bool>, n: int) -> bool {
        &&& 1 <= n <= buffer.len()
        &&& n == buffer.len() || !in_word[buffer.len() - n - 1]
        &&& self.has_text(ending(buffer, n))
    }

    /// Whether the last `n` characters of a buffer are the longest trigger
    /// that fires.
    pub open spec fn fires_longest(self, buffer: Seq<char>, n: int) -> bool {
        &&& self.fires(buffer, n)
        &&& forall|m: int| #[trigger] self.fires(buffer, m) ==> m <= n
    }
}

pub open spec fn other_than(t: Seq<char>) -> spec_fn(Seq<char>) -> bool {
    |u: Seq<char>| u != t
}

/// The last `n` elements of a buffer.
pub open spec fn ending(buffer: Seq<char>, n: int) -> Seq<char> {
    buffer.skip(buffer.len() - n)
}

/// The character contents of a list of snippets.
pub open spec fn contents(items: Seq<(String, String, TriggerKind)>) -> Seq<
    (Seq<char>, Seq<char>, TriggerKind),
> {
    items.map_values(|e: (String, String, TriggerKind)| (e.0@, e.1@, e.2))
}

/// The triggers of a list of snippets.
pub open spec fn triggers(items: Seq<(Seq<char>, Seq<char>, TriggerKind)>) -> Seq<Seq<char>> {
    items.map_values(|e: (Seq<char>, Seq<char>, TriggerKind)| e.0)
}

pub struct Snippets {
    map: StringHashMap<Entry>,
    /// User-visible order of triggers. Matching never touches this.
    order: Vec<String>,
    /// Every text trigger, by its characters read backwards.
    suffixes: SuffixNode,
}

impl View for Snippets {
    type V = Book;

    closed spec fn view(&self) -> Book {
        Book {
            order: self.order@.map_values(|s: String| s@),
            entries: self.map@.map_values(|e: Entry| (e.expansion@, e.kind)),
        }
    }
}

impl Default for Snippets {
    fn default() -> (s: Snippets)
        ensures
            s.wf(),
            s@ == Book::empty(),
    {
        Snippets::from_entries(Vec::new())
    }
}

impl Snippets {
    /// The order and the entries agree, and the index holds exactly the text
    /// triggers.
    pub closed spec fn wf(self) -> bool {
        &&& self@.wf()
        &&& indexes(self.suffixes, self@)
    }

    /// The order of a store names every trigger exactly once.
    pub proof fn lemma_view_wf(self)
        requires
            self.wf(),
        ensures
            self@.wf(),
    {
    }

    fn rebuild_suffixes(&mut self)
        requires
            old(self)@.wf(),
        ensures
            final(self)@ == old(self)@,
            final(self).wf(),
    {
        let mut root = SuffixNode::new();
        let mut i: usize = 0;
        while i < self.order.len()
            invariant
                *self == *old(self),
                self@.wf(),
                i <= self.order@.len(),
                forall|path: Seq<char>| #[trigger]
                    root.find(path) == if self@.order.take(i as int).contains(path.reverse())
                        && self@.has_text(path.reverse()) {
                        Some(path.reverse())
                    } else {
                        None
                    },
            decreases self.order@.len() - i,
        {
            let ghost before = root;
            let ghost t = self.order@[i as int]@;
            let ghost seen = self@.order.take(i as int);
            assert(self@.order.take(i + 1) =~= seen.push(t));
            assert(self@.order.contains(t)) by {
                assert(self@.order[i as int] == t);
            }
            match self.map.get(self.order[i].as_str()) {
                Some(entry) => {
                    if entry.kind == TriggerKind::Text {
                        root.insert(self.order[i].as_str());
                    }
                },
                None => {},
            }
            proof {
                assert forall|path: Seq<char>| #[trigger]
                    root.find(path) == if seen.push(t).contains(path.reverse()) && self@.has_text(
                        path.reverse(),
                    ) {
                        Some(path.reverse())
                    } else {
                        None
                    } by {
                    let _ = before.find(path);
                    assert(path.reverse().reverse() =~= path);
                    assert(t.reverse().reverse() =~= t);
                    assert(seen.push(t)[seen.len() as int] == t);
                    if seen.contains(path.reverse()) {
                        let k = seen.index_of(path.reverse());
                        assert(seen.push(t)[k] == path.reverse());
                    }
                    if seen.push(t).contains(path.reverse()) && path.reverse() != t {
                        let k = seen.push(t).index_of(path.reverse());
                        assert(seen[k] == path.reverse());
                    }
                }
            }
            i += 1;
        }
        assert(self@.order.take(i as int) =~= self@.order);
        self.suffixes = root;
        assert(self@ =~= old(self)@);
    }

    fn upsert(&mut self, trigger: String, expansion: String, kind: TriggerKind)
        requires
            old(self)@.wf(),
        ensures
            final(self)@ == old(self)@.upsert(trigger@, expansion@, kind),
            final(self)@.wf(),
    {
        let known = self.map.contains_key(trigger.as_str());
        self.map.insert(trigger.clone(), Entry { expansion, kind });
        if !known {
            self.order.push(trigger);
        }
        proof {
            assert(self@ =~= old(self)@.upsert(trigger@, expansion@, kind));
            lemma_upsert_wf(old(self)@, trigger@, expansion@, kind);
        }
    }

    pub fn from_entries(entries: Vec<(String, String, TriggerKind)>) -> (s: Snippets)
        ensures
            s.wf(),
            s@ == Book::empty().upsert_all(contents(entries@)),
    {
        let mut s = Snippets {
            map: StringHashMap::new(),
            order: Vec::new(),
            suffixes: SuffixNode::new(),
        };
        assert(s@ =~= Book::empty());
        s.upsert_many(entries);
        s.rebuild_suffixes();
        s
    }

    /// A store of text triggers only, in the order of their code points.
    pub fn from_map(map: HashMap<String, String>) -> (s: Snippets)
        ensures
            s.wf(),
            s@.entries == map.deep_view().map_values(|e: Seq<char>| (e, TriggerKind::Text)),
            ascending(s@.order),
    {
        let ghost m = map.deep_view();
        let pairs = sorted_pairs(map);
        let ghost all = pairs@;
        let mut entries: Vec<(String, String, TriggerKind)> = Vec::new();
        for pair in it: pairs
            invariant
                it.seq() == all,
                entries@.len() == it.index(),
                forall|i: int|
                    0 <= i < entries@.len() ==> #[trigger] entries@[i] == (
                        all[i].0,
                        all[i].1,
                        TriggerKind::Text,
                    ),
        {
            let (trigger, expansion) = pair;
            entries.push((trigger, expansion, TriggerKind::Text));
        }
        proof {
            let items = contents(entries@);
            let ts = triggers(items);
            assert(ts =~= keys(all));
            assert forall|i: int, j: int| 0 <= i < ts.len() && 0 <= j < ts.len() && i != j implies ts[i]
                != ts[j] by {
                before_total(ts[i], ts[j]);
                if i < j {
                    assert(before(ts[i], ts[j]));
                } else {
                    assert(before(ts[j], ts[i]));
                }
            }
            lemma_upsert_distinct(items);
            let b = Book::empty().upsert_all(items);
            let want = m.map_values(|e: Seq<char>| (e, TriggerKind::Text));
            assert forall|t: Seq<char>| #[trigger]
                b.entries.contains_key(t) <==> want.contains_key(t) by {
                assert(b.order.contains(t) <==> b.entries.contains_key(t));
                if ts.contains(t) {
                    let i = ts.index_of(t);
                    assert(m.contains_key(all[i].0@));
                }
            }
            assert forall|t: Seq<char>| b.entries.contains_key(t) implies #[trigger] b.entries[t]
                == want[t] by {
                assert(b.order.contains(t));
                let i = ts.index_of(t);
                assert(b.entries[ts[i]] == (items[i].1, items[i].2));
                assert(m[all[i].0@] == all[i].1@);
            }
            assert(b.entries =~= want);
        }
        Snippets::from_entries(entries)
    }

    fn upsert_many(&mut self, entries: Vec<(String, String, TriggerKind)>)
        requires
            old(self)@.wf(),
        ensures
            final(self)@ == old(self)@.upsert_all(contents(entries@)),
            final(self)@.wf(),
    {
        let ghost all = entries@;
        for item in it: entries
            invariant
                it.seq() == all,
                self@ == old(self)@.upsert_all(contents(all.take(it.index() as int))),
                self@.wf(),
        {
            let ghost now = contents(all.take(it.index() + 1));
            assert(now.drop_last() =~= contents(all.take(it.index() as int)));
            let (trigger, expansion, kind) = item;
            self.upsert(trigger, expansion, kind);
        }
        assert(all.take(all.len() as int) =~= all);
    }

    /// A brand-new trigger appends to the list; editing an existing one keeps
    /// its position.
    pub fn insert(&mut self, trigger: String, expansion: String, kind: TriggerKind)
        requires
            old(self).wf(),
        ensures
            final(self).wf(),
            final(self)@ == old(self)@.upsert(trigger@, expansion@, kind),
    {
        self.upsert(trigger, expansion, kind);
        self.rebuild_suffixes();
    }

    /// Insert a batch while rebuilding the index only once.
    pub fn insert_many(&mut self, entries: Vec<(String, String, TriggerKind)>)
        requires
            old(self).wf(),
        ensures
            final(self).wf(),
            final(self)@ == old(self)@.upsert_all(contents(entries@)),
    {
        self.upsert_many(entries);
        self.rebuild_suffixes();
    }

    /// Replace a snippet in place, under its old or a new trigger. Fails, and
    /// changes nothing, when the new trigger belongs to another snippet or the
    /// old one to none.
    pub fn update(
        &mut self,
        old_trigger: &str,
        new_trigger: String,
        expansion: String,
        kind: TriggerKind,
    ) -> (r: Result<TriggerKind, String>)
        requires
            old(self).wf(),
        ensures
            final(self).wf(),
            match r {
                Ok(old_kind) => {
                    &&& replace_error(old(self)@, old_trigger@, new_trigger@) is None
                    &&& old_kind == old(self)@.entries[old_trigger@].1
                    &&& final(self)@ == old(self)@.replace(
                        old_trigger@,
                        new_trigger@,
                        expansion@,
                        kind,
                    )
                },
                Err(e) => {
                    &&& replace_error(old(self)@, old_trigger@, new_trigger@) == Some(e@)
                    &&& final(self)@ == old(self)@
                },
            },
    {
        if !same_text(old_trigger, new_trigger.as_str()) && self.map.contains_key(
            new_trigger.as_str(),
        ) {
            return Err("A snippet with that trigger already exists.".to_string());
        }
        let old_kind = match self.map.get(old_trigger) {
            Some(entry) => entry.kind,
            None => {
                return Err("Snippet not found.".to_string());
            },
        };
        let position = self.position(old_trigger);
        self.map.remove(old_trigger);
        self.map.insert(new_trigger.clone(), Entry { expansion, kind });
        self.order.set(position, new_trigger);
        proof {
            let b = old(self)@;
            let c = b.replace(old_trigger@, new_trigger@, expansion@, kind);
            assert(self@ =~= c);
            lemma_replace_wf(b, old_trigger@, new_trigger@, expansion@, kind);
        }
        self.rebuild_suffixes();
        Ok(old_kind)
    }

    /// Where a trigger stands in the user order.
    fn position(&self, trigger: &str) -> (i: usize)
        requires
            self@.wf(),
            self@.entries.contains_key(trigger@),
        ensures
            i < self@.order.len(),
            i == self@.order.index_of(trigger@),
            self@.order[i as int] == trigger@,
    {
        assert(self@.order.contains(trigger@));
        let mut i: usize = 0;
        while i < self.order.len()
            invariant
                self@.order.contains(trigger@),
                self@.order.no_duplicates(),
                i <= self.order@.len(),
                forall|k: int| 0 <= k < i ==> self@.order[k] != trigger@,
            decreases self.order@.len() - i,
        {
            if same_text(self.order[i].as_str(), trigger) {
                assert(self@.order[i as int] == trigger@);
                return i;
            }
            i += 1;
        }
        assert(false);
        0
    }

    /// Take a snippet out and tell its kind, if there was one.
    pub fn remove(&mut self, trigger: &str) -> (removed: Option<TriggerKind>)
        requires
            old(self).wf(),
        ensures
            final(self).wf(),
            removed == if old(self)@.entries.contains_key(trigger@) {
                Some(old(self)@.entries[trigger@].1)
            } else {
                None
            },
            final(self)@ == old(self)@.remove(trigger@),
    {
        let removed = self.get_kind(trigger);
        let ghost b = self@;
        match removed {
            Some(_) => {
                let position = self.position(trigger);
                self.map.remove(trigger);
                self.order.remove(position);
                proof {
                    lemma_filter_one(b.order, position as int);
                    assert(self@.order =~= b.order.remove(position as int));
                    assert(self@ =~= b.remove(trigger@));
                }
            },
            None => {
                proof {
                    assert(!b.order.contains(trigger@));
                    lemma_filter_all(b.order, other_than(trigger@));
                    assert(self@ =~= b.remove(trigger@));
                }
            },
        }
        proof {
            lemma_remove_wf(b, trigger@);
        }
        self.rebuild_suffixes();
        removed
    }

    pub fn get_kind(&self, trigger: &str) -> (kind: Option<TriggerKind>)
        ensures
            kind == if self@.entries.contains_key(trigger@) {
                Some(self@.entries[trigger@].1)
            } else {
                None
            },
    {
        match self.map.get(trigger) {
            Some(entry) => Some(entry.kind),
            None => None,
        }
    }

    pub fn get(&self, trigger: &str) -> (found: Option<(String, TriggerKind)>)
        ensures
            match found {
                Some((expansion, kind)) => {
                    &&& self@.entries.contains_key(trigger@)
                    &&& self@.entries[trigger@] == (expansion@, kind)
                },
                None => !self@.entries.contains_key(trigger@),
            },
    {
        match self.map.get(trigger) {
            Some(entry) => Some((entry.expansion.clone(), entry.kind)),
            None => None,
        }
    }

    pub fn len(&self) -> (n: usize)
        ensures
            n == self@.entries.len(),
    {
        assert(self@.entries.dom() =~= self.map@.dom());
        self.map.len()
    }

    /// Snapshot in user order, for the UI list and for persistence.
    pub fn list(&self) -> (items: Vec<(String, String, TriggerKind)>)
        requires
            self.wf(),
        ensures
            contents(items@) == self@.list(),
    {
        let mut items: Vec<(String, String, TriggerKind)> = Vec::new();
        let mut i: usize = 0;
        while i < self.order.len()
            invariant
                self@.wf(),
                i <= self.order@.len(),
                contents(items@) == self@.list().take(i as int),
            decreases self.order@.len() - i,
        {
            let ghost before = contents(items@);
            let ghost t = self@.order[i as int];
            assert(self@.order.contains(t));
            match self.map.get(self.order[i].as_str()) {
                Some(entry) => {
                    items.push((self.order[i].clone(), entry.expansion.clone(), entry.kind));
                    assert(contents(items@) =~= before.push(self@.list()[i as int]));
                },
                None => {
                    assert(false);
                },
            }
            assert(self@.list().take(i + 1) =~= before.push(self@.list()[i as int]));
            i += 1;
        }
        assert(self@.list().take(i as int) =~= self@.list());
        items
    }

    /// If a text trigger ends the buffer at a word boundary, its character
    /// length (how many characters to delete) and the expansion of the longest
    /// such trigger. Shortcuts are never matched here.
    pub fn match_suffix(&self, buffer: &[char]) -> (m: Option<(usize, String)>)
        requires
            self.wf(),
        ensures
            match m {
                Some((n, expansion)) => {
                    &&& self@.fires_longest(buffer@, n as int)
                    &&& self@.fires(buffer@, n as int)
                    &&& forall|m: int| #[trigger] self@.fires(buffer@, m) ==> m <= n
                    &&& expansion@ == self@.entries[ending(buffer@, n as int)].0
                },
                None => forall|n: int| !#[trigger] self@.fires(buffer@, n),
            },
    {
        let mut in_word: Vec<bool> = Vec::new();
        let mut i: usize = 0;
        while i < buffer.len()
            invariant
                i <= buffer@.len(),
                in_word@.len() == i,
                forall|k: int| 0 <= k < i ==> #[trigger] in_word@[k] == alphanumeric(buffer@[k]),
            decreases buffer@.len() - i,
        {
            in_word.push(is_alphanumeric(buffer[i]));
            i += 1;
        }
        assert forall|n: int| #[trigger]
            self@.fires(buffer@, n) == self@.fires_given(buffer@, in_word@, n) by {}
        self.match_suffix_given(buffer, in_word.as_slice())
    }

    /// The same, when `in_word` tells which characters of the buffer belong to
    /// words.
    pub fn match_suffix_given(&self, buffer: &[char], in_word: &[bool]) -> (m: Option<
        (usize, String),
    >)
        requires
            self.wf(),
            in_word@.len() == buffer@.len(),
        ensures
            match m {
                Some((n, expansion)) => {
                    &&& self@.fires_given(buffer@, in_word@, n as int)
                    &&& forall|k: int| #[trigger]
                        self@.fires_given(buffer@, in_word@, k) ==> k <= n
                    &&& expansion@ == self@.entries[ending(buffer@, n as int)].0
                },
                None => forall|n: int| !#[trigger] self@.fires_given(buffer@, in_word@, n),
            },
    {
        let total: usize = buffer.len();
        let mut node: &SuffixNode = &self.suffixes;
        let mut matched: Option<(usize, String)> = None;
        let mut len: usize = 0;
        let ghost text = buffer@;
        let ghost word = in_word@;
        assert(ending(text, 0).reverse() =~= Seq::<char>::empty());
        assert forall|path: Seq<char>| #[trigger]
            node.find(path) == self.suffixes.find(ending(text, 0).reverse() + path) by {
            assert(ending(text, 0).reverse() + path =~= path);
        }
        while len < total
            invariant
                self.wf(),
                text == buffer@,
                word == in_word@,
                word.len() == text.len(),
                total == text.len(),
                len <= total,
                forall|path: Seq<char>| #[trigger]
                    node.find(path) == self.suffixes.find(
                        ending(text, len as int).reverse() + path,
                    ),
                match matched {
                    Some((n, expansion)) => {
                        &&& n <= len
                        &&& self@.fires_given(text, word, n as int)
                        &&& forall|m: int| m <= len && #[trigger] self@.fires_given(text, word, m) ==> m <= n
                        &&& expansion@ == self@.entries[ending(text, n as int)].0
                    },
                    None => forall|m: int| m <= len ==> !#[trigger] self@.fires_given(text, word, m),
                },
            decreases total - len,
        {
            let start: usize = total - len - 1;
            let c: char = buffer[start];
            let ghost shorter = ending(text, len as int);
            let ghost longer = ending(text, len + 1);
            proof {
                lemma_ending_grows(text, len as int);
            }
            let next = match node.child(c) {
                Some(next) => next,
                None => {
                    proof {
                        assert forall|m: int| !(m > len && #[trigger] self@.fires_given(text, word, m)) by {
                            if m > len && self@.fires_given(text, word, m) {
                                lemma_dead_end(self.suffixes, self@, *node, text, word, len as int, m);
                            }
                        }
                    }
                    return matched;
                },
            };
            proof {
                assert forall|path: Seq<char>| #[trigger]
                    next.find(path) == self.suffixes.find(longer.reverse() + path) by {
                    assert(next.find(path) == node.find(seq![c] + path));
                    assert(shorter.reverse() + (seq![c] + path) =~= longer.reverse() + path);
                }
                assert(longer.reverse() + Seq::<char>::empty() =~= longer.reverse());
                assert(longer.reverse().reverse() =~= longer);
                assert(next.find(Seq::empty()) == self.suffixes.find(longer.reverse()));
            }
            node = next;
            len += 1;
            if start == 0 || !in_word[start - 1] {
                match node.stored() {
                    Some(trigger) => {
                        match self.map.get(trigger.as_str()) {
                            Some(entry) => {
                                assert(self@.fires_given(text, word, len as int));
                                matched = Some((len, entry.expansion.clone()));
                            },
                            None => {},
                        }
                    },
                    None => {},
                }
            }
        }
        matched
    }

    /// Apply a user-chosen order. Unknown triggers are dropped, duplicates
    /// keep their first occurrence, and any snippet missing from `order`
    /// retains its old relative position at the end.
    pub fn set_order(&mut self, order: Vec<String>)
        requires
            old(self).wf(),
        ensures
            final(self).wf(),
            final(self)@ == old(self)@.reorder(order@.map_values(|s: String| s@)),
    {
        let ghost b = self@;
        let ghost wanted = order@.map_values(|s: String| s@);
        let mut seen = StringHashSet::new();
        let mut next: Vec<String> = Vec::new();
        let ghost given = order@;
        assert(next@.map_values(|s: String| s@) =~= b.known_once(wanted.take(0)));
        for t in it: order
            invariant
                it.seq() == given,
                wanted == given.map_values(|s: String| s@),
                *self == *old(self),
                b == self@,
                next@.map_values(|s: String| s@) == b.known_once(wanted.take(it.index() as int)),
                forall|u: Seq<char>| #[trigger]
                    seen@.contains(u) <==> next@.map_values(|s: String| s@).contains(u),
        {
            let ghost before = next@.map_values(|s: String| s@);
            let ghost now = wanted.take(it.index() + 1);
            assert(now.drop_last() =~= wanted.take(it.index() as int));
            if self.map.contains_key(t.as_str()) && seen.insert(t.clone()) {
                next.push(t);
                assert(next@.map_values(|s: String| s@) =~= before.push(t@));
                assert forall|u: Seq<char>| #[trigger]
                    seen@.contains(u) <==> before.push(t@).contains(u) by {
                    lemma_push_contains(before, t@, u);
                }
            }
        }
        assert(wanted.take(wanted.len() as int) =~= wanted);
        let ghost first = b.known_once(wanted);
        let ghost p = |t: Seq<char>| !first.contains(t);
        let mut i: usize = 0;
        assert(b.order.take(0).filter(p) =~= Seq::empty());
        while i < self.order.len()
            invariant
                *self == *old(self),
                b == self@,
                i <= self.order@.len(),
                p == |t: Seq<char>| !first.contains(t),
                forall|u: Seq<char>| #[trigger] seen@.contains(u) <==> first.contains(u),
                next@.map_values(|s: String| s@) == first + b.order.take(i as int).filter(p),
            decreases self.order@.len() - i,
        {
            let ghost before = next@.map_values(|s: String| s@);
            proof {
                reveal(Seq::filter);
                assert(b.order.take(i + 1).drop_last() =~= b.order.take(i as int));
            }
            if !seen.contains(self.order[i].as_str()) {
                next.push(self.order[i].clone());
                assert(next@.map_values(|s: String| s@) =~= before.push(b.order[i as int]));
            }
            i += 1;
        }
        assert(b.order.take(i as int) =~= b.order);
        self.order = next;
        proof {
            assert(self@ =~= b.reorder(wanted));
            lemma_reorder_wf(b, wanted);
            assert(indexes(self.suffixes, self@));
        }
    }
}

/// Putting items with different triggers into an empty store keeps their
/// order and their contents.
pub(crate) proof fn lemma_upsert_distinct(items: Seq<(Seq<char>, Seq<char>, TriggerKind)>)
    requires
        triggers(items).no_duplicates(),
    ensures
        ({
            let b = Book::empty().upsert_all(items);
            &&& b.wf()
            &&& b.order == triggers(items)
            &&& forall|i: int|
                0 <= i < items.len() ==> b.entries[#[trigger] triggers(items)[i]] == (
                    items[i].1,
                    items[i].2,
                )
        }),
    decreases items.len(),
{
    let b = Book::empty().upsert_all(items);
    let ts = triggers(items);
    if items.len() > 0 {
        let rest = items.drop_last();
        let last = items.last();
        let rs = triggers(rest);
        assert(ts =~= rs.push(last.0));
        assert forall|i: int, j: int| 0 <= i < rs.len() && 0 <= j < rs.len() && i != j implies rs[i]
            != rs[j] by {
            assert(ts[i] != ts[j]);
        }
        lemma_upsert_distinct(rest);
        let c = Book::empty().upsert_all(rest);
        assert(!c.order.contains(last.0)) by {
            if rs.contains(last.0) {
                let i = rs.index_of(last.0);
                assert(ts[i] == ts[ts.len() - 1]);
            }
        }
        lemma_upsert_wf(c, last.0, last.1, last.2);
        assert forall|i: int| 0 <= i < items.len() implies b.entries[#[trigger] ts[i]] == (
            items[i].1,
            items[i].2,
        ) by {
            if i < rest.len() {
                assert(rs[i] == ts[i]);
                assert(ts[i] != ts[ts.len() - 1]);
            }
        }
    } else {
        assert(b.order =~= ts);
    }
}

pub(crate) proof fn lemma_known_once(b: Book, wanted: Seq<Seq<char>>)
    ensures
        b.known_once(wanted).no_duplicates(),
        forall|t: Seq<char>| #[trigger]
            b.known_once(wanted).contains(t) <==> wanted.contains(t) && b.entries.contains_key(t),
    decreases wanted.len(),
{
    if wanted.len() > 0 {
        let w = wanted.drop_last();
        let last = wanted.last();
        let before = b.known_once(w);
        lemma_known_once(b, w);
        if !before.contains(last) {
            lemma_push_no_duplicates(before, last);
        }
        assert forall|t: Seq<char>| #[trigger]
            b.known_once(wanted).contains(t) <==> wanted.contains(t) && b.entries.contains_key(
                t,
            ) by {
            lemma_push_contains(w, last, t);
            lemma_push_contains(before, last, t);
            assert(wanted =~= w.push(last));
            assert(before.contains(t) <==> w.contains(t) && b.entries.contains_key(t));
        }
    }
}

pub(crate) proof fn lemma_reorder_wf(b: Book, wanted: Seq<Seq<char>>)
    requires
        b.wf(),
    ensures
        b.reorder(wanted).wf(),
{
    let c = b.reorder(wanted);
    let first = b.known_once(wanted);
    let p = |t: Seq<char>| !first.contains(t);
    let rest = b.order.filter(p);
    lemma_known_once(b, wanted);
    lemma_filter(b.order, p);
    assert forall|t: Seq<char>| #[trigger]
        c.order.contains(t) <==> c.entries.contains_key(t) by {
        assert(b.order.contains(t) <==> b.entries.contains_key(t));
        assert(rest.contains(t) <==> b.order.contains(t) && p(t));
        if first.contains(t) {
            assert(c.order[first.index_of(t)] == t);
        } else if rest.contains(t) {
            assert(c.order[first.len() + rest.index_of(t)] == t);
        }
        if c.order.contains(t) {
            let i = c.order.index_of(t);
            if i < first.len() {
                assert(first[i] == t);
            } else {
                assert(rest[i - first.len()] == t);
            }
        }
    }
    assert forall|i: int, j: int|
        0 <= i < c.order.len() && 0 <= j < c.order.len() && i != j implies c.order[i]
        != c.order[j] by {
        let n = first.len();
        if i < n && j < n {
            assert(first[i] != first[j]);
        } else if i >= n && j >= n {
            assert(rest[i - n] != rest[j - n]);
        } else if i < n {
            assert(first.contains(first[i]));
            assert(rest.contains(rest[j - n]));
        } else {
            assert(first.contains(first[j]));
            assert(rest.contains(rest[i - n]));
        }
    }
}

/// Why a snippet cannot be replaced.
pub open spec fn replace_error(
    b: Book,
    old_trigger: Seq<char>,
    new_trigger: Seq<char>,
) -> Option<Seq<char>> {
    if old_trigger != new_trigger && b.entries.contains_key(new_trigger) {
        Some("A snippet with that trigger already exists."@)
    } else if !b.entries.contains_key(old_trigger) {
        Some("Snippet not found."@)
    } else {
        None
    }
}

pub(crate) proof fn lemma_replace_wf(
    b: Book,
    old_trigger: Seq<char>,
    new_trigger: Seq<char>,
    expansion: Seq<char>,
    kind: TriggerKind,
)
    requires
        b.wf(),
        replace_error(b, old_trigger, new_trigger) is None,
    ensures
        b.replace(old_trigger, new_trigger, expansion, kind).wf(),
{
    let c = b.replace(old_trigger, new_trigger, expansion, kind);
    assert(b.order.contains(old_trigger));
    let p = b.order.index_of(old_trigger);
    assert(old_trigger != new_trigger ==> !b.order.contains(new_trigger));
    assert forall|u: Seq<char>| #[trigger]
        c.order.contains(u) <==> c.entries.contains_key(u) by {
        if c.order.contains(u) && u != new_trigger {
            let i = c.order.index_of(u);
            assert(b.order[i] == u && i != p);
            assert(b.order.contains(u));
        }
        if c.entries.contains_key(u) && u != new_trigger {
            assert(b.order.contains(u));
            let i = b.order.index_of(u);
            assert(c.order[i] == u);
        }
        assert(c.order[p] == new_trigger);
    }
    assert forall|i: int, j: int|
        0 <= i < c.order.len() && 0 <= j < c.order.len() && i != j implies c.order[i]
        != c.order[j] by {
        assert(b.order[i] != b.order[j]);
        assert(b.order.contains(b.order[i]) && b.order.contains(b.order[j]));
    }
}

/// Filtering one element out of a sequence without duplicates removes it.
pub(crate) proof fn lemma_filter_one(s: Seq<Seq<char>>, i: int)
    requires
        s.no_duplicates(),
        0 <= i < s.len(),
    ensures
        s.filter(other_than(s[i])) == s.remove(i),
    decreases s.len(),
{
    reveal(Seq::filter);
    let p = other_than(s[i]);
    let t = s.drop_last();
    if i == s.len() - 1 {
        assert forall|k: int| 0 <= k < t.len() implies #[trigger] p(t[k]) by {
            assert(s[k] != s[i]);
        }
        lemma_filter_all(t, p);
        assert(s.remove(i) =~= t);
    } else {
        lemma_filter_one(t, i);
        assert(t[i] == s[i]);
        assert(s.remove(i) =~= t.remove(i).push(s.last()));
    }
}

pub(crate) proof fn lemma_remove_wf(b: Book, t: Seq<char>)
    requires
        b.wf(),
    ensures
        b.remove(t).wf(),
{
    let c = b.remove(t);
    lemma_filter(b.order, other_than(t));
    assert forall|u: Seq<char>| #[trigger]
        c.order.contains(u) <==> c.entries.contains_key(u) by {
        assert(b.order.contains(u) <==> b.entries.contains_key(u));
    }
}

pub(crate) proof fn lemma_upsert_wf(b: Book, t: Seq<char>, expansion: Seq<char>, kind: TriggerKind)
    requires
        b.wf(),
    ensures
        b.upsert(t, expansion, kind).wf(),
{
    let c = b.upsert(t, expansion, kind);
    if !b.entries.contains_key(t) {
        assert(!b.order.contains(t));
        assert forall|u: Seq<char>| #[trigger]
            c.order.contains(u) <==> c.entries.contains_key(u) by {
            if c.order.contains(u) && u != t {
                let i = c.order.index_of(u);
                assert(b.order[i] == u);
            }
            if b.order.contains(u) {
                let i = b.order.index_of(u);
                assert(c.order[i] == u);
            }
            assert(c.order[b.order.len() as int] == t);
        }
    } else {
        assert forall|u: Seq<char>| #[trigger]
            c.order.contains(u) <==> c.entries.contains_key(u) by {
            assert(b.order.contains(u) <==> b.entries.contains_key(u));
        }
    }
}

proof fn lemma_ending_grows(text: Seq<char>, n: int)
    requires
        0 <= n < text.len(),
    ensures
        ending(text, n + 1).reverse() == ending(text, n).reverse() + seq![text[text.len() - n - 1]],
{
    assert(ending(text, n + 1) =~= seq![text[text.len() - n - 1]] + ending(text, n));
    assert(ending(text, n + 1).reverse() =~= ending(text, n).reverse() + seq![
        text[text.len() - n - 1],
    ]);
}

/// Where the index has no node for one more character, nothing longer fires.
proof fn lemma_dead_end(
    root: SuffixNode,
    book: Book,
    node: SuffixNode,
    text: Seq<char>,
    word: Seq<bool>,
    n: int,
    m: int,
)
    requires
        0 <= n < m <= text.len(),
        indexes(root, book),
        forall|path: Seq<char>| #[trigger]
            node.find(path) == root.find(ending(text, n).reverse() + path),
        forall|path: Seq<char>|
            (#[trigger] node.find(seq![text[text.len() - n - 1]] + path)) is None,
    ensures
        !book.fires_given(text, word, m),
{
    let whole = ending(text, m);
    let rest = whole.reverse().skip(n + 1);
    let c = text[text.len() - n - 1];
    assert(whole.reverse() =~= ending(text, n).reverse() + (seq![c] + rest));
    assert(node.find(seq![c] + rest) is None);
    assert(whole.reverse().reverse() =~= whole);
    assert(root.find(whole.reverse()) is None);
}

/// An index finds exactly the text triggers of a book.
spec fn indexes(root: SuffixNode, book: Book) -> bool {
    forall|path: Seq<char>| #[trigger]
        root.find(path) == if book.has_text(path.reverse()) {
            Some(path.reverse())
        } else {
            None
        }
}

} // verus!
