//! What holds of the snippet store: what each change keeps, what it undoes, and
//! what is read back.

use vstd::prelude::*;

use crate::collate::{ascending, before, before_total};
use crate::seqs::{lemma_filter, lemma_filter_all, lemma_filter_keeps_order};
use crate::snippets::{
    lemma_filter_one, lemma_known_once, lemma_remove_wf, lemma_reorder_wf, lemma_replace_wf,
    lemma_upsert_distinct, lemma_upsert_wf, other_than, replace_error, triggers, Book, TriggerKind,
};

verus! {

/// Every change keeps the order and the entries together: the order goes on
/// naming every trigger exactly once.
pub proof fn changes_keep_the_order_whole(
    b: Book,
    t: Seq<char>,
    u: Seq<char>,
    expansion: Seq<char>,
    kind: TriggerKind,
    wanted: Seq<Seq<char>>,
)
    requires
        b.wf(),
    ensures
        b.upsert(t, expansion, kind).wf(),
        b.remove(t).wf(),
        b.reorder(wanted).wf(),
        replace_error(b, t, u) is None ==> b.replace(t, u, expansion, kind).wf(),
{
    lemma_upsert_wf(b, t, expansion, kind);
    lemma_remove_wf(b, t);
    lemma_reorder_wf(b, wanted);
    if replace_error(b, t, u) is None {
        lemma_replace_wf(b, t, u, expansion, kind);
    }
}

/// A store holds as many snippets as its order names.
pub proof fn order_and_entries_have_one_length(b: Book)
    requires
        b.wf(),
    ensures
        b.entries.dom().finite(),
        b.entries.len() == b.order.len(),
{
    b.order.unique_seq_to_set();
    assert(b.order.to_set() =~= b.entries.dom());
}

/// A sound store is one whose order names every stored trigger, nothing else,
/// and nothing twice.
pub proof fn a_sound_store_names_each_trigger_once(b: Book)
    ensures
        b.wf() <==> {
            &&& forall|i: int, j: int|
                0 <= i < j < b.order.len() ==> #[trigger] b.order[i] != #[trigger] b.order[j]
            &&& forall|i: int|
                0 <= i < b.order.len() ==> b.entries.contains_key(#[trigger] b.order[i])
            &&& forall|t: Seq<char>| #[trigger]
                b.entries.contains_key(t) ==> b.order.contains(t)
        },
        Book::empty().order.len() == 0,
        forall|t: Seq<char>| !#[trigger] Book::empty().entries.contains_key(t),
{
    if b.wf() {
        assert forall|i: int| 0 <= i < b.order.len() implies b.entries.contains_key(
            #[trigger] b.order[i],
        ) by {
            assert(b.order.contains(b.order[i]));
        }
    }
}

/// A new trigger goes behind all others, and one that is there stays where it
/// is; no other moves.
pub proof fn writing_moves_no_trigger(
    b: Book,
    t: Seq<char>,
    expansion: Seq<char>,
    kind: TriggerKind,
    i: int,
)
    ensures
        0 <= i < b.order.len() ==> b.upsert(t, expansion, kind).order[i] == b.order[i],
        b.entries.contains_key(t) ==> b.upsert(t, expansion, kind).order.len() == b.order.len(),
        !b.entries.contains_key(t) ==> {
            &&& b.upsert(t, expansion, kind).order.len() == b.order.len() + 1
            &&& b.upsert(t, expansion, kind).order.last() == t
        },
{
}

/// A batch of none writes nothing, and a batch of one writes that one.
pub proof fn a_batch_writes_its_items(b: Book, item: (Seq<char>, Seq<char>, TriggerKind))
    ensures
        b.upsert_all(Seq::empty()) == b,
        b.upsert_all(seq![item]) == b.upsert(item.0, item.1, item.2),
{
    let none = Seq::<(Seq<char>, Seq<char>, TriggerKind)>::empty();
    assert(b.upsert_all(none) == b);
    assert(seq![item].drop_last() =~= none);
}

/// What an edit writes is read back under the new trigger; the old trigger is
/// gone if it is another; every other snippet keeps what it holds.
pub proof fn read_back_what_an_edit_wrote(
    b: Book,
    t: Seq<char>,
    u: Seq<char>,
    expansion: Seq<char>,
    kind: TriggerKind,
    v: Seq<char>,
)
    requires
        replace_error(b, t, u) is None,
    ensures
        ({
            let c = b.replace(t, u, expansion, kind);
            &&& c.entries.contains_key(u)
            &&& c.entries[u] == (expansion, kind)
            &&& t != u ==> !c.entries.contains_key(t)
            &&& v != t && v != u ==> c.entries.contains_key(v) == b.entries.contains_key(v)
            &&& v != t && v != u && b.entries.contains_key(v) ==> c.entries[v] == b.entries[v]
        }),
{
}

/// An edited snippet keeps its position, under its old or its new trigger, and
/// so does every other.
pub proof fn editing_keeps_positions(
    b: Book,
    t: Seq<char>,
    u: Seq<char>,
    expansion: Seq<char>,
    kind: TriggerKind,
    i: int,
)
    requires
        b.wf(),
        replace_error(b, t, u) is None,
        0 <= i < b.order.len(),
    ensures
        b.replace(t, u, expansion, kind).order.len() == b.order.len(),
        b.replace(t, u, expansion, kind).order[i] == if b.order[i] == t {
            u
        } else {
            b.order[i]
        },
{
    assert(b.order.contains(t));
    let p = b.order.index_of(t);
    if i != p {
        assert(b.order[i] != b.order[p]);
    }
}

/// An edit is refused just if its new trigger belongs to another snippet, or
/// its old one to none, and the reason says which; the first goes before.
pub proof fn an_edit_is_refused_for_a_reason(b: Book, t: Seq<char>, u: Seq<char>)
    ensures
        replace_error(b, t, u) is None <==> b.entries.contains_key(t) && (t == u
            || !b.entries.contains_key(u)),
        t != u && b.entries.contains_key(u) ==> replace_error(b, t, u) == Some(
            "A snippet with that trigger already exists."@,
        ),
        !b.entries.contains_key(t) && !b.entries.contains_key(u) ==> replace_error(b, t, u) == Some(
            "Snippet not found."@,
        ),
{
}

/// A removal takes one snippet out and leaves the contents of all others.
pub proof fn removing_leaves_the_others(b: Book, t: Seq<char>, u: Seq<char>)
    requires
        b.wf(),
    ensures
        b.remove(t).entries.contains_key(u) == (b.entries.contains_key(u) && u != t),
        b.remove(t).order.contains(u) == (b.order.contains(u) && u != t),
        b.remove(t).entries.contains_key(u) ==> b.remove(t).entries[u] == b.entries[u],
        b.remove(t).order.len() == b.order.len() - if b.entries.contains_key(t) {
            1int
        } else {
            0int
        },
{
    lemma_filter(b.order, other_than(t));
    if b.entries.contains_key(t) {
        assert(b.order.contains(t));
        lemma_filter_one(b.order, b.order.index_of(t));
    } else {
        assert(!b.order.contains(t));
        assert forall|k: int| 0 <= k < b.order.len() implies other_than(t)(
            #[trigger] b.order[k],
        ) by {
            assert(b.order.contains(b.order[k]));
        }
        lemma_filter_all(b.order, other_than(t));
    }
}

/// The snippets that a removal leaves keep their relative positions.
pub proof fn removing_keeps_relative_positions(b: Book, t: Seq<char>, i: int, j: int, p: int, q: int)
    requires
        b.wf(),
        0 <= i < j < b.order.len(),
        0 <= p < b.remove(t).order.len(),
        0 <= q < b.remove(t).order.len(),
        b.remove(t).order[p] == b.order[i],
        b.remove(t).order[q] == b.order[j],
    ensures
        p < q,
{
    lemma_remove_wf(b, t);
    lemma_filter(b.order, other_than(t));
    let c = b.remove(t);
    assert(c.order.contains(c.order[p]) && c.order.contains(c.order[q]));
    let (k, m) = lemma_filter_keeps_order(b.order, other_than(t), i, j);
    assert(c.order[k] == c.order[p] && c.order[m] == c.order[q]);
}

/// The list shows every trigger in its place, with what is stored under it.
pub proof fn the_list_shows_what_is_stored(b: Book, i: int)
    ensures
        b.list().len() == b.order.len(),
        0 <= i < b.order.len() ==> b.list()[i] == (
            b.order[i],
            b.entries[b.order[i]].0,
            b.entries[b.order[i]].1,
        ),
{
}

/// What is written under a trigger is read back, and nothing else changes.
pub proof fn read_back_what_was_written(
    b: Book,
    t: Seq<char>,
    expansion: Seq<char>,
    kind: TriggerKind,
    u: Seq<char>,
)
    ensures
        b.upsert(t, expansion, kind).entries.contains_key(t),
        b.upsert(t, expansion, kind).entries[t] == (expansion, kind),
        u != t ==> b.upsert(t, expansion, kind).entries.contains_key(u)
            == b.entries.contains_key(u),
        u != t && b.entries.contains_key(u) ==> b.upsert(t, expansion, kind).entries[u]
            == b.entries[u],
{
}

/// Writing a snippet that is there again with the same content changes
/// nothing.
pub proof fn writing_the_same_changes_nothing(b: Book, t: Seq<char>)
    requires
        b.entries.contains_key(t),
    ensures
        b.upsert(t, b.entries[t].0, b.entries[t].1) == b,
{
    assert(b.upsert(t, b.entries[t].0, b.entries[t].1).entries =~= b.entries);
}

/// Removing a snippet that was just added gives the store back as it was.
pub proof fn removing_undoes_adding(
    b: Book,
    t: Seq<char>,
    expansion: Seq<char>,
    kind: TriggerKind,
)
    requires
        b.wf(),
        !b.entries.contains_key(t),
    ensures
        b.upsert(t, expansion, kind).remove(t) == b,
{
    let c = b.upsert(t, expansion, kind);
    let n = b.order.len() as int;
    assert(c.order == b.order.push(t));
    assert(c.order.no_duplicates()) by {
        lemma_upsert_wf(b, t, expansion, kind);
    }
    assert(c.order.filter(other_than(t)) == b.order) by {
        assert(c.order[n] == t);
        lemma_filter_one(c.order, n);
        assert(b.order.push(t).remove(n) =~= b.order);
    }
    assert(c.remove(t).entries =~= b.entries);
}

/// After a removal the trigger is gone, and removing it again changes nothing.
pub proof fn removing_twice_is_removing_once(b: Book, t: Seq<char>)
    requires
        b.wf(),
    ensures
        !b.remove(t).entries.contains_key(t),
        !b.remove(t).order.contains(t),
        b.remove(t).remove(t) == b.remove(t),
{
    let c = b.remove(t);
    lemma_remove_wf(b, t);
    assert(!c.entries.contains_key(t));
    assert(!c.order.contains(t));
    assert forall|k: int| 0 <= k < c.order.len() implies other_than(t)(#[trigger] c.order[k]) by {
        assert(c.order.contains(c.order[k]));
    }
    lemma_filter_all(c.order, other_than(t));
    assert(c.remove(t).entries =~= c.entries);
}

/// Renaming a snippet and naming it back, with its old content, gives the
/// store back as it was.
pub proof fn renaming_back_undoes_renaming(
    b: Book,
    t: Seq<char>,
    u: Seq<char>,
    expansion: Seq<char>,
    kind: TriggerKind,
)
    requires
        b.wf(),
        b.entries.contains_key(t),
        replace_error(b, t, u) is None,
    ensures
        replace_error(b.replace(t, u, expansion, kind), u, t) is None,
        b.replace(t, u, expansion, kind).replace(u, t, b.entries[t].0, b.entries[t].1) == b,
{
    let c = b.replace(t, u, expansion, kind);
    let d = c.replace(u, t, b.entries[t].0, b.entries[t].1);
    lemma_replace_wf(b, t, u, expansion, kind);
    assert(b.order.contains(t));
    let p = b.order.index_of(t);
    assert(c.order[p] == u);
    assert(c.order.contains(u));
    let q = c.order.index_of(u);
    assert(q == p);
    assert(d.order =~= b.order);
    assert(d.entries =~= b.entries);
}

/// A store that is listed and read in again is the same store: the list holds
/// every snippet, and the order with it.
pub proof fn listing_loses_nothing(b: Book)
    requires
        b.wf(),
    ensures
        Book::empty().upsert_all(b.list()) == b,
{
    let items = b.list();
    let c = Book::empty().upsert_all(items);
    assert(triggers(items) =~= b.order);
    lemma_upsert_distinct(items);
    assert forall|t: Seq<char>| #[trigger]
        c.entries.contains_key(t) <==> b.entries.contains_key(t) by {
        assert(c.order.contains(t) <==> c.entries.contains_key(t));
        assert(b.order.contains(t) <==> b.entries.contains_key(t));
    }
    assert forall|t: Seq<char>| c.entries.contains_key(t) implies #[trigger] c.entries[t]
        == b.entries[t] by {
        assert(b.order.contains(t));
        let i = b.order.index_of(t);
        assert(triggers(items)[i] == t);
    }
    assert(c.entries =~= b.entries);
    assert(c.order =~= b.order);
}

/// A batch gives what its halves give one after the other.
pub proof fn batches_compose(
    b: Book,
    first: Seq<(Seq<char>, Seq<char>, TriggerKind)>,
    second: Seq<(Seq<char>, Seq<char>, TriggerKind)>,
)
    ensures
        b.upsert_all(first + second) == b.upsert_all(first).upsert_all(second),
    decreases second.len(),
{
    if second.len() == 0 {
        assert(first + second =~= first);
    } else {
        batches_compose(b, first, second.drop_last());
        assert((first + second).drop_last() =~= first + second.drop_last());
    }
}

/// A batch keeps the order and the entries together.
pub proof fn batches_keep_the_order_whole(
    b: Book,
    items: Seq<(Seq<char>, Seq<char>, TriggerKind)>,
)
    requires
        b.wf(),
    ensures
        b.upsert_all(items).wf(),
    decreases items.len(),
{
    if items.len() > 0 {
        let last = items.last();
        batches_keep_the_order_whole(b, items.drop_last());
        lemma_upsert_wf(b.upsert_all(items.drop_last()), last.0, last.1, last.2);
    }
}

/// What a batch writes last under a trigger is read back.
pub proof fn read_back_what_a_batch_wrote_last(
    b: Book,
    items: Seq<(Seq<char>, Seq<char>, TriggerKind)>,
    i: int,
)
    requires
        0 <= i < items.len(),
        !triggers(items.skip(i + 1)).contains(items[i].0),
    ensures
        b.upsert_all(items).entries.contains_key(items[i].0),
        b.upsert_all(items).entries[items[i].0] == (items[i].1, items[i].2),
{
    let first = items.take(i + 1);
    let rest = items.skip(i + 1);
    assert(items =~= first + rest);
    batches_compose(b, first, rest);
    lemma_batch_leaves_alone(b.upsert_all(first), rest, items[i].0);
}

/// A batch leaves alone what it does not name.
pub(crate) proof fn lemma_batch_leaves_alone(
    b: Book,
    items: Seq<(Seq<char>, Seq<char>, TriggerKind)>,
    t: Seq<char>,
)
    requires
        !triggers(items).contains(t),
    ensures
        b.upsert_all(items).entries.contains_key(t) == b.entries.contains_key(t),
        b.upsert_all(items).entries[t] == b.entries[t],
    decreases items.len(),
{
    if items.len() > 0 {
        let rest = items.drop_last();
        let n = items.len() - 1;
        assert(triggers(items)[n] == items[n].0);
        if triggers(rest).contains(t) {
            let i = triggers(rest).index_of(t);
            assert(triggers(items)[i] == t);
        }
        lemma_batch_leaves_alone(b, rest, t);
    }
}

/// A new order, however stale or partial, loses no snippet, adds none and
/// changes none: it only permutes the triggers.
pub proof fn reordering_loses_nothing(b: Book, wanted: Seq<Seq<char>>)
    requires
        b.wf(),
    ensures
        b.reorder(wanted).entries == b.entries,
        b.reorder(wanted).order.len() == b.order.len(),
        b.reorder(wanted).order.no_duplicates(),
        forall|t: Seq<char>| #[trigger]
            b.reorder(wanted).order.contains(t) <==> b.order.contains(t),
{
    let c = b.reorder(wanted);
    lemma_reorder_wf(b, wanted);
    order_and_entries_have_one_length(b);
    order_and_entries_have_one_length(c);
    assert forall|t: Seq<char>| #[trigger] c.order.contains(t) <==> b.order.contains(t) by {
        assert(b.order.contains(t) <==> b.entries.contains_key(t));
        assert(c.order.contains(t) <==> c.entries.contains_key(t));
    }
}

/// An order that names every trigger once is taken as it is.
pub proof fn a_full_order_is_applied(b: Book, wanted: Seq<Seq<char>>)
    requires
        b.wf(),
        wanted.no_duplicates(),
        forall|t: Seq<char>| #[trigger] wanted.contains(t) <==> b.order.contains(t),
    ensures
        b.reorder(wanted).order == wanted,
{
    assert forall|k: int| 0 <= k < wanted.len() implies b.entries.contains_key(
        #[trigger] wanted[k],
    ) by {
        assert(wanted.contains(wanted[k]));
        assert(b.order.contains(wanted[k]));
    }
    lemma_known_once_all(b, wanted);
    let p = |t: Seq<char>| !wanted.contains(t);
    lemma_filter(b.order, p);
    let rest = b.order.filter(p);
    if rest.len() > 0 {
        assert(rest.contains(rest[0]));
        assert(b.order.contains(rest[0]) && p(rest[0]));
        assert(false);
    }
    assert(b.reorder(wanted).order =~= wanted);
}

proof fn lemma_known_once_all(b: Book, wanted: Seq<Seq<char>>)
    requires
        wanted.no_duplicates(),
        forall|k: int| 0 <= k < wanted.len() ==> b.entries.contains_key(#[trigger] wanted[k]),
    ensures
        b.known_once(wanted) == wanted,
    decreases wanted.len(),
{
    if wanted.len() > 0 {
        let w = wanted.drop_last();
        assert forall|k: int| 0 <= k < w.len() implies b.entries.contains_key(
            #[trigger] w[k],
        ) by {
            assert(w[k] == wanted[k]);
        }
        assert forall|i: int, j: int| 0 <= i < w.len() && 0 <= j < w.len() && i != j implies w[i]
            != w[j] by {
            assert(wanted[i] != wanted[j]);
        }
        lemma_known_once_all(b, w);
        if w.contains(wanted.last()) {
            let i = w.index_of(wanted.last());
            assert(wanted[i] == wanted[wanted.len() - 1]);
        }
        assert(b.entries.contains_key(wanted[wanted.len() - 1]));
        assert(wanted =~= w.push(wanted.last()));
    }
}

/// Asking for the same order again changes nothing, and neither does asking
/// for the order that came of it.
pub proof fn reordering_twice_is_reordering_once(b: Book, wanted: Seq<Seq<char>>)
    requires
        b.wf(),
    ensures
        b.reorder(wanted).reorder(wanted) == b.reorder(wanted),
        b.reorder(wanted).reorder(b.reorder(wanted).order) == b.reorder(wanted),
{
    let c = b.reorder(wanted);
    let first = b.known_once(wanted);
    let p = |t: Seq<char>| !first.contains(t);
    let rest = b.order.filter(p);
    lemma_known_once_by_entries(b, c, wanted);
    lemma_filter(b.order, p);
    assert(c.order.filter(p) == rest) by {
        Seq::filter_distributes_over_add(first, rest, p);
        lemma_filter(first, p);
        if first.filter(p).len() > 0 {
            assert(first.filter(p).contains(first.filter(p)[0]));
        }
        assert forall|k: int| 0 <= k < rest.len() implies p(#[trigger] rest[k]) by {
            assert(rest.contains(rest[k]));
        }
        lemma_filter_all(rest, p);
        assert(first.filter(p) + rest =~= rest);
    }
    assert(c.reorder(wanted).order == first + c.order.filter(p));
    lemma_reorder_wf(b, wanted);
    a_full_order_is_applied(c, c.order);
}

/// Which triggers of a wanted order are known depends on the entries only.
proof fn lemma_known_once_by_entries(b: Book, c: Book, wanted: Seq<Seq<char>>)
    requires
        b.entries == c.entries,
    ensures
        b.known_once(wanted) == c.known_once(wanted),
    decreases wanted.len(),
{
    if wanted.len() > 0 {
        lemma_known_once_by_entries(b, c, wanted.drop_last());
    }
}

/// The snippets that a new order names stand in the order in which it names
/// them first.
pub proof fn named_snippets_stand_as_named(
    b: Book,
    wanted: Seq<Seq<char>>,
    i: int,
    j: int,
    p: int,
    q: int,
)
    requires
        b.wf(),
        0 <= i < j < wanted.len(),
        b.entries.contains_key(wanted[i]),
        b.entries.contains_key(wanted[j]),
        forall|k: int| 0 <= k < j ==> #[trigger] wanted[k] != wanted[j],
        0 <= p < b.reorder(wanted).order.len(),
        0 <= q < b.reorder(wanted).order.len(),
        b.reorder(wanted).order[p] == wanted[i],
        b.reorder(wanted).order[q] == wanted[j],
    ensures
        p < q,
{
    let first = b.known_once(wanted);
    let order = b.reorder(wanted).order;
    lemma_reorder_wf(b, wanted);
    let (k, m) = lemma_known_once_keeps_order(b, wanted, i, j);
    assert(order[k] == order[p] && order[m] == order[q]);
}

/// Gives the positions to which two named triggers go.
proof fn lemma_known_once_keeps_order(b: Book, wanted: Seq<Seq<char>>, i: int, j: int) -> (r: (
    int,
    int,
))
    requires
        0 <= i < j < wanted.len(),
        b.entries.contains_key(wanted[i]),
        b.entries.contains_key(wanted[j]),
        forall|k: int| 0 <= k < j ==> #[trigger] wanted[k] != wanted[j],
    ensures
        0 <= r.0 < r.1 < b.known_once(wanted).len(),
        b.known_once(wanted)[r.0] == wanted[i],
        b.known_once(wanted)[r.1] == wanted[j],
    decreases wanted.len(),
{
    let w = wanted.drop_last();
    if j < w.len() {
        assert forall|k: int| 0 <= k < j implies #[trigger] w[k] != w[j] by {
            assert(wanted[k] != wanted[j]);
        }
        lemma_known_once_keeps_order(b, w, i, j)
    } else {
        let before = b.known_once(w);
        lemma_known_once(b, w);
        assert(w.contains(w[i]));
        assert(before.contains(w[i]));
        assert(!before.contains(wanted[j])) by {
            if w.contains(wanted[j]) {
                let k = w.index_of(wanted[j]);
                assert(wanted[k] == wanted[j]);
            }
        }
        (before.index_of(w[i]), before.len() as int)
    }
}

/// The snippets that a new order names stand before those that it leaves out.
pub proof fn named_snippets_stand_first(
    b: Book,
    wanted: Seq<Seq<char>>,
    p: int,
    q: int,
)
    requires
        b.wf(),
        0 <= p < b.reorder(wanted).order.len(),
        0 <= q < b.reorder(wanted).order.len(),
        wanted.contains(b.reorder(wanted).order[p]),
        !wanted.contains(b.reorder(wanted).order[q]),
    ensures
        p < q,
{
    let first = b.known_once(wanted);
    let c = b.reorder(wanted);
    lemma_known_once(b, wanted);
    lemma_reorder_wf(b, wanted);
    assert(c.order.contains(c.order[p]));
    assert(first.contains(c.order[p]));
    let k = first.index_of(c.order[p]);
    assert(c.order[k] == c.order[p]);
    if q < first.len() {
        assert(first.contains(c.order[q]));
    }
}

/// The snippets that a new order leaves out keep their relative positions, and
/// stand behind those that it names.
pub proof fn left_out_snippets_keep_their_relative_positions(
    b: Book,
    wanted: Seq<Seq<char>>,
    i: int,
    j: int,
)
    requires
        b.wf(),
        0 <= i < j < b.order.len(),
        !wanted.contains(b.order[i]),
        !wanted.contains(b.order[j]),
    ensures
        ({
            let n = b.known_once(wanted).len();
            let order = b.reorder(wanted).order;
            n <= order.index_of(b.order[i]) < order.index_of(b.order[j])
        }),
{
    let first = b.known_once(wanted);
    let p = |t: Seq<char>| !first.contains(t);
    let rest = b.order.filter(p);
    let c = b.reorder(wanted);
    lemma_known_once(b, wanted);
    lemma_reorder_wf(b, wanted);
    assert(p(b.order[i]) && p(b.order[j]));
    let (k, m) = lemma_filter_keeps_order(b.order, p, i, j);
    assert(c.order == first + rest);
    assert(c.order[first.len() + k] == b.order[i]);
    assert(c.order[first.len() + m] == b.order[j]);
}

/// A sorted order is determined by what is stored, and by nothing else.
pub proof fn a_sorted_order_is_determined(b: Book, c: Book)
    requires
        b.wf(),
        c.wf(),
        b.entries == c.entries,
        ascending(b.order),
        ascending(c.order),
    ensures
        b == c,
{
    assert forall|t: Seq<char>| #[trigger] b.order.contains(t) <==> c.order.contains(t) by {
        assert(b.order.contains(t) <==> b.entries.contains_key(t));
        assert(c.order.contains(t) <==> c.entries.contains_key(t));
    }
    lemma_ascending_unique(b.order, c.order);
}

proof fn lemma_ascending_unique(s: Seq<Seq<char>>, t: Seq<Seq<char>>)
    requires
        ascending(s),
        ascending(t),
        forall|x: Seq<char>| #[trigger] s.contains(x) <==> t.contains(x),
    ensures
        s == t,
    decreases s.len(),
{
    if s.len() == 0 {
        if t.len() > 0 {
            assert(t.contains(t[0]));
            assert(s.contains(t[0]));
        }
        assert(s =~= t);
    } else {
        assert(s.contains(s.last()));
        assert(t.contains(s.last()));
        assert(t.contains(t.last()));
        assert(s.contains(t.last()));
        let i = t.index_of(s.last());
        let j = s.index_of(t.last());
        if s.last() != t.last() {
            assert(before(t[i], t[t.len() - 1]));
            assert(before(s[j], s[s.len() - 1]));
            before_total(s.last(), t.last());
        }
        let a = s.drop_last();
        let b = t.drop_last();
        assert forall|x: Seq<char>| #[trigger] a.contains(x) <==> b.contains(x) by {
            lemma_drop_last_contains(s, x);
            lemma_drop_last_contains(t, x);
            assert(s.contains(x) <==> t.contains(x));
        }
        lemma_ascending_unique(a, b);
        assert(s =~= a.push(s.last()));
        assert(t =~= b.push(t.last()));
    }
}

proof fn lemma_drop_last_contains(s: Seq<Seq<char>>, x: Seq<char>)
    requires
        s.len() > 0,
        ascending(s),
    ensures
        s.drop_last().contains(x) <==> s.contains(x) && x != s.last(),
{
    let a = s.drop_last();
    if a.contains(x) {
        let i = a.index_of(x);
        assert(s[i] == x);
        assert(before(s[i], s[s.len() - 1]));
        before_total(x, s.last());
    }
    if s.contains(x) && x != s.last() {
        let i = s.index_of(x);
        assert(a[i] == x);
    }
}

} // verus!
