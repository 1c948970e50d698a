//! Importing snippets: each is checked in turn, chords are registered with the
//! system on the way, and what was accepted goes into the store in one batch.

use vstd::prelude::*;

use crate::ipc::{order_of, snippet_fault, validate_snippet, HotkeyOrder, MAX_SNIPPETS};
use crate::laws::store::{batches_keep_the_order_whole, order_and_entries_have_one_length};
use crate::shortcuts::HotkeyAction;
use crate::snippets::{contents, Book, Snippets, TriggerKind};
use crate::text::{trim, trimmed};

verus! {

pub const MAX_IMPORT_BYTES: u64 = 16 * 1024 * 1024;

/// How an import ended.
#[derive(Clone, Copy, PartialEq, Eq, Debug, Structural)]
pub struct ImportSummary {
    pub imported: usize,
    pub skipped: usize,
}

/// A shortcut whose chord is being registered, and what is stored under its
/// trigger.
struct Waiting {
    trigger: String,
    expansion: String,
    previous: Option<(String, TriggerKind)>,
}

/// An import under way.
pub struct ImportSession {
    items: Vec<(String, String, TriggerKind)>,
    next: usize,
    accepted: Vec<(String, String, TriggerKind)>,
    skipped: usize,
    projected: usize,
    waiting: Option<Waiting>,
}

/// The abstract content of an import under way.
#[verifier::ext_equal]
pub struct ImportState {
    pub items: Seq<(Seq<char>, Seq<char>, TriggerKind)>,
    /// How many items have been dealt with.
    pub next: int,
    pub accepted: Seq<(Seq<char>, Seq<char>, TriggerKind)>,
    pub skipped: int,
    /// How many snippets the store is going to hold, at most.
    pub projected: int,
    /// The chord that is being registered, its expansion, and what is stored
    /// under it.
    pub waiting: Option<(Seq<char>, Seq<char>, Option<(Seq<char>, TriggerKind)>)>,
}

/// What is to be done with an item.
pub enum Verdict {
    Skip,
    Register,
    Take,
}

/// What is stored under a trigger.
pub open spec fn stored(b: Book, t: Seq<char>) -> Option<(Seq<char>, TriggerKind)> {
    if b.entries.contains_key(t) {
        Some(b.entries[t])
    } else {
        None
    }
}

/// Whether a shortcut is stored under a trigger.
pub open spec fn was_shortcut(previous: Option<(Seq<char>, TriggerKind)>) -> bool {
    previous is Some && (previous->0).1 == TriggerKind::Shortcut
}

/// What taking a text trigger leaves to be done: the chord of a stored
/// shortcut is given up.
pub open spec fn after_taking(
    t: Seq<char>,
    previous: Option<(Seq<char>, TriggerKind)>,
) -> Option<HotkeyOrder> {
    if was_shortcut(previous) {
        Some(HotkeyOrder::Unregister(t))
    } else {
        None
    }
}

/// What a refused chord leaves to be done: that of a stored shortcut is
/// registered again.
pub open spec fn after_refused_chord(
    t: Seq<char>,
    previous: Option<(Seq<char>, TriggerKind)>,
) -> Option<HotkeyOrder> {
    if was_shortcut(previous) {
        Some(HotkeyOrder::Register(t, (previous->0).0))
    } else {
        None
    }
}

/// An item is skipped if it is at fault, or new and one too many. A shortcut
/// has to be registered; a text trigger is taken.
pub open spec fn verdict(
    b: Book,
    item: (Seq<char>, Seq<char>, TriggerKind),
    projected: int,
) -> Verdict {
    let t = trimmed(item.0);
    if snippet_fault(t, item.1, item.2) is Some {
        Verdict::Skip
    } else if stored(b, t) is None && projected >= 10_000 {
        Verdict::Skip
    } else if item.2 == TriggerKind::Shortcut {
        Verdict::Register
    } else {
        Verdict::Take
    }
}

impl ImportState {
    pub open spec fn wf(self) -> bool {
        &&& 0 <= self.next <= self.items.len()
        &&& self.accepted.len() + self.skipped == self.next
        &&& self.waiting matches Some((_, _, previous)) ==> {
            &&& self.next < self.items.len()
            &&& previous is None ==> self.projected < 10_000
        }
    }

    /// Everything has been dealt with.
    pub open spec fn done(self) -> bool {
        self.next == self.items.len() && self.waiting is None
    }

    /// The projection holds for a store: what is accepted brings it to no more
    /// snippets than projected, and the projection goes past the limit only
    /// as far as the store itself does.
    pub open spec fn tallied(self, b: Book) -> bool {
        &&& b.upsert_all(self.accepted).entries.len() <= self.projected
        &&& self.projected <= 10_000 || self.projected <= b.entries.len()
        &&& self.waiting matches Some((t, _, previous)) ==> previous == stored(b, t)
    }

    pub open spec fn skip(self) -> ImportState {
        ImportState { next: self.next + 1, skipped: self.skipped + 1, waiting: None, ..self }
    }

    pub open spec fn wait(
        self,
        t: Seq<char>,
        expansion: Seq<char>,
        previous: Option<(Seq<char>, TriggerKind)>,
    ) -> ImportState {
        ImportState { waiting: Some((t, expansion, previous)), ..self }
    }

    pub open spec fn take(
        self,
        t: Seq<char>,
        expansion: Seq<char>,
        kind: TriggerKind,
        is_new: bool,
    ) -> ImportState {
        ImportState {
            next: self.next + 1,
            accepted: self.accepted.push((t, expansion, kind)),
            projected: if is_new {
                self.projected + 1
            } else {
                self.projected
            },
            waiting: None,
            ..self
        }
    }
}

impl View for ImportSession {
    type V = ImportState;

    closed spec fn view(&self) -> ImportState {
        ImportState {
            items: contents(self.items@),
            next: self.next as int,
            accepted: contents(self.accepted@),
            skipped: self.skipped as int,
            projected: self.projected as int,
            waiting: match self.waiting {
                Some(w) => Some(
                    (
                        w.trigger@,
                        w.expansion@,
                        match w.previous {
                            Some((e, k)) => Some((e@, k)),
                            None => None,
                        },
                    ),
                ),
                None => None,
            },
        }
    }
}

/// What happens during an import.
#[derive(Debug)]
pub enum ImportEvent {
    /// The last action is carried out.
    Proceed,
    /// The system answered the registration of a chord.
    Registered { outcome: Result<(), String> },
}

/// What is to be done during an import.
#[derive(Debug)]
pub enum ImportAction {
    /// Register a chord with the system, and come back with the outcome.
    Register { trigger: String, expansion: String },
    /// Carry out what follows, whatever comes of it, and proceed.
    Next { follow_up: Option<HotkeyAction> },
    /// Finish the import.
    Done,
}

/// What follows an item, as an order to the host.
pub open spec fn follows(action: ImportAction, order: Option<HotkeyOrder>) -> bool {
    action matches ImportAction::Next { follow_up } && match follow_up {
        Some(a) => order == Some(order_of(a)),
        None => order is None,
    }
}

/// Whether a file of so many bytes may be imported.
pub fn check_import_size(bytes: u64) -> (r: Result<(), String>)
    ensures
        match r {
            Ok(()) => bytes <= 16 * 1024 * 1024,
            Err(e) => bytes > 16 * 1024 * 1024 && e@ == "Import file is too large (maximum 16 MB)."@,
        },
{
    if bytes > MAX_IMPORT_BYTES {
        return Err("Import file is too large (maximum 16 MB).".to_string());
    }
    Ok(())
}

/// Begins an import into a store, of the snippets that were read.
pub fn begin_import(snippets: &Snippets, imported: &Snippets) -> (r: Result<ImportSession, String>)
    requires
        snippets.wf(),
        imported.wf(),
    ensures
        match r {
            Ok(session) => {
                &&& imported@.entries.len() <= 10_000
                &&& session@ == (ImportState {
                    items: imported@.list(),
                    next: 0,
                    accepted: Seq::empty(),
                    skipped: 0,
                    projected: snippets@.entries.len() as int,
                    waiting: None,
                })
                &&& session@.wf()
                &&& session@.tallied(snippets@)
            },
            Err(e) => {
                &&& imported@.entries.len() > 10_000
                &&& e@ == "Import contains too many snippets (maximum 10000)."@
            },
        },
{
    if imported.len() > MAX_SNIPPETS {
        return Err("Import contains too many snippets (maximum 10000).".to_string());
    }
    let session = ImportSession {
        items: imported.list(),
        next: 0,
        accepted: Vec::new(),
        skipped: 0,
        projected: snippets.len(),
        waiting: None,
    };
    assert(session@.accepted =~= Seq::empty());
    Ok(session)
}

/// What an import becomes, and what is to be done, when it proceeds.
pub open spec fn proceeds(s: ImportState, b: Book, after: ImportState, action: ImportAction) -> bool {
    if s.next == s.items.len() {
        after == s && action is Done
    } else {
        let item = s.items[s.next];
        let t = trimmed(item.0);
        match verdict(b, item, s.projected) {
            Verdict::Skip => after == s.skip() && follows(action, None),
            Verdict::Register => {
                &&& after == s.wait(t, item.1, stored(b, t))
                &&& action matches ImportAction::Register { trigger, expansion } && trigger@ == t
                    && expansion@ == item.1
            },
            Verdict::Take => {
                &&& after == s.take(t, item.1, item.2, stored(b, t) is None)
                &&& follows(action, after_taking(t, stored(b, t)))
            },
        }
    }
}

/// What an import becomes, and what is to be done, when a chord was
/// registered or not. After a failure the chord of a stored shortcut is
/// registered again.
pub open spec fn registered(
    s: ImportState,
    ok: bool,
    after: ImportState,
    action: ImportAction,
) -> bool {
    let (t, expansion, previous) = s.waiting->0;
    if ok {
        &&& after == s.take(t, expansion, TriggerKind::Shortcut, previous is None)
        &&& follows(action, None)
    } else {
        &&& after == s.skip()
        &&& follows(action, after_refused_chord(t, previous))
    }
}

/// One step of an import.
pub fn import_snippets(
    snippets: &Snippets,
    session: &mut ImportSession,
    event: ImportEvent,
) -> (action: ImportAction)
    requires
        snippets.wf(),
        old(session)@.wf(),
        event is Registered <==> old(session)@.waiting is Some,
    ensures
        final(session)@.wf(),
        match event {
            ImportEvent::Proceed => proceeds(old(session)@, snippets@, final(session)@, action),
            ImportEvent::Registered { outcome } => registered(
                old(session)@,
                outcome is Ok,
                final(session)@,
                action,
            ),
        },
        action is Done ==> final(session)@.done(),
        action is Register <==> final(session)@.waiting is Some,
        old(session)@.tallied(snippets@) ==> final(session)@.tallied(snippets@),
{
    let ghost s = session@;
    let ghost b = snippets@;
    proof {
        snippets.lemma_view_wf();
    }
    let waiting = session.waiting.take();
    match event {
        ImportEvent::Proceed => {
            if session.next == session.items.len() {
                assert(session@ =~= s);
                return ImportAction::Done;
            }
            let ghost item = s.items[s.next];
            let trigger = trim(session.items[session.next].0.as_str());
            let expansion = session.items[session.next].1.clone();
            let kind = session.items[session.next].2;
            assert(item == (session.items@[s.next].0@, expansion@, kind));
            let valid = validate_snippet(trigger.as_str(), expansion.as_str(), kind);
            if valid.is_err() {
                session.skip();
                assert(session@ =~= s.skip());
                return ImportAction::Next { follow_up: None };
            }
            let previous = snippets.get(trigger.as_str());
            let is_new = previous.is_none();
            if is_new && session.projected >= MAX_SNIPPETS {
                session.skip();
                assert(session@ =~= s.skip());
                return ImportAction::Next { follow_up: None };
            }
            if kind == TriggerKind::Shortcut {
                let action = ImportAction::Register {
                    trigger: trigger.clone(),
                    expansion: expansion.clone(),
                };
                session.waiting = Some(Waiting { trigger, expansion, previous });
                assert(session@ =~= s.wait(trigger@, item.1, stored(b, trigger@)));
                return action;
            }
            let follow_up = match previous {
                Some((_, TriggerKind::Shortcut)) => Some(
                    HotkeyAction::Unregister { trigger: trigger.clone() },
                ),
                _ => None,
            };
            session.accept(trigger, expansion, kind, is_new);
            proof {
                assert(session@ =~= s.take(trigger@, item.1, kind, is_new));
                if s.tallied(b) {
                    lemma_take_tallied(s, b, trigger@, item.1, kind);
                }
            }
            ImportAction::Next { follow_up }
        },
        ImportEvent::Registered { outcome } => {
            match waiting {
                Some(Waiting { trigger, expansion, previous }) => {
                    let is_new = previous.is_none();
                    match outcome {
                        Ok(()) => {
                            session.accept(trigger, expansion, TriggerKind::Shortcut, is_new);
                            proof {
                                assert(session@ =~= s.take(
                                    trigger@,
                                    expansion@,
                                    TriggerKind::Shortcut,
                                    is_new,
                                ));
                                if s.tallied(b) {
                                    lemma_take_tallied(
                                        s,
                                        b,
                                        trigger@,
                                        expansion@,
                                        TriggerKind::Shortcut,
                                    );
                                }
                            }
                            ImportAction::Next { follow_up: None }
                        },
                        Err(_) => {
                            session.skip();
                            assert(session@ =~= s.skip());
                            let follow_up = match previous {
                                Some((old_expansion, TriggerKind::Shortcut)) => Some(
                                    HotkeyAction::Register { trigger, expansion: old_expansion },
                                ),
                                _ => None,
                            };
                            ImportAction::Next { follow_up }
                        },
                    }
                },
                None => ImportAction::Done,
            }
        },
    }
}

impl ImportSession {
    fn skip(&mut self)
        requires
            old(self)@.wf(),
            old(self)@.next < old(self)@.items.len(),
        ensures
            final(self)@ == (ImportState {
                next: old(self)@.next + 1,
                skipped: old(self)@.skipped + 1,
                ..old(self)@
            }),
    {
        assert(self.next < self.items.len());
        self.next += 1;
        self.skipped += 1;
    }

    fn accept(&mut self, trigger: String, expansion: String, kind: TriggerKind, is_new: bool)
        requires
            old(self)@.wf(),
            old(self)@.next < old(self)@.items.len(),
            is_new ==> old(self)@.projected < 10_000,
        ensures
            final(self)@ == (ImportState {
                next: old(self)@.next + 1,
                accepted: old(self)@.accepted.push((trigger@, expansion@, kind)),
                projected: if is_new {
                    old(self)@.projected + 1
                } else {
                    old(self)@.projected
                },
                ..old(self)@
            }),
    {
        if is_new {
            self.projected += 1;
        }
        self.accepted.push((trigger, expansion, kind));
        assert(self.next < self.items.len());
        self.next += 1;
        assert(contents(self.accepted@) =~= old(self)@.accepted.push((trigger@, expansion@, kind)));
    }
}

/// Puts what was accepted into the store. If the store is the one that the
/// import was begun for, the limit on its size holds.
pub fn finish_import(snippets: &mut Snippets, session: ImportSession) -> (summary: ImportSummary)
    requires
        old(snippets).wf(),
        session@.wf(),
        session@.done(),
    ensures
        final(snippets).wf(),
        final(snippets)@ == old(snippets)@.upsert_all(session@.accepted),
        summary.imported == session@.accepted.len(),
        summary.skipped == session@.skipped,
        summary.imported + summary.skipped == session@.items.len(),
        session@.tallied(old(snippets)@) ==> final(snippets)@.entries.len() <= 10_000
            || final(snippets)@.entries.len() <= old(snippets)@.entries.len(),
{
    let imported: usize = session.accepted.len();
    let skipped: usize = session.skipped;
    snippets.insert_many(session.accepted);
    ImportSummary { imported, skipped }
}

/// Whether an import leaves the snippets to be stored: if it imported any.
pub fn is_to_be_stored(summary: &ImportSummary) -> (r: bool)
    ensures
        r == (summary.imported > 0),
{
    summary.imported > 0
}

/// Taking an item keeps the projection good.
proof fn lemma_take_tallied(
    s: ImportState,
    b: Book,
    t: Seq<char>,
    expansion: Seq<char>,
    kind: TriggerKind,
)
    requires
        b.wf(),
        s.tallied(b),
        stored(b, t) is None ==> s.projected < 10_000,
    ensures
        s.take(t, expansion, kind, stored(b, t) is None).tallied(b),
{
    let c = b.upsert_all(s.accepted);
    let d = c.upsert(t, expansion, kind);
    assert(s.accepted.push((t, expansion, kind)).drop_last() =~= s.accepted);
    assert(b.upsert_all(s.accepted.push((t, expansion, kind))) == d);
    batches_keep_the_order_whole(b, s.accepted);
    batches_keep_the_order_whole(b, s.accepted.push((t, expansion, kind)));
    order_and_entries_have_one_length(c);
    order_and_entries_have_one_length(d);
    if b.entries.contains_key(t) {
        lemma_keys_stay(b, s.accepted, t);
    }
}

/// A batch takes no trigger out.
proof fn lemma_keys_stay(
    b: Book,
    items: Seq<(Seq<char>, Seq<char>, TriggerKind)>,
    t: Seq<char>,
)
    requires
        b.entries.contains_key(t),
    ensures
        b.upsert_all(items).entries.contains_key(t),
    decreases items.len(),
{
    if items.len() > 0 {
        lemma_keys_stay(b, items.drop_last(), t);
    }
}

} // verus!
