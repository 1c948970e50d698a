//! What holds of the insertion policy and of the clipboard.

use vstd::prelude::*;

use crate::clipboard::{
    next_generation, paste_action, restore_request, session_after, session_after_restore,
    snapshot_due, ClipboardSession, PasteAction, PasteEvent, RestoreRequest,
};
use crate::expansion::{
    clamped, delivery, long_text_extra, paste_combo_for, restore_delay, InsertMode, Mode,
    PasteCombo, Settings, TargetKind,
};
use crate::target::target_kind;
use crate::text::{ascii_lower, ascii_lowered, words};

verus! {

/// Whatever is asked for, the typing speed and the restore delay stay within
/// their limits.
pub proof fn settings_stay_within_limits(s: Settings, wpm: u32, ms: u32)
    requires
        s.wf(),
    ensures
        (Settings { wpm: clamped(wpm as int, 100, 1500) as u32, ..s }).wf(),
        (Settings { restore_delay_ms: clamped(ms as int, 3_000, 15_000) as u32, ..s }).wf(),
{
}

/// The pause between typed characters is never shorter than 8 and never
/// longer than 120 milliseconds.
pub proof fn the_typing_pause_is_bounded(s: Settings)
    requires
        s.wf(),
    ensures
        8_000 <= 60_000_000int / (5 * s.wpm) <= 120_000,
{
    let d = 5 * s.wpm as int;
    assert(8_000 <= 60_000_000int / d <= 120_000) by (nonlinear_arith)
        requires
            500 <= d <= 7_500,
    ;
}

/// The explicit modes ignore the text: one always pastes, the other always
/// types.
pub proof fn explicit_modes_ignore_the_text(m: nat, n: nat, target: TargetKind)
    ensures
        delivery(InsertMode::Paste, n, target) == Mode::Clipboard,
        delivery(InsertMode::Type, n, target) != Mode::Clipboard,
        delivery(InsertMode::Type, m, target) == delivery(InsertMode::Type, n, target),
{
}

/// The automatic mode types 15 words or fewer, as the typing mode does, and
/// pastes anything longer.
pub proof fn auto_types_fifteen_words_or_fewer(n: nat, target: TargetKind)
    ensures
        n <= 15 ==> delivery(InsertMode::Auto, n, target) == delivery(InsertMode::Type, n, target),
        n > 15 ==> delivery(InsertMode::Auto, n, target) == delivery(InsertMode::Paste, n, target),
{
}

/// A terminal gets replayed keys and nothing else gets them.
pub proof fn keys_are_replayed_for_terminals_only(mode: InsertMode, n: nat, target: TargetKind)
    ensures
        target is Terminal ==> delivery(mode, n, target) != Mode::Native,
        !(target is Terminal) ==> delivery(mode, n, target) != Mode::KeyReplay,
{
}

/// A combo that the user has chosen is always sent, and an ordinary window
/// always gets the configured one.
pub proof fn a_chosen_combo_is_respected(configured: PasteCombo, target: TargetKind)
    ensures
        configured != PasteCombo::CtrlV ==> paste_combo_for(configured, target) == configured,
        paste_combo_for(configured, TargetKind::Standard) == configured,
{
}

/// Bringing a number within limits gives one within them, and changes none
/// that is; one beyond a limit becomes that limit.
pub proof fn the_nearest_number_within_limits(x: int, low: int, high: int)
    requires
        low <= high,
    ensures
        low <= clamped(x, low, high) <= high,
        low <= x <= high ==> clamped(x, low, high) == x,
        x <= low ==> clamped(x, low, high) == low,
        x >= high ==> clamped(x, low, high) == high,
{
}

/// Sound settings are those with a speed of 100 to 1500 words per minute and a
/// delay of 3 to 15 seconds.
pub proof fn sound_settings_are_within_limits(s: Settings)
    ensures
        s.wf() <==> 100 <= s.wpm <= 1_500 && 3_000 <= s.restore_delay_ms <= 15_000,
{
}

/// How a text reaches a window: pasted when that is asked for, or when it has
/// more than 15 words and the choice is left open; else typed, by replayed keys
/// in a terminal and as characters elsewhere.
pub proof fn a_text_is_pasted_or_typed(
    mode: InsertMode,
    text: Seq<char>,
    preferred: PasteCombo,
    target: TargetKind,
)
    ensures
        delivery(mode, words(text), target) == Mode::Clipboard <==> mode == InsertMode::Paste || (
        mode == InsertMode::Auto && words(text) > 15),
        delivery(mode, words(text), TargetKind::Terminal(preferred)) != Mode::Native,
        delivery(mode, words(text), TargetKind::Standard) != Mode::KeyReplay,
        delivery(mode, words(text), TargetKind::Codex) != Mode::KeyReplay,
{
}

/// With the combo left at its default, a terminal gets the one it prefers,
/// Codex gets Ctrl+Shift+V, and an ordinary window gets Ctrl+V.
pub proof fn the_default_combo_suits_the_target(preferred: PasteCombo)
    ensures
        paste_combo_for(PasteCombo::CtrlV, TargetKind::Terminal(preferred)) == preferred,
        paste_combo_for(PasteCombo::CtrlV, TargetKind::Codex) == PasteCombo::CtrlShiftV,
        paste_combo_for(PasteCombo::CtrlV, TargetKind::Standard) == PasteCombo::CtrlV,
{
}

/// Neither a terminal nor Codex is ever sent Ctrl+V.
pub proof fn ctrl_v_goes_to_ordinary_windows_only(
    title: Seq<char>,
    class_name: Seq<char>,
    process_name: Seq<char>,
    configured: PasteCombo,
)
    requires
        target_kind(title, class_name, process_name) != TargetKind::Standard,
    ensures
        paste_combo_for(configured, target_kind(title, class_name, process_name))
            != PasteCombo::CtrlV,
{
}

/// ASCII letter case has no say in what kind of window it is.
pub proof fn letter_case_does_not_matter(
    title: Seq<char>,
    class_name: Seq<char>,
    process_name: Seq<char>,
)
    ensures
        target_kind(ascii_lowered(title), ascii_lowered(class_name), ascii_lowered(process_name))
            == target_kind(title, class_name, process_name),
{
    lemma_lowered_twice(title);
    lemma_lowered_twice(class_name);
    lemma_lowered_twice(process_name);
}

proof fn lemma_lowered_twice(s: Seq<char>)
    ensures
        ascii_lowered(ascii_lowered(s)) == ascii_lowered(s),
{
    assert forall|i: int| 0 <= i < s.len() implies #[trigger] ascii_lowered(ascii_lowered(s))[i]
        == ascii_lowered(s)[i] by {
        lemma_lower_twice(s[i]);
    }
    assert(ascii_lowered(ascii_lowered(s)) =~= ascii_lowered(s));
}

proof fn lemma_lower_twice(c: char)
    ensures
        ascii_lower(ascii_lower(c)) == ascii_lower(c),
{
}

/// Whatever is configured, the restore comes no earlier than that, or than the
/// maximum if that is sooner, no earlier than a rich clipboard and a sensitive
/// target ask for, and no later than the maximum.
pub proof fn the_restore_delay_is_bounded(
    configured: int,
    rich: bool,
    text_char_len: nat,
    sensitive: bool,
)
    requires
        0 <= configured,
    ensures
        (if configured < 15_000 {
            configured
        } else {
            15_000
        }) <= restore_delay(configured, rich, text_char_len, sensitive) <= 15_000,
        rich ==> restore_delay(configured, rich, text_char_len, sensitive) >= 5_000,
        sensitive ==> restore_delay(configured, rich, text_char_len, sensitive) >= 12_000,
{
}

/// A longer text, a richer clipboard and a more sensitive target never make
/// the restore come earlier, as long as the steps fit in 32 bits.
pub proof fn longer_texts_are_restored_no_earlier(configured: int, rich: bool, m: nat, n: nat)
    requires
        m <= n <= 110 + 500 * 0xffff_ffff,
    ensures
        long_text_extra(m) <= long_text_extra(n),
        forall|sensitive: bool|
            restore_delay(configured, rich, m, sensitive) <= #[trigger] restore_delay(
                configured,
                rich,
                n,
                sensitive,
            ),
        forall|sensitive: bool|
            #[trigger] restore_delay(configured, false, n, sensitive) <= restore_delay(
                configured,
                rich,
                n,
                sensitive,
            ),
        restore_delay(configured, rich, n, false) <= restore_delay(configured, rich, n, true),
{
}

/// A text of 110 characters or fewer gets no extra time; the next 500 get one
/// second; 500 more always get one second more, up to three.
pub proof fn extra_time_grows_by_the_step(n: nat)
    requires
        n <= 110 + 500 * 0xffff_fffe,
    ensures
        n <= 110 ==> long_text_extra(n) == 0,
        110 < n <= 610 ==> long_text_extra(n) == 1_000,
        n > 110 ==> long_text_extra(n + 500) == if long_text_extra(n) >= 3_000 {
            3_000
        } else {
            long_text_extra(n) + 1_000
        },
        long_text_extra(n) <= 3_000,
{
}

/// The restore comes after the longest of the times that are asked for, and
/// the extra time of the text on top, unless that is beyond the maximum.
pub proof fn the_longest_time_asked_for_counts(
    configured: int,
    rich: bool,
    n: nat,
    sensitive: bool,
    longest: int,
)
    requires
        longest >= configured,
        rich ==> longest >= 5_000,
        sensitive ==> longest >= 12_000,
        longest == configured || (rich && longest == 5_000) || (sensitive && longest == 12_000),
    ensures
        longest + long_text_extra(n) <= 15_000 ==> restore_delay(configured, rich, n, sensitive)
            == longest + long_text_extra(n),
        longest + long_text_extra(n) > 15_000 ==> restore_delay(configured, rich, n, sensitive)
            == 15_000,
{
}

/// Once the expansion is on the clipboard, the paste is sent: with the combo
/// that the user has chosen, if it is not the default, and to an ordinary
/// window in any case; else with the one that the target wants.
pub proof fn a_paste_is_sent_with_the_right_combo<S>(
    session: ClipboardSession<S>,
    saved: S,
    sequence: u32,
    rich: bool,
    text: Seq<char>,
    target: TargetKind,
    settings: Settings,
)
    ensures
        ({
            let event = PasteEvent::TextSet {
                saved,
                sequence,
                saved_contains_non_plain_text: rich,
            };
            &&& paste_action(session, event, text, target, settings) matches PasteAction::SendPaste {
                combo,
                ..
            }
            &&& settings.paste_combo != PasteCombo::CtrlV ==> combo == settings.paste_combo
            &&& target == TargetKind::Standard ==> combo == settings.paste_combo
            &&& settings.paste_combo == PasteCombo::CtrlV ==> {
                &&& target matches TargetKind::Terminal(preferred) ==> combo == preferred
                &&& target == TargetKind::Codex ==> combo == PasteCombo::CtrlShiftV
            }
        }),
{
}

/// A paste is followed by a restore of its own: it has the number of the paste,
/// which is the next, and the sequence number of the clipboard; it waits as
/// long as the settings, the saved clipboard, the text and the target ask for;
/// and it gives the saved clipboard back, if nobody has claimed the clipboard.
pub proof fn a_paste_is_followed_by_its_restore<S>(
    session: ClipboardSession<S>,
    saved: S,
    sequence: u32,
    rich: bool,
    text: Seq<char>,
    target: TargetKind,
    settings: Settings,
)
    ensures
        ({
            let event = PasteEvent::TextSet {
                saved,
                sequence,
                saved_contains_non_plain_text: rich,
            };
            let after = session_after(session, event);
            &&& paste_action(session, event, text, target, settings) matches PasteAction::SendPaste {
                restore,
                ..
            }
            &&& restore.sequence == sequence
            &&& restore.generation as int == (session.generation + 1) % 0x1_0000_0000_0000_0000
            &&& restore.delay_ms as int == restore_delay(
                settings.restore_delay_ms as int,
                rich,
                text.len(),
                target != TargetKind::Standard,
            )
            &&& after.generation == restore.generation
            &&& after.active matches Some(kept) && {
                &&& kept.original == saved
                &&& kept.sequence == sequence
                &&& kept.generation == restore.generation
            }
            &&& snapshot_due(after, restore, sequence) == Some(saved)
            &&& session_after_restore(after, restore).active is None
        }),
{
}

/// A paste begins with the clipboard that is to be given back: the one kept
/// from a paste before, if the clipboard still is as that paste left it, else a
/// new snapshot. Either is put aside before the text is set.
pub proof fn a_paste_begins_with_the_users_clipboard<S>(
    session: ClipboardSession<S>,
    sequence: u32,
    saved: S,
    text: Seq<char>,
    target: TargetKind,
    settings: Settings,
)
    ensures
        ({
            let begun = PasteEvent::Begun { sequence };
            let action = paste_action(session, begun, text, target, settings);
            let kept = session.active;
            &&& kept is Some && kept->0.sequence == sequence ==> action == (PasteAction::SetText {
                saved: kept->0.original,
            })
            &&& kept is None || kept->0.sequence != sequence ==> action is TakeSnapshot
            &&& session_after(session, begun).active is None
            &&& session_after(session, begun).generation == session.generation
        }),
        ({
            let taken = PasteEvent::Snapshot { saved };
            &&& paste_action(session, taken, text, target, settings) == (PasteAction::SetText {
                saved,
            })
            &&& session_after(session, taken) == session
        }),
{
}

/// If the clipboard cannot be set, what was saved goes back at once and the
/// text is typed; nothing is kept for later.
pub proof fn a_refused_clipboard_goes_back_at_once<S>(
    session: ClipboardSession<S>,
    saved: S,
    text: Seq<char>,
    target: TargetKind,
    settings: Settings,
)
    ensures
        ({
            let refused = PasteEvent::TextRefused { saved };
            &&& paste_action(session, refused, text, target, settings) == (
            PasteAction::RestoreAndType { saved })
            &&& session_after(session, refused) == session
        }),
{
}

/// A due request gives back what the open paste has saved, just if it is for
/// that paste and the clipboard is as that paste left it; a request for that
/// paste closes it, and any other changes nothing.
pub proof fn a_request_answers_its_own_paste<S>(
    session: ClipboardSession<S>,
    request: RestoreRequest,
    now: u32,
)
    ensures
        match session.active {
            Some(kept) => if kept.generation == request.generation {
                &&& snapshot_due(session, request, now) == if now == request.sequence {
                    Some(kept.original)
                } else {
                    None
                }
                &&& session_after_restore(session, request).active is None
                &&& session_after_restore(session, request).generation == session.generation
            } else {
                &&& snapshot_due(session, request, now) is None
                &&& session_after_restore(session, request) == session
            },
            None => {
                &&& snapshot_due(session, request, now) is None
                &&& session_after_restore(session, request) == session
            },
        },
{
}

/// A second paste before the restore of the first carries the user's
/// clipboard forward: if nobody else touched the clipboard, it is not
/// snapshotted again, and the restore of the second paste gives the user's
/// clipboard back.
pub proof fn a_second_paste_keeps_the_users_clipboard<S>(
    session: ClipboardSession<S>,
    saved: S,
    first: u32,
    second: u32,
    rich: bool,
    text: Seq<char>,
    target: TargetKind,
    settings: Settings,
)
    ensures
        ({
            let set_first = PasteEvent::TextSet {
                saved,
                sequence: first,
                saved_contains_non_plain_text: rich,
            };
            let begun = PasteEvent::Begun { sequence: first };
            let set_second = PasteEvent::TextSet {
                saved,
                sequence: second,
                saved_contains_non_plain_text: rich,
            };
            let a = session_after(session, set_first);
            let b = session_after(a, begun);
            let c = session_after(b, set_second);
            &&& paste_action(a, begun, text, target, settings) == (PasteAction::SetText { saved })
            &&& paste_action(b, set_second, text, target, settings) matches PasteAction::SendPaste {
                restore,
                ..
            } && snapshot_due(c, restore, second) == Some(saved)
        }),
{
}

/// A request is answered at most once, and an overtaken one not at all: only
/// the last paste's request can give anything back.
pub proof fn only_the_last_request_restores<S>(
    session: ClipboardSession<S>,
    saved: S,
    sequence: u32,
    rich: bool,
    text: Seq<char>,
    target: TargetKind,
    settings: Settings,
    older: RestoreRequest,
    now: u32,
)
    requires
        older.generation != next_generation(session.generation),
    ensures
        ({
            let set = PasteEvent::TextSet { saved, sequence, saved_contains_non_plain_text: rich };
            let c = session_after(session, set);
            let request = restore_request(
                next_generation(session.generation),
                sequence,
                rich,
                text,
                target,
                settings,
            );
            &&& snapshot_due(c, older, now) is None
            &&& session_after_restore(c, older) == c
            &&& snapshot_due(session_after_restore(c, request), request, now) is None
        }),
{
}

/// A clipboard that somebody else has claimed is never overwritten by a
/// restore.
pub proof fn a_foreign_clipboard_is_left_alone<S>(
    session: ClipboardSession<S>,
    request: RestoreRequest,
    now: u32,
)
    requires
        now != request.sequence,
    ensures
        snapshot_due(session, request, now) is None,
{
}

/// Two pastes in a row have different generations.
pub proof fn generations_differ(generation: u64)
    ensures
        next_generation(generation) != generation,
{
}

} // verus!
