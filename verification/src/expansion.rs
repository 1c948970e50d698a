//! Expansion: delete the trigger, then insert the replacement. Three modes:
//!
//! - `Auto` (default): type snippets of 15 words or fewer; paste anything
//!   longer.
//! - `Paste`: save the clipboard, set it to the expansion, send the paste
//!   combo, restore. Fast and exact for any length or content.
//! - `Type`: type every expansion at the configured speed. Terminal hosts
//!   replay virtual keys instead of Unicode input.
//!
//! All insertion policy lives in one `Settings` value, which the host keeps,
//! sets from the UI and hands to every expansion.

use vstd::prelude::*;

use crate::target::{classify_target, target_kind, ForegroundContext};
use crate::text::{word_count, words};

verus! {

pub const WPM_MIN: u32 = 100;

pub const WPM_MAX: u32 = 1500;

const WPM_DEFAULT: u32 = 600;

pub const RESTORE_DELAY_MIN_MS: u32 = 3_000;

pub const RESTORE_DELAY_MAX_MS: u32 = 15_000;

const RESTORE_DELAY_DEFAULT_MS: u32 = 5_000;

/// The shortest delay before restoring a clipboard that held image, file or
/// HTML-like formats. Some apps consume a paste asynchronously; restoring too
/// early can make them process the old clipboard instead of the expansion.
pub const RICH_CLIPBOARD_RESTORE_MIN_MS: u32 = 5_000;

pub const SENSITIVE_TARGET_RESTORE_MIN_MS: u32 = 12_000;

pub const LONG_TEXT_RESTORE_STEP_CHARS: usize = 500;

pub const LONG_TEXT_RESTORE_STEP_MS: u32 = 1_000;

pub const LONG_TEXT_RESTORE_MAX_EXTRA_MS: u32 = 3_000;

pub const AUTO_TYPE_MAX_WORDS: usize = 15;

pub const LONG_TEXT_RESTORE_BASE_CHARS: usize = 110;

/// Microseconds in a minute, divided by the five characters of a standard
/// word.
const MICROS_PER_CHAR_AT_ONE_WPM: u64 = 12_000_000;

/// How expansions are inserted.
#[derive(Clone, Copy, PartialEq, Eq, Debug, Structural)]
pub enum InsertMode {
    Auto,
    Paste,
    Type,
}

impl Default for InsertMode {
    fn default() -> (mode: InsertMode)
        ensures
            mode == InsertMode::Auto,
    {
        InsertMode::Auto
    }
}

/// The keystroke sent to make the target app paste. Terminals often bind
/// Ctrl+V to something else and paste on Shift+Insert or Ctrl+Shift+V.
#[derive(Clone, Copy, PartialEq, Eq, Debug, Structural)]
pub enum PasteCombo {
    CtrlV,
    ShiftInsert,
    CtrlShiftV,
}

impl Default for PasteCombo {
    fn default() -> (combo: PasteCombo)
        ensures
            combo == PasteCombo::CtrlV,
    {
        PasteCombo::CtrlV
    }
}

/// The insertion policy.
#[derive(Clone, Copy, PartialEq, Eq, Debug, Structural)]
pub struct Settings {
    pub insert_mode: InsertMode,
    /// Typing speed, in words per minute of five characters each.
    pub wpm: u32,
    pub paste_combo: PasteCombo,
    pub restore_delay_ms: u32,
    /// A word count that the UI shows and stores.
    pub auto_paste_words: u32,
}

impl Settings {
    /// The speed and the delay are within their limits.
    pub open spec fn wf(self) -> bool {
        &&& WPM_MIN <= self.wpm <= WPM_MAX
        &&& RESTORE_DELAY_MIN_MS <= self.restore_delay_ms <= RESTORE_DELAY_MAX_MS
    }
}

impl Default for Settings {
    fn default() -> (s: Settings)
        ensures
            s.wf(),
            s == (Settings {
                insert_mode: InsertMode::Auto,
                wpm: 600,
                paste_combo: PasteCombo::CtrlV,
                restore_delay_ms: 5_000,
                auto_paste_words: 15,
            }),
    {
        Settings {
            insert_mode: InsertMode::Auto,
            wpm: WPM_DEFAULT,
            paste_combo: PasteCombo::CtrlV,
            restore_delay_ms: RESTORE_DELAY_DEFAULT_MS,
            auto_paste_words: AUTO_TYPE_MAX_WORDS as u32,
        }
    }
}

/// The value between two limits that is nearest to `x`.
pub open spec fn clamped(x: int, low: int, high: int) -> int {
    if x < low {
        low
    } else if x > high {
        high
    } else {
        x
    }
}

fn clamp(x: u32, low: u32, high: u32) -> (r: u32)
    requires
        low <= high,
    ensures
        r == clamped(x as int, low as int, high as int),
{
    if x < low {
        low
    } else if x > high {
        high
    } else {
        x
    }
}

pub fn set_wpm(settings: &mut Settings, wpm: u32)
    ensures
        *final(settings) == (Settings {
            wpm: clamped(wpm as int, WPM_MIN as int, WPM_MAX as int) as u32,
            ..*old(settings)
        }),
{
    settings.wpm = clamp(wpm, WPM_MIN, WPM_MAX);
}

pub fn wpm(settings: &Settings) -> (r: u32)
    ensures
        r == settings.wpm,
{
    settings.wpm
}

/// Per-character pause in microseconds: a minute, divided by five characters
/// for each word.
pub fn char_delay(settings: &Settings) -> (micros: u64)
    requires
        settings.wpm > 0,
    ensures
        micros == 60_000_000int / (5 * settings.wpm),
{
    let micros: u64 = MICROS_PER_CHAR_AT_ONE_WPM / (settings.wpm as u64);
    assert(60_000_000int / (5 * settings.wpm as int) == 12_000_000int / settings.wpm as int)
        by (nonlinear_arith)
        requires
            settings.wpm > 0,
    ;
    micros
}

pub fn set_insert_mode(settings: &mut Settings, mode: InsertMode)
    ensures
        *final(settings) == (Settings { insert_mode: mode, ..*old(settings) }),
{
    settings.insert_mode = mode;
}

pub fn insert_mode(settings: &Settings) -> (r: InsertMode)
    ensures
        r == settings.insert_mode,
{
    settings.insert_mode
}

pub fn set_paste_combo(settings: &mut Settings, combo: PasteCombo)
    ensures
        *final(settings) == (Settings { paste_combo: combo, ..*old(settings) }),
{
    settings.paste_combo = combo;
}

pub fn paste_combo(settings: &Settings) -> (r: PasteCombo)
    ensures
        r == settings.paste_combo,
{
    settings.paste_combo
}

pub fn set_restore_delay_ms(settings: &mut Settings, ms: u32)
    ensures
        *final(settings) == (Settings {
            restore_delay_ms: clamped(
                ms as int,
                RESTORE_DELAY_MIN_MS as int,
                RESTORE_DELAY_MAX_MS as int,
            ) as u32,
            ..*old(settings)
        }),
{
    settings.restore_delay_ms = clamp(ms, RESTORE_DELAY_MIN_MS, RESTORE_DELAY_MAX_MS);
}

pub fn restore_delay_ms(settings: &Settings) -> (r: u32)
    ensures
        r == settings.restore_delay_ms,
{
    settings.restore_delay_ms
}

pub fn set_auto_paste_words(settings: &mut Settings, words: u32)
    ensures
        *final(settings) == (Settings { auto_paste_words: words, ..*old(settings) }),
{
    settings.auto_paste_words = words;
}

pub fn auto_paste_words(settings: &Settings) -> (r: u32)
    ensures
        r == settings.auto_paste_words,
{
    settings.auto_paste_words
}

/// Tells a type-out that is under way to stop: it compares the epoch that it
/// began in with the present one.
pub fn cancel_active_typeout(epoch: &mut u64)
    ensures
        *final(epoch) == (*old(epoch) + 1) % 0x1_0000_0000_0000_0000,
        *final(epoch) != *old(epoch),
{
    *epoch = epoch.wrapping_add(1);
}

/// The epoch that a type-out begins in.
pub fn cancel_epoch(epoch: &u64) -> (r: u64)
    ensures
        r == *epoch,
{
    *epoch
}

/// How one expansion is delivered.
#[derive(Clone, Copy, PartialEq, Eq, Debug, Structural)]
pub enum Mode {
    Clipboard,
    Native,
    KeyReplay,
}

/// What kind of window an expansion goes to.
#[derive(Clone, Copy, PartialEq, Eq, Debug, Structural)]
pub enum TargetKind {
    Standard,
    Codex,
    Terminal(PasteCombo),
}

/// How typing reaches a target.
pub open spec fn typing_mode(target: TargetKind) -> Mode {
    if target is Terminal {
        Mode::KeyReplay
    } else {
        Mode::Native
    }
}

/// How a text of so many words is delivered to a target.
pub open spec fn delivery(mode: InsertMode, word_count: nat, target: TargetKind) -> Mode {
    match mode {
        InsertMode::Paste => Mode::Clipboard,
        InsertMode::Type => typing_mode(target),
        InsertMode::Auto => if word_count <= 15 {
            typing_mode(target)
        } else {
            Mode::Clipboard
        },
    }
}

/// The delivery of a text to an ordinary window.
pub fn resolve(mode: InsertMode, text: &str) -> (r: Mode)
    ensures
        r == delivery(mode, words(text@), TargetKind::Standard),
{
    resolve_for_target(mode, text, TargetKind::Standard)
}

pub fn resolve_for_target(mode: InsertMode, text: &str, target: TargetKind) -> (r: Mode)
    ensures
        r == delivery(mode, words(text@), target),
{
    match mode {
        InsertMode::Paste => Mode::Clipboard,
        InsertMode::Type => typing_mode_for_target(target),
        InsertMode::Auto => {
            if word_count(text) <= AUTO_TYPE_MAX_WORDS {
                typing_mode_for_target(target)
            } else {
                Mode::Clipboard
            }
        },
    }
}

pub fn typing_mode_for_target(target: TargetKind) -> (r: Mode)
    ensures
        r == typing_mode(target),
{
    match target {
        TargetKind::Terminal(_) => Mode::KeyReplay,
        _ => Mode::Native,
    }
}

/// The combo that a target is sent: the configured one, unless that is the
/// default and the target is known to want another.
pub open spec fn paste_combo_for(configured: PasteCombo, target: TargetKind) -> PasteCombo {
    if configured != PasteCombo::CtrlV {
        configured
    } else {
        match target {
            TargetKind::Terminal(preferred) => preferred,
            TargetKind::Codex => PasteCombo::CtrlShiftV,
            TargetKind::Standard => PasteCombo::CtrlV,
        }
    }
}

pub fn effective_paste_combo(configured: PasteCombo, target: TargetKind) -> (r: PasteCombo)
    ensures
        r == paste_combo_for(configured, target),
{
    if configured != PasteCombo::CtrlV {
        return configured;
    }
    match target {
        TargetKind::Terminal(preferred) => preferred,
        // Codex reserves Ctrl+V for image attachment. Ctrl+Shift+V remains a
        // text paste in its input controls.
        TargetKind::Codex => PasteCombo::CtrlShiftV,
        TargetKind::Standard => PasteCombo::CtrlV,
    }
}

/// One expansion: how many characters of trigger to delete first, then how to
/// insert the text, and what kind of window it goes to.
#[derive(Clone, Copy, PartialEq, Eq, Debug, Structural)]
pub struct Plan {
    pub backspaces: usize,
    pub mode: Mode,
    pub target: TargetKind,
}

/// Decides how the foreground window gets an expansion.
pub fn expand(
    trigger_char_len: usize,
    text: &str,
    target: &ForegroundContext,
    settings: &Settings,
) -> (plan: Plan)
    ensures
        plan.backspaces == trigger_char_len,
        plan.target == target_kind(target.title@, target.class_name@, target.process_name@),
        plan.mode == delivery(settings.insert_mode, words(text@), plan.target),
{
    let kind = classify_target(target);
    Plan {
        backspaces: trigger_char_len,
        mode: resolve_for_target(settings.insert_mode, text, kind),
        target: kind,
    }
}

/// The extra time a long text stays on the clipboard: one second for every
/// 500 characters, begun or whole, beyond the first 110, and three at most.
/// The steps are counted in 32 bits.
pub open spec fn long_text_extra(text_char_len: nat) -> int {
    let over = if text_char_len > 110 {
        text_char_len - 110
    } else {
        0
    };
    let steps = ((over + 499) / 500) % 0x1_0000_0000;
    if steps >= 3 {
        3_000
    } else {
        1_000 * steps
    }
}

pub fn long_text_restore_extra_ms(text_char_len: usize) -> (ms: u32)
    ensures
        ms == long_text_extra(text_char_len as nat),
{
    let over: usize = text_char_len.saturating_sub(LONG_TEXT_RESTORE_BASE_CHARS);
    let whole: usize = over / LONG_TEXT_RESTORE_STEP_CHARS;
    let exact: u64 = if over % LONG_TEXT_RESTORE_STEP_CHARS == 0 {
        whole as u64
    } else {
        whole as u64 + 1
    };
    assert(exact == (over + 499) / 500);
    let steps: u32 = #[verifier::truncate] (exact as u32);
    assert(steps == exact % 0x1_0000_0000) by (bit_vector)
        requires
            steps == exact as u32,
    ;
    if steps >= LONG_TEXT_RESTORE_MAX_EXTRA_MS / LONG_TEXT_RESTORE_STEP_MS {
        LONG_TEXT_RESTORE_MAX_EXTRA_MS
    } else {
        steps * LONG_TEXT_RESTORE_STEP_MS
    }
}

/// How long the expansion stays on the clipboard: the configured time, raised
/// to the minimum of a rich clipboard and of a sensitive target, plus the
/// extra time of a long text, within the maximum.
pub open spec fn restore_delay(
    configured: int,
    rich: bool,
    text_char_len: nat,
    sensitive: bool,
) -> int {
    let a = if rich && configured < 5_000 {
        5_000
    } else {
        configured
    };
    let b = if sensitive && a < 12_000 {
        12_000
    } else {
        a
    };
    let c = b + long_text_extra(text_char_len);
    if c > 15_000 {
        15_000
    } else {
        c
    }
}

pub fn restore_delay_from(
    configured_delay_ms: u32,
    saved_contains_non_plain_text: bool,
    text_char_len: usize,
    sensitive_target: bool,
) -> (ms: u32)
    ensures
        ms == restore_delay(
            configured_delay_ms as int,
            saved_contains_non_plain_text,
            text_char_len as nat,
            sensitive_target,
        ),
{
    let mut base: u32 = configured_delay_ms;
    if saved_contains_non_plain_text && base < RICH_CLIPBOARD_RESTORE_MIN_MS {
        base = RICH_CLIPBOARD_RESTORE_MIN_MS;
    }
    if sensitive_target && base < SENSITIVE_TARGET_RESTORE_MIN_MS {
        base = SENSITIVE_TARGET_RESTORE_MIN_MS;
    }
    let total: u32 = base.saturating_add(long_text_restore_extra_ms(text_char_len));
    if total > RESTORE_DELAY_MAX_MS {
        RESTORE_DELAY_MAX_MS
    } else {
        total
    }
}

pub fn restore_delay_for(
    settings: &Settings,
    saved_contains_non_plain_text: bool,
    text_char_len: usize,
    sensitive_target: bool,
) -> (ms: u32)
    ensures
        ms == restore_delay(
            settings.restore_delay_ms as int,
            saved_contains_non_plain_text,
            text_char_len as nat,
            sensitive_target,
        ),
{
    restore_delay_from(
        settings.restore_delay_ms,
        saved_contains_non_plain_text,
        text_char_len,
        sensitive_target,
    )
}

} // verus!
