//! Telling what kind of window an expansion goes to, from its title, its
//! window class and its process.

use vstd::prelude::*;

use crate::expansion::{PasteCombo, TargetKind};
use crate::text::{ascii_lowered, contains, occurs, same_text, to_ascii_lowercase};

verus! {

/// What is known of the foreground window.
pub struct ForegroundContext {
    pub title: String,
    pub class_name: String,
    pub process_name: String,
}

/// The programs that are terminals.
pub open spec fn terminal_process(p: Seq<char>) -> bool {
    ||| p == "windowsterminal.exe"@
    ||| p == "wezterm-gui.exe"@
    ||| p == "wezterm.exe"@
    ||| p == "alacritty.exe"@
    ||| p == "kitty.exe"@
    ||| p == "kitty_portable.exe"@
    ||| p == "mintty.exe"@
    ||| p == "conhost.exe"@
    ||| p == "conemu.exe"@
    ||| p == "conemu64.exe"@
    ||| p == "cmder.exe"@
    ||| p == "tabby.exe"@
    ||| p == "hyper.exe"@
    ||| p == "waveterm.exe"@
    ||| p == "wave.exe"@
    ||| p == "warp.exe"@
    ||| p == "rio.exe"@
    ||| p == "contour.exe"@
    ||| p == "fluentterminal.exe"@
    ||| p == "extraterm.exe"@
}

/// The window classes of terminals.
pub open spec fn terminal_class(c: Seq<char>) -> bool {
    ||| occurs(c, "cascadia_hosting_window_class"@)
    ||| occurs(c, "consolewindowclass"@)
    ||| occurs(c, "mintty"@)
    ||| occurs(c, "virtualconsoleclass"@)
    ||| occurs(c, "org.wezfurlong.wezterm"@)
    ||| occurs(c, "alacritty"@)
    ||| occurs(c, "kitty"@)
    ||| occurs(c, "conemu"@)
}

/// The window titles of terminals.
pub open spec fn terminal_title(t: Seq<char>) -> bool {
    ||| occurs(t, "windows terminal"@)
    ||| occurs(t, "command prompt"@)
    ||| occurs(t, "powershell"@)
    ||| occurs(t, "pwsh"@)
    ||| occurs(t, "terminal"@)
}

/// The consoles that paste on Shift+Insert.
pub open spec fn classic_console(class_name: Seq<char>, process_name: Seq<char>) -> bool {
    ||| process_name == "mintty.exe"@
    ||| process_name == "conhost.exe"@
    ||| occurs(class_name, "consolewindowclass"@)
    ||| occurs(class_name, "mintty"@)
}

/// The kind of a window whose title, class and process are in lower case.
pub open spec fn kind_of_lowered(
    title: Seq<char>,
    class_name: Seq<char>,
    process_name: Seq<char>,
) -> TargetKind {
    if terminal_process(process_name) || terminal_class(class_name) || terminal_title(title) {
        TargetKind::Terminal(
            if classic_console(class_name, process_name) {
                PasteCombo::ShiftInsert
            } else {
                PasteCombo::CtrlShiftV
            },
        )
    } else if process_name == "codex.exe"@ || occurs(title, "codex"@) {
        TargetKind::Codex
    } else {
        TargetKind::Standard
    }
}

/// The kind of a window. ASCII letter case does not matter.
pub open spec fn target_kind(
    title: Seq<char>,
    class_name: Seq<char>,
    process_name: Seq<char>,
) -> TargetKind {
    kind_of_lowered(ascii_lowered(title), ascii_lowered(class_name), ascii_lowered(process_name))
}

fn is_terminal_process(p: &str) -> (r: bool)
    ensures
        r == terminal_process(p@),
{
    same_text(p, "windowsterminal.exe") || same_text(p, "wezterm-gui.exe") || same_text(
        p,
        "wezterm.exe",
    ) || same_text(p, "alacritty.exe") || same_text(p, "kitty.exe") || same_text(
        p,
        "kitty_portable.exe",
    ) || same_text(p, "mintty.exe") || same_text(p, "conhost.exe") || same_text(p, "conemu.exe")
        || same_text(p, "conemu64.exe") || same_text(p, "cmder.exe") || same_text(p, "tabby.exe")
        || same_text(p, "hyper.exe") || same_text(p, "waveterm.exe") || same_text(p, "wave.exe")
        || same_text(p, "warp.exe") || same_text(p, "rio.exe") || same_text(p, "contour.exe")
        || same_text(p, "fluentterminal.exe") || same_text(p, "extraterm.exe")
}

fn is_terminal_class(c: &str) -> (r: bool)
    ensures
        r == terminal_class(c@),
{
    contains(c, "cascadia_hosting_window_class") || contains(c, "consolewindowclass") || contains(
        c,
        "mintty",
    ) || contains(c, "virtualconsoleclass") || contains(c, "org.wezfurlong.wezterm") || contains(
        c,
        "alacritty",
    ) || contains(c, "kitty") || contains(c, "conemu")
}

fn is_terminal_title(t: &str) -> (r: bool)
    ensures
        r == terminal_title(t@),
{
    contains(t, "windows terminal") || contains(t, "command prompt") || contains(t, "powershell")
        || contains(t, "pwsh") || contains(t, "terminal")
}

fn is_classic_console(class_name: &str, process_name: &str) -> (r: bool)
    ensures
        r == classic_console(class_name@, process_name@),
{
    same_text(process_name, "mintty.exe") || same_text(process_name, "conhost.exe") || contains(
        class_name,
        "consolewindowclass",
    ) || contains(class_name, "mintty")
}

pub fn classify_target(target: &ForegroundContext) -> (kind: TargetKind)
    ensures
        kind == target_kind(target.title@, target.class_name@, target.process_name@),
{
    classify_target_parts(
        target.title.as_str(),
        target.class_name.as_str(),
        target.process_name.as_str(),
    )
}

pub fn classify_target_parts(title: &str, class_name: &str, process_name: &str) -> (kind: TargetKind)
    ensures
        kind == target_kind(title@, class_name@, process_name@),
{
    let title = to_ascii_lowercase(title);
    let class_name = to_ascii_lowercase(class_name);
    let process_name = to_ascii_lowercase(process_name);
    let title = title.as_str();
    let class_name = class_name.as_str();
    let process_name = process_name.as_str();
    if is_terminal_process(process_name) || is_terminal_class(class_name) || is_terminal_title(
        title,
    ) {
        return TargetKind::Terminal(
            if is_classic_console(class_name, process_name) {
                PasteCombo::ShiftInsert
            } else {
                PasteCombo::CtrlShiftV
            },
        );
    }
    if same_text(process_name, "codex.exe") || contains(title, "codex") {
        TargetKind::Codex
    } else {
        TargetKind::Standard
    }
}

} // verus!
