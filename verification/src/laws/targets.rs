//! What holds of telling windows apart, by the programs, window classes and
//! titles themselves.

use vstd::prelude::*;

use crate::expansion::{PasteCombo, TargetKind};
use crate::target::target_kind;
use crate::text::{ascii_lowered, occurs, occurs_at};

verus! {

/// Every window of a known terminal program is a terminal, whatever its title
/// and class.
pub proof fn windows_of_terminal_programs_are_terminals(
    title: Seq<char>,
    class_name: Seq<char>,
    process_name: Seq<char>,
)
    requires
        ({
            let p = ascii_lowered(process_name);
            p == "windowsterminal.exe"@
                || p == "wezterm-gui.exe"@
                || p == "wezterm.exe"@
                || p == "alacritty.exe"@
                || p == "kitty.exe"@
                || p == "kitty_portable.exe"@
                || p == "mintty.exe"@
                || p == "conhost.exe"@
                || p == "conemu.exe"@
                || p == "conemu64.exe"@
                || p == "cmder.exe"@
                || p == "tabby.exe"@
                || p == "hyper.exe"@
                || p == "waveterm.exe"@
                || p == "wave.exe"@
                || p == "warp.exe"@
                || p == "rio.exe"@
                || p == "contour.exe"@
                || p == "fluentterminal.exe"@
                || p == "extraterm.exe"@
        }),
    ensures
        target_kind(title, class_name, process_name) is Terminal,
{
}

/// Every window with a terminal's name in its class is a terminal, whatever its
/// title and program.
pub proof fn windows_of_terminal_classes_are_terminals(
    title: Seq<char>,
    class_name: Seq<char>,
    process_name: Seq<char>,
)
    requires
        ({
            let c = ascii_lowered(class_name);
            occurs(c, "cascadia_hosting_window_class"@)
                || occurs(c, "consolewindowclass"@)
                || occurs(c, "mintty"@)
                || occurs(c, "virtualconsoleclass"@)
                || occurs(c, "org.wezfurlong.wezterm"@)
                || occurs(c, "alacritty"@)
                || occurs(c, "kitty"@)
                || occurs(c, "conemu"@)
        }),
    ensures
        target_kind(title, class_name, process_name) is Terminal,
{
}

/// Every window with a terminal in its title is a terminal, whatever its class
/// and program.
pub proof fn windows_with_terminal_titles_are_terminals(
    title: Seq<char>,
    class_name: Seq<char>,
    process_name: Seq<char>,
)
    requires
        ({
            let t = ascii_lowered(title);
            occurs(t, "command prompt"@)
                || occurs(t, "powershell"@)
                || occurs(t, "pwsh"@)
                || occurs(t, "terminal"@)
        }),
    ensures
        target_kind(title, class_name, process_name) is Terminal,
{
}

/// A terminal is known by its program, its class or its title, and by nothing
/// else.
pub proof fn a_terminal_is_known_by_its_names(
    title: Seq<char>,
    class_name: Seq<char>,
    process_name: Seq<char>,
)
    requires
        target_kind(title, class_name, process_name) is Terminal,
    ensures
        ({
            let t = ascii_lowered(title);
            let c = ascii_lowered(class_name);
            let p = ascii_lowered(process_name);
            p == "windowsterminal.exe"@
                || p == "wezterm-gui.exe"@
                || p == "wezterm.exe"@
                || p == "alacritty.exe"@
                || p == "kitty.exe"@
                || p == "kitty_portable.exe"@
                || p == "mintty.exe"@
                || p == "conhost.exe"@
                || p == "conemu.exe"@
                || p == "conemu64.exe"@
                || p == "cmder.exe"@
                || p == "tabby.exe"@
                || p == "hyper.exe"@
                || p == "waveterm.exe"@
                || p == "wave.exe"@
                || p == "warp.exe"@
                || p == "rio.exe"@
                || p == "contour.exe"@
                || p == "fluentterminal.exe"@
                || p == "extraterm.exe"@
                || occurs(c, "cascadia_hosting_window_class"@)
                || occurs(c, "consolewindowclass"@)
                || occurs(c, "mintty"@)
                || occurs(c, "virtualconsoleclass"@)
                || occurs(c, "org.wezfurlong.wezterm"@)
                || occurs(c, "alacritty"@)
                || occurs(c, "kitty"@)
                || occurs(c, "conemu"@)
                || occurs(t, "command prompt"@)
                || occurs(t, "powershell"@)
                || occurs(t, "pwsh"@)
                || occurs(t, "terminal"@)
        }),
{
    let t = ascii_lowered(title);
    if occurs(t, "windows terminal"@) {
        reveal_strlit("windows terminal");
        reveal_strlit("terminal");
        let i = choose|i: int| #[trigger] occurs_at(t, "windows terminal"@, i);
        assert(t.subrange(i, i + 16).subrange(8, 16) =~= t.subrange(i + 8, i + 16));
        assert("windows terminal"@.subrange(8, 16) =~= "terminal"@);
        assert(occurs_at(t, "terminal"@, i + 8));
    }
}

/// A terminal pastes on Shift+Insert just if it is a classic console, and on
/// Ctrl+Shift+V else.
pub proof fn classic_consoles_paste_on_shift_insert(
    title: Seq<char>,
    class_name: Seq<char>,
    process_name: Seq<char>,
)
    requires
        target_kind(title, class_name, process_name) is Terminal,
    ensures
        ({
            let c = ascii_lowered(class_name);
            let p = ascii_lowered(process_name);
            let classic = p == "mintty.exe"@ || p == "conhost.exe"@ || occurs(
                c,
                "consolewindowclass"@,
            ) || occurs(c, "mintty"@);
            target_kind(title, class_name, process_name) == TargetKind::Terminal(
                if classic {
                    PasteCombo::ShiftInsert
                } else {
                    PasteCombo::CtrlShiftV
                },
            )
        }),
{
}

/// A window that is no terminal is Codex just if its program is Codex or its
/// title speaks of it, and an ordinary window else.
pub proof fn codex_is_known_by_program_or_title(
    title: Seq<char>,
    class_name: Seq<char>,
    process_name: Seq<char>,
)
    requires
        !(target_kind(title, class_name, process_name) is Terminal),
    ensures
        target_kind(title, class_name, process_name) == TargetKind::Codex <==> ascii_lowered(
            process_name,
        ) == "codex.exe"@ || occurs(ascii_lowered(title), "codex"@),
        target_kind(title, class_name, process_name) == TargetKind::Standard <==> !(ascii_lowered(
            process_name,
        ) == "codex.exe"@ || occurs(ascii_lowered(title), "codex"@)),
{
}

} // verus!
