//! The text that the interface shows; drawing it is the caller's work.
use vstd::prelude::*;
use crate::discovery::BlockDevice;
use crate::text::{decimal, u64_to_decimal};
use crate::theme::{SteelboreTheme, ThemeStyle};
use crate::tui::app::App;

verus! {

/// The model of a device, or `Unknown` when `lsblk` gives none.
pub open spec fn model_text(d: BlockDevice) -> Seq<char> {
    match d.model {
        Some(m) => m@,
        None => "Unknown"@,
    }
}

fn model_str(d: &BlockDevice) -> (s: &str)
    ensures
        s@ == model_text(*d),
{
    match &d.model {
        Some(m) => m.as_str(),
        None => "Unknown",
    }
}

/// A line of the device list: name, model and size.
pub open spec fn device_line_text(d: BlockDevice) -> Seq<char> {
    d.name@ + " | "@ + model_text(d) + " | "@ + d.size@
}

/// Builds `device_line_text`.
pub fn device_line(d: &BlockDevice) -> (line: String)
    ensures
        line@ == device_line_text(*d),
{
    String::from_str(d.name.as_str()).concat(" | ").concat(model_str(d)).concat(" | ").concat(
        d.size.as_str(),
    )
}

/// A line of the `list` command: `- name (model): size`.
pub open spec fn disk_summary_text(d: BlockDevice) -> Seq<char> {
    "- "@ + d.name@ + " ("@ + model_text(d) + "): "@ + d.size@
}

/// Builds `disk_summary_text`.
pub fn disk_summary(d: &BlockDevice) -> (line: String)
    ensures
        line@ == disk_summary_text(*d),
{
    String::from_str("- ").concat(d.name.as_str()).concat(" (").concat(model_str(d)).concat("): ").concat(
        d.size.as_str(),
    )
}

/// The entries of the configuration screen, the install button last.
pub open spec fn config_texts(app: App) -> Seq<Seq<char>> {
    seq![
        " SECURE BOOT: "@ + (if app.secure_boot { "ENABLED"@ } else { "DISABLED"@ }),
        " PARTITION STYLE: "@ + (if app.use_gpt { "GPT"@ } else { "MBR"@ }),
        " RESERVE SPACE: "@ + decimal(app.reserve_space as nat) + " MiB"@,
        " DRY RUN: "@ + (if app.dry_run { "[X] (Safe testing)"@ } else { "[ ] (Destructive)"@ }),
        " [ INSTALL VENTOY ] "@,
    ]
}

/// Builds `config_texts`.
pub fn config_lines(app: &App) -> (lines: Vec<String>)
    ensures
        lines.deep_view() == config_texts(*app),
{
    let mut lines: Vec<String> = Vec::new();
    lines.push(String::from_str(" SECURE BOOT: ").concat(if app.secure_boot { "ENABLED" } else { "DISABLED" }));
    lines.push(String::from_str(" PARTITION STYLE: ").concat(if app.use_gpt { "GPT" } else { "MBR" }));
    lines.push(String::from_str(" RESERVE SPACE: ").concat(u64_to_decimal(app.reserve_space).as_str()).concat(" MiB"));
    lines.push(String::from_str(" DRY RUN: ").concat(if app.dry_run { "[X] (Safe testing)" } else { "[ ] (Destructive)" }));
    lines.push(String::from_str(" [ INSTALL VENTOY ] "));
    assert(lines.deep_view() =~= config_texts(*app));
    lines
}

/// The lines of the installation log that the screen shows: the newest ten, newest first.
pub open spec fn recent_log_texts(logs: Seq<Seq<char>>) -> Seq<Seq<char>> {
    let n = if logs.len() < 10 { logs.len() as int } else { 10 };
    Seq::new(n as nat, |i: int| logs[logs.len() - 1 - i])
}

/// Builds `recent_log_texts`.
pub fn recent_logs(logs: &Vec<String>) -> (shown: Vec<String>)
    ensures
        shown.deep_view() == recent_log_texts(logs.deep_view()),
{
    let len = logs.len();
    let n: usize = if len < 10 { len } else { 10 };
    let mut shown: Vec<String> = Vec::new();
    let mut i: usize = 0;
    while i < n
        invariant
            len == logs@.len(),
            n <= len,
            n == (if len < 10 { len } else { 10 }),
            i <= n,
            shown@.len() == i,
            forall|j: int| 0 <= j < i ==> (#[trigger] shown@[j])@ == logs@[len - 1 - j]@,
        decreases n - i,
    {
        shown.push(logs[len - 1 - i].clone());
        i = i + 1;
    }
    assert(shown.deep_view() =~= recent_log_texts(logs.deep_view()));
    shown
}

/// The style of entry `index` of a list or of the configuration screen when
/// entry `selected` is selected: the highlight for the selected entry, else
/// the header style for the install button and the body text for the others.
pub open spec fn row_style_spec(theme: SteelboreTheme, index: usize, selected: usize, install_row: bool) -> ThemeStyle {
    if index == selected {
        theme.highlight
    } else if install_row {
        theme.text_header
    } else {
        theme.text_primary
    }
}

/// Picks `row_style_spec`.
pub fn row_style(theme: &SteelboreTheme, index: usize, selected: usize, install_row: bool) -> (s: ThemeStyle)
    ensures
        s == row_style_spec(*theme, index, selected, install_row),
{
    if index == selected {
        theme.highlight
    } else if install_row {
        theme.text_header
    } else {
        theme.text_primary
    }
}

/// Whether entry `index` of the configuration screen is the install button, the last one.
pub fn is_install_entry(index: usize) -> (b: bool)
    ensures
        b == (index == 4),
{
    index == 4
}

/// The border of an entry of the configuration screen: the active border for
/// the install button, the inactive one for the others.
pub fn row_border(theme: &SteelboreTheme, install_row: bool) -> (s: ThemeStyle)
    ensures
        s == (if install_row { theme.border_active } else { theme.border_inactive }),
{
    if install_row {
        theme.border_active
    } else {
        theme.border_inactive
    }
}

} // verus!
