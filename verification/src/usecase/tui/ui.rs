//! What the interface shows, as far as it does not depend on the terminal.
use super::app::CurrentPane;
use vstd::prelude::*;

verus! {

/// The row, counted from 0 among `row_count` rows, at which the defining line of the selected
/// command is kept: the middle row, or the upper of the two middle rows.
pub open spec fn middle_row(row_count: usize) -> int {
    if row_count % 2 == 0 {
        row_count / 2 - 1
    } else {
        (row_count + 1) / 2 - 1
    }
}

/// The first and last line, counted from 0, that the preview shows in `row_count` rows: the
/// line `command_row_index` stands in the middle row, or the first `row_count` lines are shown
/// when it is near the top of the file.
pub open spec fn rendering_range(row_count: usize, command_row_index: usize) -> (int, int) {
    if command_row_index < middle_row(row_count) {
        (0, row_count - 1)
    } else {
        (command_row_index - middle_row(row_count), command_row_index - middle_row(row_count) + row_count - 1)
    }
}

/// The first and last line, counted from 0, that the preview shows in `row_count` rows for the
/// selected command defined at line `command_row_index`.
pub fn determine_rendering_position(row_count: usize, command_row_index: usize) -> (r: (usize, usize))
    requires
        row_count >= 1,
        command_row_index + row_count <= usize::MAX,
    ensures
        r.0 == rendering_range(row_count, command_row_index).0,
        r.1 == rendering_range(row_count, command_row_index).1,
{
    let middle_row_index = if row_count % 2 == 0 {
        row_count / 2 - 1
    } else {
        (row_count - 1) / 2 + 1 - 1
    };
    if command_row_index < middle_row_index {
        (0, row_count - 1)
    } else {
        let start_index = command_row_index - middle_row_index;
        let end_index = start_index + row_count - 1;
        (start_index, end_index)
    }
}

/// The line of the selected command is always among the `row_count` consecutive lines that the
/// preview shows, none of which comes before the first line of the file.
pub proof fn law_selected_line_is_shown(row_count: usize, command_row_index: usize)
    requires
        row_count >= 1,
    ensures
        0 <= rendering_range(row_count, command_row_index).0 <= command_row_index <= rendering_range(
            row_count,
            command_row_index,
        ).1,
        rendering_range(row_count, command_row_index).1 - rendering_range(row_count, command_row_index).0
            + 1 == row_count,
{
}

/// The key bindings shown at the bottom of the screen.
pub fn hint_text(is_additional_arguments_popup_opened: bool, current_pane: CurrentPane) -> (r: &'static str)
    ensures
        is_additional_arguments_popup_opened ==> r@ == "Execute the selected command: <enter> | Passing additional arguments: (type any character) | Close the popup window: <esc>"@,
        !is_additional_arguments_popup_opened && current_pane == CurrentPane::Main ==> r@ == "Execute the selected command: <enter> | Select command: ↑(<c-p>)/↓(<c-n>) | Narrow down command: (type any character) | Quit: <c-c>/<esc> | Move to next tab: <tab> | Copy command to clipboard: <c-y> | Pass additional arguments: <c-o>"@,
        !is_additional_arguments_popup_opened && current_pane == CurrentPane::History ==> r@ == "Execute the selected command: <enter> | Select command: ↑(<c-p>)/↓(<c-n>) | Quit: <c-c>/q/<esc> | Move to next tab: <tab> | Copy command to clipboard: <c-y> | Pass additional arguments: <c-o>"@,
{
    if is_additional_arguments_popup_opened {
        "Execute the selected command: <enter> | Passing additional arguments: (type any character) | Close the popup window: <esc>"
    } else {
        match current_pane {
            CurrentPane::Main => "Execute the selected command: <enter> | Select command: ↑(<c-p>)/↓(<c-n>) | Narrow down command: (type any character) | Quit: <c-c>/<esc> | Move to next tab: <tab> | Copy command to clipboard: <c-y> | Pass additional arguments: <c-o>",
            CurrentPane::History => "Execute the selected command: <enter> | Select command: ↑(<c-p>)/↓(<c-n>) | Quit: <c-c>/q/<esc> | Move to next tab: <tab> | Copy command to clipboard: <c-y> | Pass additional arguments: <c-o>",
        }
    }
}

/// The notification next to the search box: the outcome of the last copy to the clipboard, or
/// else the newer release when `latest_version` differs from `v{current_version}`, or nothing.
pub fn notification_text(
    copy_command_state: &Option<Result<String, String>>,
    latest_version: &Option<String>,
    current_version: &str,
) -> (r: String)
    ensures
        copy_command_state matches Some(Ok(c)) ==> r@ == "📋 Command copied to clipboard: "@ + c@,
        copy_command_state matches Some(Err(e)) ==> r@ == "⚠️ Failed to copy command to clipboard: "@
            + e@,
        *copy_command_state is None ==> (*latest_version matches Some(v) ==> (seq!['v']
            + current_version@ != v@ ==> r@ == "📦️ A new release is available! v"@ + current_version@
            + " → "@ + v@ + "."@)),
        *copy_command_state is None ==> (*latest_version matches Some(v) ==> (seq!['v']
            + current_version@ == v@ ==> r@.len() == 0)),
        *copy_command_state is None && *latest_version is None ==> r@.len() == 0,
{
    match copy_command_state {
        Some(Ok(c)) => {
            let mut s = String::from_str("📋 Command copied to clipboard: ");
            s.append(c.as_str());
            proof {
                reveal_strlit("📋 Command copied to clipboard: ");
            }
            s
        },
        Some(Err(e)) => {
            let mut s = String::from_str("⚠️ Failed to copy command to clipboard: ");
            s.append(e.as_str());
            proof {
                reveal_strlit("⚠️ Failed to copy command to clipboard: ");
            }
            s
        },
        None => match latest_version {
            Some(v) => {
                let mut tagged = String::from_str("v");
                tagged.append(current_version);
                proof {
                    reveal_strlit("v");
                }
                assert(tagged@ == seq!['v'] + current_version@);
                let a = crate::text::to_chars(tagged.as_str());
                let b = crate::text::to_chars(v.as_str());
                if !crate::text::chars_equal(a.as_slice(), b.as_slice()) {
                    let mut s = String::from_str("📦️ A new release is available! v");
                    s.append(current_version);
                    s.append(" → ");
                    s.append(v.as_str());
                    s.append(".");
                    proof {
                        reveal_strlit("📦️ A new release is available! v");
                        reveal_strlit(" → ");
                        reveal_strlit(".");
                    }
                    assert(s@ == "📦️ A new release is available! v"@ + current_version@ + " → "@ + v@ + "."@);
                    s
                } else {
                    let e = String::new();
                    assert(e@.len() == 0);
                    e
                }
            },
            None => String::new(),
        },
    }
}

} // verus!
