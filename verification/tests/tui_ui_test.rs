use fzf_make::usecase::tui::app::CurrentPane;
use fzf_make::usecase::tui::ui::{determine_rendering_position, hint_text, notification_text};

#[test]
fn test_determine_rendering_position() {
    // start is greater than 0(row_count is odd number)
    let (start, end) = determine_rendering_position(5, 4);
    assert_eq!(start, 2);
    assert_eq!(end, 6);

    // start is greater than 0(row_count is even number)
    let (start, end) = determine_rendering_position(6, 4);
    assert_eq!(start, 2);
    assert_eq!(end, 7);

    // start is 0
    let (start, end) = determine_rendering_position(10, 1);
    assert_eq!(start, 0);
    assert_eq!(end, 9);
}

#[test]
fn notification_prefers_the_clipboard_outcome() {
    assert_eq!(
        "📋 Command copied to clipboard: make run",
        notification_text(&Some(Ok("make run".to_string())), &Some("v9.9.9".to_string()), "1.0.0")
    );
    assert_eq!(
        "⚠️ Failed to copy command to clipboard: no display",
        notification_text(&Some(Err("no display".to_string())), &None, "1.0.0")
    );
    assert_eq!(
        "📦️ A new release is available! v1.0.0 → v1.1.0.",
        notification_text(&None, &Some("v1.1.0".to_string()), "1.0.0")
    );
    assert_eq!("", notification_text(&None, &Some("v1.0.0".to_string()), "1.0.0"));
    assert_eq!("", notification_text(&None, &None, "1.0.0"));
}

#[test]
fn hints_depend_on_the_focus() {
    assert!(hint_text(true, CurrentPane::Main).contains("Close the popup window"));
    assert!(hint_text(false, CurrentPane::Main).contains("Narrow down command"));
    assert!(hint_text(false, CurrentPane::History).contains("Quit: <c-c>/q/<esc>"));
}

#[test]
fn selected_line_is_always_shown() {
    assert_eq!((0, 0), determine_rendering_position(1, 0));
    assert_eq!((7, 7), determine_rendering_position(1, 7));
    assert_eq!((4, 6), determine_rendering_position(3, 5));
    assert_eq!((0, 3), determine_rendering_position(4, 0));
    for rows in 1..8usize {
        for line in 0..20usize {
            let (start, end) = determine_rendering_position(rows, line);
            assert!(start <= line && line <= end && end - start + 1 == rows);
        }
    }
}
