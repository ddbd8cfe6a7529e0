use street_edits::connectivity::{count_disconnected, help};
use street_edits::menu::{signal_change_menu, SignalChange};

#[test]
fn full_menu_in_presentation_order() {
    assert_eq!(
        signal_change_menu(true, true, true),
        vec![
            SignalChange::UseTemplate,
            SignalChange::AllWalk,
            SignalChange::MajorMinorTiming,
            SignalChange::ConvertToStopSign,
            SignalChange::CloseForConstruction,
            SignalChange::Reset,
            SignalChange::ImportTiming,
            SignalChange::ReimportTiming,
            SignalChange::ImportTimingForAll,
        ]
    );
}

#[test]
fn minimal_menu_keeps_the_unconditional_entries() {
    assert_eq!(
        signal_change_menu(false, false, false),
        vec![
            SignalChange::UseTemplate,
            SignalChange::MajorMinorTiming,
            SignalChange::Reset,
            SignalChange::ImportTiming,
            SignalChange::ImportTimingForAll,
        ]
    );
}

#[test]
fn stop_sign_entries_appear_together() {
    assert_eq!(
        signal_change_menu(false, true, false),
        vec![
            SignalChange::UseTemplate,
            SignalChange::MajorMinorTiming,
            SignalChange::ConvertToStopSign,
            SignalChange::CloseForConstruction,
            SignalChange::Reset,
            SignalChange::ImportTiming,
            SignalChange::ImportTimingForAll,
        ]
    );
}

#[test]
fn reimport_needs_a_previous_import() {
    let menu = signal_change_menu(true, false, true);
    assert!(menu.contains(&SignalChange::ReimportTiming));
    let menu_without = signal_change_menu(true, false, false);
    assert!(!menu_without.contains(&SignalChange::ReimportTiming));
}

#[test]
fn disconnected_cells_are_counted() {
    assert_eq!(count_disconnected(&Vec::new()), 0);
    assert_eq!(count_disconnected(&vec![false, false]), 0);
    assert_eq!(count_disconnected(&vec![true, false, true]), 2);
    assert_eq!(count_disconnected(&vec![true]), 1);
}

#[test]
fn help_lists_the_six_lines() {
    let lines = help();
    assert_eq!(lines.len(), 6);
    assert_eq!(
        lines[0],
        "The colored cells show where it's possible to drive without leaving the neighbourhood."
    );
    assert_eq!(lines[1], "");
    assert_eq!(lines[2], "The darker red roads have more predicted shortcutting traffic.");
    assert_eq!(lines[3], "");
    assert_eq!(lines[4], "Hint: You can place filters at roads or intersections.");
    assert_eq!(lines[5], "Use the lasso tool to quickly sketch your idea.");
}
