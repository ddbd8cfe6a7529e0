//! The menu of whole-signal changes.
//!
//! When the user asks to change an entire intersection rather than one
//! stage, they are offered a list of actions. Which actions appear, and in
//! what order, depends on the intersection and the session: an all-walk
//! stage needs sidewalks to scramble, stop signs and closures need a mode
//! that allows them, and re-importing a timing file needs a file to have
//! been imported before. This module decides the list; presenting it and
//! carrying an action out belong to the host application.

use vstd::prelude::*;

verus! {

/// One action offered for an entire traffic signal.
#[derive(Clone, Copy, PartialEq, Eq, Structural, Debug)]
pub enum SignalChange {
    /// Replace the signal with one of the preset policies.
    UseTemplate,
    /// Append an all-walk pedestrian scramble stage.
    AllWalk,
    /// Apply a timing pattern for a major/minor intersection.
    MajorMinorTiming,
    /// Convert the intersection to stop signs.
    ConvertToStopSign,
    /// Close the intersection for construction.
    CloseForConstruction,
    /// Reset the signal to its default policy.
    Reset,
    /// Import this signal's timing from a newly picked timing file.
    ImportTiming,
    /// Import again from the timing file picked last time.
    ReimportTiming,
    /// Import timing for every signal from a newly picked timing file.
    ImportTimingForAll,
}

/// The menu owed for the given intersection and session: templates first,
/// the all-walk stage only where sidewalks meet, stop signs and closure
/// only where the mode allows editing them, and the re-import entry only
/// when a timing file was imported before.
pub open spec fn signal_change_menu_spec(
    has_sidewalks: bool,
    can_edit_stop_signs: bool,
    has_last_import: bool,
) -> Seq<SignalChange> {
    seq![SignalChange::UseTemplate] + (if has_sidewalks {
        seq![SignalChange::AllWalk]
    } else {
        Seq::empty()
    }) + seq![SignalChange::MajorMinorTiming] + (if can_edit_stop_signs {
        seq![SignalChange::ConvertToStopSign, SignalChange::CloseForConstruction]
    } else {
        Seq::empty()
    }) + seq![SignalChange::Reset, SignalChange::ImportTiming] + (if has_last_import {
        seq![SignalChange::ReimportTiming]
    } else {
        Seq::empty()
    }) + seq![SignalChange::ImportTimingForAll]
}

/// Build the menu of whole-signal changes, in presentation order.
pub fn signal_change_menu(
    has_sidewalks: bool,
    can_edit_stop_signs: bool,
    has_last_import: bool,
) -> (r: Vec<SignalChange>)
    ensures
        r@ == signal_change_menu_spec(has_sidewalks, can_edit_stop_signs, has_last_import),
{
    let mut choices: Vec<SignalChange> = Vec::new();
    choices.push(SignalChange::UseTemplate);
    if has_sidewalks {
        choices.push(SignalChange::AllWalk);
    }
    choices.push(SignalChange::MajorMinorTiming);
    if can_edit_stop_signs {
        choices.push(SignalChange::ConvertToStopSign);
        choices.push(SignalChange::CloseForConstruction);
    }
    choices.push(SignalChange::Reset);
    choices.push(SignalChange::ImportTiming);
    if has_last_import {
        choices.push(SignalChange::ReimportTiming);
    }
    choices.push(SignalChange::ImportTimingForAll);
    proof {
        assert(choices@ =~= signal_change_menu_spec(
            has_sidewalks,
            can_edit_stop_signs,
            has_last_import,
        ));
    }
    choices
}

} // verus!
