//! The tray menu: which action a clicked menu entry asks for.

use vstd::prelude::*;
use crate::text::str_equals;

verus! {

/// What the tray asks the daemon to do.
#[derive(Clone, Copy, Debug, PartialEq, Eq, Structural)]
pub enum TrayAction {
    NoAction,
    OpenSettings,
    Exit,
}

/// The identifiers of the tray menu's two entries.
pub struct TrayManager {
    pub settings_id: String,
    pub exit_id: String,
}

/// The action a menu event with identifier `event` asks for, given the
/// settings entry's identifier and the exit entry's.
pub open spec fn action_for(event: Option<Seq<char>>, settings_id: Seq<char>, exit_id: Seq<char>) -> TrayAction {
    match event {
        None => TrayAction::NoAction,
        Some(id) => if id == settings_id {
            TrayAction::OpenSettings
        } else if id == exit_id {
            TrayAction::Exit
        } else {
            TrayAction::NoAction
        },
    }
}

impl TrayManager {
    /// A menu whose entries carry these identifiers.
    pub fn new(settings_id: String, exit_id: String) -> (t: TrayManager)
        ensures
            t.settings_id == settings_id,
            t.exit_id == exit_id,
    {
        TrayManager { settings_id, exit_id }
    }

    /// The action asked for by the pending menu event, if there is one: the
    /// settings entry opens the settings, the exit entry exits, anything
    /// else (or no event) asks for nothing.
    pub fn update(&self, event_id: Option<&str>) -> (a: TrayAction)
        ensures
            a == action_for(
                match event_id {
                    Some(id) => Some(id@),
                    None => None,
                },
                self.settings_id@,
                self.exit_id@,
            ),
    {
        match event_id {
            None => TrayAction::NoAction,
            Some(id) => {
                if str_equals(id, self.settings_id.as_str()) {
                    TrayAction::OpenSettings
                } else if str_equals(id, self.exit_id.as_str()) {
                    TrayAction::Exit
                } else {
                    TrayAction::NoAction
                }
            },
        }
    }
}

/// Law: the settings entry opens the settings, the exit entry exits, and
/// no event or any other entry asks for nothing.
pub proof fn lemma_menu_entries_ask_for_their_actions(
    id: Seq<char>,
    settings_id: Seq<char>,
    exit_id: Seq<char>,
)
    ensures
        action_for(None, settings_id, exit_id) == TrayAction::NoAction,
        action_for(Some(settings_id), settings_id, exit_id) == TrayAction::OpenSettings,
        settings_id != exit_id ==> action_for(Some(exit_id), settings_id, exit_id)
            == TrayAction::Exit,
        id != settings_id && id != exit_id ==> action_for(Some(id), settings_id, exit_id)
            == TrayAction::NoAction,
{
}

} // verus!
