use vstd::prelude::*;

verus! {

/// The buttons of the main menu.
#[derive(Clone, Copy, Debug, PartialEq, Eq, Structural)]
pub enum ButtonId {
    SinglePlayer,
    Settings,
    Credits,
    Quit,
}

/// What a click on a menu button asks the game to do.
#[derive(Clone, Copy, Debug, PartialEq, Eq, Structural)]
pub enum MenuAction {
    /// Enter the playing state.
    StartGame,
    /// Leave the application.
    Exit,
    /// Nothing yet.
    Nothing,
}

impl ButtonId {
    /// The action of a click on this button.
    pub fn on_click(self) -> (r: MenuAction)
        ensures
            r == (match self {
                ButtonId::SinglePlayer => MenuAction::StartGame,
                ButtonId::Quit => MenuAction::Exit,
                _ => MenuAction::Nothing,
            }),
    {
        match self {
            ButtonId::SinglePlayer => MenuAction::StartGame,
            ButtonId::Quit => MenuAction::Exit,
            _ => MenuAction::Nothing,
        }
    }
}

/// The two audio channels: music and sound effects.
#[derive(Clone, Copy, Debug, PartialEq, Eq, Structural)]
pub enum AudioChannelId {
    Music,
    Audio,
}

} // verus!
