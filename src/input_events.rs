use vstd::prelude::*;

verus! {

/// The keys the browser responds to.
#[derive(Debug, Clone, Copy, PartialEq, Eq, Structural, Hash)]
pub enum Key {
    Escape,
    Q,
    J,
    K,
    F,
    M,
    Minus,
    Plus,
    Equals,
    X,
    R,
    Other,
}

/// What a key press asks of the browser.
#[derive(Debug, Clone, Copy, PartialEq, Eq, Structural, Hash)]
pub enum Command {
    Exit,
    NextImage,
    PrevImage,
    ToggleFullscreen,
    ToggleStar,
    ResetView,
    Reload,
}

/// The command bound to `key`, if any: Escape or Q exits, J and K move to the
/// next and previous image, F toggles fullscreen, M toggles the star of the
/// current image, X resets pan and zoom, and R reloads the catalog.
pub fn command_for_key(key: Key) -> (r: Option<Command>)
    ensures
        r == match key {
            Key::Escape | Key::Q => Some(Command::Exit),
            Key::J => Some(Command::NextImage),
            Key::K => Some(Command::PrevImage),
            Key::F => Some(Command::ToggleFullscreen),
            Key::M => Some(Command::ToggleStar),
            Key::X => Some(Command::ResetView),
            Key::R => Some(Command::Reload),
            _ => None::<Command>,
        },
{
    match key {
        Key::Escape | Key::Q => Some(Command::Exit),
        Key::J => Some(Command::NextImage),
        Key::K => Some(Command::PrevImage),
        Key::F => Some(Command::ToggleFullscreen),
        Key::M => Some(Command::ToggleStar),
        Key::X => Some(Command::ResetView),
        Key::R => Some(Command::Reload),
        _ => None,
    }
}

} // verus!
