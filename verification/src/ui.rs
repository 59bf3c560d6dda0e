//! What the settings page shows.
use vstd::prelude::*;
use crate::settings::Settings;

verus! {

/// The data of the settings page: a flash message (its kind and text) and the settings.
pub struct Context<'a, 'b> {
    pub flash: Option<(&'a str, &'b str)>,
    pub settings: Settings,
}

impl<'a, 'b> Context<'a, 'b> {
    /// The page with the flash message `msg` and the current `settings`.
    pub fn raw(msg: Option<(&'a str, &'b str)>, settings: Settings) -> (c: Context<'a, 'b>)
        ensures
            c.flash == msg,
            c.settings == settings,
    {
        Context { flash: msg, settings }
    }
}

/// The flash message that the index page shows: the one that was left, or an error
/// "unknown error" when there is none.
pub fn flash_or_unknown<'a>(flash: Option<(&'a str, &'a str)>) -> (r: Option<(&'a str, &'a str)>)
    ensures
        flash is Some ==> r == flash,
        flash is None ==> (r matches Some((kind, text)) && kind@ == "error"@ && text@ == "unknown error"@),
{
    match flash {
        Some(m) => Some(m),
        None => Some(("error", "unknown error")),
    }
}

} // verus!
