//! The notice window: which text overlays the panes and in which style.
//! Rendering itself — layout, widgets, colors — lives outside the
//! library; this model holds only what the loop decides.

use vstd::prelude::*;
use vstd::string::StrSliceExecFns;

verus! {

/// How the notice text is styled.
#[derive(Debug, Clone, Copy, PartialEq, Eq, Structural)]
pub enum TextStyle {
    Standard,
    Flash,
    Error,
}

/// The notice shown over the panes, if any: its text and its style.
#[derive(Debug)]
pub struct UiWindow {
    pub text: Option<String>,
    pub style: Option<TextStyle>,
}

impl Default for UiWindow {
    /// At startup the window offers the help hint in the standard style.
    fn default() -> (r: UiWindow)
        ensures
            r.text matches Some(t) && t@ == "Press '?' to toggle help"@,
            r.style == Some(TextStyle::Standard),
    {
        let text = Some("Press '?' to toggle help".to_owned());
        let style = Some(TextStyle::Standard);
        UiWindow { text, style }
    }
}

impl UiWindow {
    /// Clear the notice.
    pub fn reset(&mut self)
        ensures
            final(self).text is None,
            final(self).style is None,
    {
        self.text = None;
        self.style = None;
    }

    /// Show an in-progress notice in the flashing style.
    pub fn flashing_text(&mut self, text: &str)
        ensures
            final(self).text matches Some(t) && t@ == text@,
            final(self).style == Some(TextStyle::Flash),
    {
        self.text = Some(text.to_owned());
        self.style = Some(TextStyle::Flash);
    }

    /// Show a failure notice in the error style.
    pub fn error_message(&mut self, text: &str)
        ensures
            final(self).text matches Some(t) && t@ == text@,
            final(self).style == Some(TextStyle::Error),
    {
        self.text = Some(text.to_owned());
        self.style = Some(TextStyle::Error);
    }
}

} // verus!
