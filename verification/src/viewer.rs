//! The keys of an image window: `G` switches between the grey and the normal
//! picture, `Q` or `Escape` closes the window.

use vstd::prelude::*;

verus! {

/// The keys the window reacts to.
#[derive(Clone, Copy, Debug, PartialEq, Eq)]
pub enum ViewerKey {
    Q,
    Escape,
    G,
    /// Any other key.
    Other,
}

/// What the window does after a key event.
#[derive(Clone, Copy, Debug, PartialEq, Eq)]
pub enum ViewerAction {
    /// Close the window.
    Quit,
    /// Show the grey picture (and print `to gray`).
    ShowGray,
    /// Show the normal picture (and print `to normal`).
    ShowNormal,
    /// Nothing.
    Ignore,
}

/// Whether the window shows the grey picture.
pub struct Viewer {
    gray: bool,
}

impl View for Viewer {
    type V = bool;

    closed spec fn view(&self) -> bool {
        self.gray
    }
}

/// The action for a key event, given whether the grey picture is shown.
pub open spec fn viewer_action(gray: bool, pressed: bool, key: Option<ViewerKey>) -> ViewerAction {
    if !pressed {
        ViewerAction::Ignore
    } else {
        match key {
            Some(ViewerKey::Q) | Some(ViewerKey::Escape) => ViewerAction::Quit,
            Some(ViewerKey::G) => if gray {
                ViewerAction::ShowNormal
            } else {
                ViewerAction::ShowGray
            },
            _ => ViewerAction::Ignore,
        }
    }
}

/// Whether the grey picture is shown after the key event.
pub open spec fn viewer_next(gray: bool, pressed: bool, key: Option<ViewerKey>) -> bool {
    if pressed && key == Some(ViewerKey::G) {
        !gray
    } else {
        gray
    }
}

impl Viewer {
    /// A window that shows the normal picture.
    pub fn new() -> (v: Viewer)
        ensures
            !v@,
    {
        Viewer { gray: false }
    }

    /// Whether the grey picture is shown.
    pub fn is_gray(&self) -> (g: bool)
        ensures
            g == self@,
    {
        self.gray
    }

    /// Reacts to a key event: a press of `Q` or `Escape` closes the window, a
    /// press of `G` switches the picture, anything else changes nothing.
    pub fn on_key(&mut self, pressed: bool, key: Option<ViewerKey>) -> (action: ViewerAction)
        ensures
            action == viewer_action(old(self)@, pressed, key),
            final(self)@ == viewer_next(old(self)@, pressed, key),
    {
        if !pressed {
            return ViewerAction::Ignore;
        }
        match key {
            Some(ViewerKey::Q) | Some(ViewerKey::Escape) => ViewerAction::Quit,
            Some(ViewerKey::G) => {
                self.gray = !self.gray;
                if self.gray {
                    ViewerAction::ShowGray
                } else {
                    ViewerAction::ShowNormal
                }
            },
            _ => ViewerAction::Ignore,
        }
    }
}

/// Pressing `G` twice brings back the picture that was shown before, and the
/// second press shows the picture that the first press replaced.
pub proof fn lemma_toggle_twice(gray: bool)
    ensures
        viewer_next(viewer_next(gray, true, Some(ViewerKey::G)), true, Some(ViewerKey::G)) == gray,
        viewer_action(gray, true, Some(ViewerKey::G)) == (if gray {
            ViewerAction::ShowNormal
        } else {
            ViewerAction::ShowGray
        }),
        viewer_action(viewer_next(gray, true, Some(ViewerKey::G)), true, Some(ViewerKey::G)) == (
        if gray {
            ViewerAction::ShowGray
        } else {
            ViewerAction::ShowNormal
        }),
{
}

} // verus!
