//! Layout of the one panel that the editor shows.

use vstd::prelude::*;

verus! {

/// How much of the screen the panel takes.
#[derive(Clone, Copy, Debug, PartialEq, Eq, Structural)]
pub enum LayoutMode {
    /// The whole screen.
    Full,
    /// The lower half of the screen.
    Half,
}

impl Default for LayoutMode {
    fn default() -> (res: Self)
        ensures
            res == LayoutMode::Half,
    {
        LayoutMode::Half
    }
}

/// Code of the key that, pressed with the control key, switches the layout mode.
pub const F_KEY: u32 = 70;

impl LayoutMode {
    /// The mode that a switch leads to: from half the screen to the whole of it, and back.
    pub fn switched(self) -> (res: LayoutMode)
        ensures
            res == match self {
                LayoutMode::Half => LayoutMode::Full,
                LayoutMode::Full => LayoutMode::Half,
            },
    {
        match self {
            LayoutMode::Half => LayoutMode::Full,
            LayoutMode::Full => LayoutMode::Half,
        }
    }
}

/// Whether a pressed key asks for a switch of the layout mode.
pub fn is_switch_shortcut(ctrl_key: bool, key_code: u32) -> (res: bool)
    ensures
        res == (ctrl_key && key_code == F_KEY),
{
    ctrl_key && key_code == F_KEY
}

/// The layout state of the view: the mode of its panel.
#[derive(Clone, Copy, Debug)]
pub struct ViewLayoutData {
    /// How much of the screen the panel takes.
    pub layout_mode: LayoutMode,
}

impl ViewLayoutData {
    /// The state of a view that was just made.
    pub fn new() -> (res: ViewLayoutData)
        ensures
            res.layout_mode == LayoutMode::Half,
    {
        ViewLayoutData { layout_mode: LayoutMode::Half }
    }

    /// Sets the layout mode.
    pub fn set_layout_mode(&mut self, layout_mode: LayoutMode)
        ensures
            final(self).layout_mode == layout_mode,
    {
        self.layout_mode = layout_mode;
    }

    /// Switches the layout mode between half the screen and the whole of it.
    pub fn switch_layout_mode(&mut self)
        ensures
            final(self).layout_mode == match old(self).layout_mode {
                LayoutMode::Half => LayoutMode::Full,
                LayoutMode::Full => LayoutMode::Half,
            },
    {
        let mode = self.layout_mode.switched();
        self.set_layout_mode(mode);
    }
}

/// Switching the layout mode twice leads back to the mode before.
pub proof fn lemma_switch_twice(mode: LayoutMode)
    ensures
        (match (match mode {
            LayoutMode::Half => LayoutMode::Full,
            LayoutMode::Full => LayoutMode::Half,
        }) {
            LayoutMode::Half => LayoutMode::Full,
            LayoutMode::Full => LayoutMode::Half,
        }) == mode,
{
}

} // verus!
