//! Text controller: what a text editor is told of the file that it shows.

use vstd::prelude::*;
use crate::controller::module::Notification as ModuleNotification;

verus! {

/// What a text editor is told of the content of its file.
#[derive(Clone, Copy, Debug, PartialEq, Eq, Structural)]
pub enum Notification {
    /// The content should be read again as a whole.
    Invalidate,
}

/// What a text editor is told when the module of its file tells something: that the code
/// changed, however it did, asks for a new reading; a change of metadata is nothing to a
/// text editor.
pub fn map_module_notification(notification: ModuleNotification) -> (res: Option<Notification>)
    ensures
        res == match notification {
            ModuleNotification::Invalidate => Some(Notification::Invalidate),
            ModuleNotification::CodeChanged => Some(Notification::Invalidate),
            ModuleNotification::MetadataChanged => None,
        },
{
    match notification {
        ModuleNotification::Invalidate => Some(Notification::Invalidate),
        ModuleNotification::CodeChanged => Some(Notification::Invalidate),
        ModuleNotification::MetadataChanged => None,
    }
}

} // verus!
