use vstd::prelude::*;
use crate::capture::CaptureRect;

verus! {

/// A picture to add to the image library.
pub struct SaveImagePayload {
    pub group: String,
    pub filename: String,
    pub data: Vec<u8>,
}

/// A page of an image library group.
pub struct GetImageListPayload {
    pub group: String,
    pub offset: usize,
    pub limit: usize,
}

/// The group whose pictures are counted.
pub struct GetImageCountPayload {
    pub group: String,
}

/// A picture to delete.
pub struct DeleteImagePayload {
    pub group: String,
    pub filename: String,
}

/// A picture to rename.
pub struct RenameImagePayload {
    pub group: String,
    pub old_filename: String,
    pub new_filename: String,
}

/// An image library group to create or update.
pub struct ImageGroupPayload {
    pub name: String,
    pub icon: String,
    pub color: String,
}

/// An image library group to rename.
pub struct RenameImageGroupPayload {
    pub old_name: String,
    pub new_name: String,
    pub icon: String,
    pub color: String,
}

/// A picture to move to another group.
pub struct MoveImagePayload {
    pub source_group: String,
    pub filename: String,
    pub target_group: String,
}

/// An image library group to delete.
pub struct DeleteImageGroupPayload {
    pub name: String,
    pub move_images_to_default: bool,
}

/// The region the user selected in the screenshot overlay.
#[derive(Debug, Clone, Copy, PartialEq, Eq, Structural)]
pub struct ScreenshotSelection {
    pub left: u32,
    pub top: u32,
    pub right: u32,
    pub bottom: u32,
    pub width: u32,
    pub height: u32,
}

impl ScreenshotSelection {
    /// The captured region: its left and top corner and its size.
    pub fn capture_rect(self) -> (r: CaptureRect)
        ensures
            r == (CaptureRect { left: self.left, top: self.top, width: self.width, height: self.height }),
    {
        CaptureRect { left: self.left, top: self.top, width: self.width, height: self.height }
    }
}

} // verus!
