use vstd::prelude::*;

pub mod directory_index;
pub mod frame;
pub mod image_cache;
pub mod paths;
pub mod playback_manager;

verus! {

/// The kinds of failure a load request can end in. All of them are
/// recoverable: a failed load leaves the previously displayed image intact.
#[derive(Clone, Debug)]
pub enum LoadError {
    /// The target path names no existing file.
    NotFound,
    /// The target file or its parent directory could not be read.
    Unreadable,
    /// The file exists and is readable but is not a valid image; carries the
    /// path and the decoder's description of the cause, for display.
    Decode { path: String, cause: String },
}

/// A decoded image: RGBA pixel data together with its dimensions.
pub struct ImageData {
    pub width: u32,
    pub height: u32,
    pub pixels: Vec<u8>,
}

/// The mathematical content of a decoded image.
pub ghost struct ImgView {
    pub width: int,
    pub height: int,
    pub pixels: Seq<u8>,
}

impl View for ImageData {
    type V = ImgView;

    open spec fn view(&self) -> ImgView {
        ImgView { width: self.width as int, height: self.height as int, pixels: self.pixels@ }
    }
}

impl ImageData {
    /// A decoded image holds exactly four bytes for each of its pixels.
    pub open spec fn wf(&self) -> bool {
        self.pixels@.len() == 4 * (self.width as int) * (self.height as int)
    }
}

} // verus!
