//! The picture behind all windows.
use vstd::prelude::*;

use crate::geometry::Size;

verus! {

/// The wallpaper that is shown where none was chosen.
pub const DEFAULT_WALLPAPER: &'static str = "/usr/share/wallpapers/HackerOS-Wallpapers/Wallpaper23.png";

/// A wallpaper: where its picture stands, and the texture of the picture once it is
/// loaded, an object of the renderer known by number.
#[derive(Debug)]
pub struct Wallpaper {
    pub path: String,
    pub texture: Option<u64>,
}

/// A wallpaper to be drawn, as large as the output.
#[derive(Debug, Clone, Copy, PartialEq, Eq, Structural)]
pub struct WallpaperElement {
    pub texture: u64,
    pub size: Size,
}

impl Wallpaper {
    /// A wallpaper that is not loaded yet.
    pub fn new(path: String) -> (r: Wallpaper)
        ensures
            r.path == path,
            r.texture is None,
    {
        Wallpaper { path, texture: None }
    }

    /// Takes what came of loading the picture: its texture, or none, so that nothing
    /// of an earlier one is shown.
    pub fn loaded(&mut self, texture: Option<u64>)
        ensures
            final(self).texture == texture,
            final(self).path == old(self).path,
    {
        self.texture = texture;
    }

    /// Takes another picture; the one that is shown stays until it is loaded.
    pub fn set_path(&mut self, path: String)
        ensures
            final(self).path == path,
            final(self).texture == old(self).texture,
    {
        self.path = path;
    }

    /// What is drawn on an output of a size; nothing where no picture is loaded.
    pub fn render_element(&self, output_size: Size) -> (r: Option<WallpaperElement>)
        ensures
            match self.texture {
                Some(texture) => r == Some(WallpaperElement { texture, size: output_size }),
                None => r is None,
            },
    {
        match self.texture {
            Some(texture) => Some(WallpaperElement { texture, size: output_size }),
            None => None,
        }
    }
}

} // verus!
