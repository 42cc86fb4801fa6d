//! What the compositor tells its clients of windows, workspaces and outputs.
use vstd::prelude::*;

verus! {

#[derive(Debug, PartialEq, Eq)]
pub struct WindowSummary {
    pub id: u64,
    pub title: String,
    pub app_id: String,
    pub workspace: usize,
    pub is_fullscreen: bool,
    pub is_minimized: bool,
    pub is_floating: bool,
    pub is_maximized: bool,
    pub is_xwayland: bool,
}

impl Clone for WindowSummary {
    fn clone(&self) -> (r: WindowSummary)
        ensures
            r == *self,
    {
        WindowSummary {
            id: self.id,
            title: self.title.clone(),
            app_id: self.app_id.clone(),
            workspace: self.workspace,
            is_fullscreen: self.is_fullscreen,
            is_minimized: self.is_minimized,
            is_floating: self.is_floating,
            is_maximized: self.is_maximized,
            is_xwayland: self.is_xwayland,
        }
    }
}

#[derive(Debug, Clone, Copy, PartialEq, Eq, Structural)]
pub struct WorkspaceSummary {
    pub id: usize,
    pub window_count: usize,
    pub is_tiling: bool,
    pub is_active: bool,
}

/// An output. The scale is held by the bit pattern of a double.
#[derive(Debug, PartialEq, Eq)]
pub struct OutputSummary {
    pub name: String,
    pub x: i32,
    pub y: i32,
    pub width: i32,
    pub height: i32,
    pub refresh_mhz: i32,
    pub scale_bits: u64,
    pub is_primary: bool,
}

impl Clone for OutputSummary {
    fn clone(&self) -> (r: OutputSummary)
        ensures
            r == *self,
    {
        OutputSummary {
            name: self.name.clone(),
            x: self.x,
            y: self.y,
            width: self.width,
            height: self.height,
            refresh_mhz: self.refresh_mhz,
            scale_bits: self.scale_bits,
            is_primary: self.is_primary,
        }
    }
}

} // verus!
