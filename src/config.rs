use vstd::prelude::*;

verus! {

/// Geometry of the framebuffer the console draws on.
#[derive(Debug, Clone, Copy)]
pub struct FramebufferConfig {
    /// Address of the display memory that the host copies the pixels to.
    pub base_addr: usize,
    pub width: usize,
    pub height: usize,
    /// Target font height in pixels (e.g. 16 for 16x16 characters); 0 means 8.
    pub font_height: usize,
}

} // verus!
