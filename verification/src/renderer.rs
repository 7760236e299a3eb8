//! The interface of 3D-scene renderers that produce one frame per angle.

use vstd::prelude::*;
use crate::frame::Frame;

verus! {

/// Result of rendering a 3D scene to frames.
#[derive(Debug, Clone)]
pub struct RenderResult {
    /// One frame per angle step.
    pub frames: Vec<Frame>,
    /// Number of angle steps.
    pub num_steps: usize,
    /// Number of distinct LEDs lit across all frames.
    pub active_leds: usize,
}

/// A renderer of 3D models into frames, one per angle step.
pub trait FrameRenderer {
    type Error;

    /// Renders a model read from a file.
    fn render_file(&self, model_path: &str) -> Result<RenderResult, Self::Error>;

    /// Renders a model held in memory.
    fn render_bytes(&self, model_bytes: &[u8]) -> Result<RenderResult, Self::Error>;
}

/// Failures of the mesh renderer.
#[derive(Debug)]
pub enum BevyRenderError {
    /// The model could not be loaded; the loader's message.
    AssetLoadFailed(String),
    /// The scene has no triangles.
    NoGeometry,
    /// The animation could not be serialised.
    Postcard,
}

} // verus!
