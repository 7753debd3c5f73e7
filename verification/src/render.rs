//! The plain data vocabulary shared with the render stage.
//!
//! The render stage consumes assets through typed handles and load events;
//! these are the value types its messages and configs carry that hold no
//! GPU state of their own.

use vstd::prelude::*;

verus! {

/// How a stroked line ends.
#[derive(Copy, Clone, Debug, Eq, PartialEq, Structural, Hash)]
pub enum LineCap {
    Butt,
    Square,
    Round,
}

/// How two stroked segments join.
#[derive(Copy, Clone, Debug, Eq, PartialEq, Structural, Hash)]
pub enum LineJoin {
    Miter,
    MiterClip,
    Round,
    Bevel,
}

/// Where text sits horizontally within its box.
#[derive(Debug, Copy, Clone, Eq, PartialEq, Structural, Hash)]
pub enum HorizontalAlignment {
    Left,
    Right,
    Center,
    Justified,
}

impl Default for HorizontalAlignment {
    /// Text centers unless told otherwise.
    fn default() -> (r: Self)
        ensures
            r == HorizontalAlignment::Center,
    {
        HorizontalAlignment::Center
    }
}

/// Where text sits vertically within its box.
#[derive(Debug, Copy, Clone, Eq, PartialEq, Structural, Hash)]
pub enum VerticalAlignment {
    Top,
    Center,
    Bottom,
}

impl Default for VerticalAlignment {
    /// Text centers unless told otherwise.
    fn default() -> (r: Self)
        ensures
            r == VerticalAlignment::Center,
    {
        VerticalAlignment::Center
    }
}

/// What a render buffer backs.
#[derive(Debug, Copy, Clone, Eq, PartialEq, Structural)]
pub enum BufferKind {
    Frame,
    Depth,
    Image,
}

/// How a sampled texture is filtered.
#[derive(Debug, Copy, Clone, Eq, PartialEq, Structural, Hash)]
pub enum FilterMode {
    Nearest,
    Linear,
}

impl Default for FilterMode {
    /// Linear filtering unless told otherwise.
    fn default() -> (r: Self)
        ensures
            r == FilterMode::Linear,
    {
        FilterMode::Linear
    }
}

/// What happened to a camera.
#[derive(Debug, Copy, Clone, Eq, PartialEq, Structural)]
pub enum CameraEventKind {
    Created,
    Modified,
    Dropped,
}

/// What happened to a canvas layer.
#[derive(Debug, Copy, Clone, Eq, PartialEq, Structural)]
pub enum CanvasLayerEventKind {
    Created,
    Dropped,
}

/// A frame finished drawing.
#[derive(Debug, Clone, Copy, PartialEq, Eq, Structural)]
pub struct DrawnEvent {
    pub frame: u64,
}

/// The display's pixel size changed.
#[derive(Debug, Clone, Copy)]
pub struct DisplayResizedEvent {
    pub size: [u32; 2],
}

} // verus!
