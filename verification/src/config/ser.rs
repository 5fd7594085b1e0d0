//! Passes, targets and cameras as the configuration describes them.
use super::settings::Settings;
use vstd::prelude::*;

verus! {

/// A texture as a pass refers to it: by its name, or by its name and the name
/// under which the shader knows it.
#[derive(Debug)]
pub enum TextureRef {
    Name(String),
    Renamed { name: String, alias: String },
}

impl TextureRef {
    /// The name of the texture in the configuration.
    pub open spec fn texture(self) -> Seq<char> {
        match self {
            TextureRef::Name(name) => name@,
            TextureRef::Renamed { name, .. } => name@,
        }
    }

    /// The name under which the shader knows the texture.
    pub open spec fn binding(self) -> Seq<char> {
        match self {
            TextureRef::Name(name) => name@,
            TextureRef::Renamed { alias, .. } => alias@,
        }
    }

    /// The name of the texture in the configuration.
    pub fn name(&self) -> (name: &String)
        ensures
            name@ == self.texture(),
    {
        match self {
            TextureRef::Name(name) => name,
            TextureRef::Renamed { name, .. } => name,
        }
    }

    /// The name under which the shader knows the texture.
    pub fn bound_as(&self) -> (name: &String)
        ensures
            name@ == self.binding(),
    {
        match self {
            TextureRef::Name(name) => name,
            TextureRef::Renamed { alias, .. } => alias,
        }
    }
}

/// The textures a pass draws into.
#[derive(Debug)]
pub struct PassTargetBuffer {
    pub color: Vec<TextureRef>,
    pub depth: Option<String>,
}

/// Where a pass draws: the frame on screen, or textures.
#[derive(Debug)]
pub enum PassTarget {
    Frame,
    Buffer(PassTargetBuffer),
}

impl Default for PassTarget {
    fn default() -> (target: Self)
        ensures
            target is Frame,
    {
        PassTarget::Frame
    }
}

/// One pass of the scene.
#[derive(Debug)]
pub struct Pass {
    pub vertex_shader: String,
    pub fragment_shader: String,
    pub objects: Vec<String>,
    pub textures: Vec<TextureRef>,
    pub target: PassTarget,
    pub settings: Settings,
}

/// How the camera moves.
#[derive(Clone, Copy, PartialEq, Eq, Structural, Debug)]
pub enum CameraType {
    Orbital,
    Fps,
}

impl Default for CameraType {
    fn default() -> (camera: Self)
        ensures
            camera == CameraType::Orbital,
    {
        CameraType::Orbital
    }
}

/// What a mouse click asks of the window: to capture the pointer, or to let
/// it go.
#[derive(Clone, Copy, PartialEq, Eq, Structural, Debug)]
pub enum CaptureMouse {
    Capture,
    Release,
}

/// What the left mouse button does to a camera that is dragged around its
/// centre: the press starts the drag and captures the pointer, the release
/// ends it and lets the pointer go. Other buttons do nothing.
pub fn orbital_click(left_button: bool, pressed: bool, dragging: bool) -> (r: (
    bool,
    Option<CaptureMouse>,
))
    ensures
        r == (if left_button {
            (
                pressed,
                Some(
                    if pressed {
                        CaptureMouse::Capture
                    } else {
                        CaptureMouse::Release
                    },
                ),
            )
        } else {
            (dragging, None)
        }),
{
    if left_button && !pressed {
        return (false, Some(CaptureMouse::Release));
    }
    if left_button && pressed {
        return (true, Some(CaptureMouse::Capture));
    }
    (dragging, None)
}

} // verus!
