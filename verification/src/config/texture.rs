//! Textures as the configuration describes them.
use vstd::prelude::*;

verus! {

/// The size of a texture that the scene creates: that of the viewport, which
/// it follows, or a fixed one.
#[derive(Clone, Copy, PartialEq, Eq, Structural, Debug)]
pub enum TextureSize {
    ViewPort,
    Size { width: u32, height: u32 },
}

impl Default for TextureSize {
    fn default() -> (size: Self)
        ensures
            size == TextureSize::ViewPort,
    {
        TextureSize::ViewPort
    }
}

impl TextureSize {
    /// Width and height in pixels, given those of the viewport.
    pub fn resolve(&self, viewport: (u32, u32)) -> (size: (u32, u32))
        ensures
            size == (match *self {
                TextureSize::ViewPort => viewport,
                TextureSize::Size { width, height } => (width, height),
            }),
    {
        match *self {
            TextureSize::ViewPort => viewport,
            TextureSize::Size { width, height } => (width, height),
        }
    }

    /// The texture has to be made anew when the viewport changes size.
    pub fn follows_viewport(&self) -> (follows: bool)
        ensures
            follows == (*self == TextureSize::ViewPort),
    {
        match *self {
            TextureSize::ViewPort => true,
            TextureSize::Size { .. } => false,
        }
    }
}

/// How texture coordinates outside the unit square are read.
#[derive(Clone, Copy, PartialEq, Eq, Structural, Debug)]
pub enum SamplerWrapFunctionDef {
    Repeat,
    Mirror,
    Clamp,
    BorderClamp,
    MirrorClamp,
}

/// How a texture is read when it is drawn smaller than it is.
#[derive(Clone, Copy, PartialEq, Eq, Structural, Debug)]
pub enum MinifySamplerFilterDef {
    Nearest,
    Linear,
    NearestMipmapNearest,
    LinearMipmapNearest,
    NearestMipmapLinear,
    LinearMipmapLinear,
}

/// How a texture is read when it is drawn larger than it is.
#[derive(Clone, Copy, PartialEq, Eq, Structural, Debug)]
pub enum MagnifySamplerFilterDef {
    Nearest,
    Linear,
}

/// The mipmaps of a texture: none, empty or generated, all levels or at most
/// so many.
#[derive(Clone, Copy, PartialEq, Eq, Structural, Debug)]
pub enum Mipmaps {
    NoMipmap,
    Empty,
    EmptyAmount(u32),
    Generate,
    GenerateAmount(u32),
}

impl Default for Mipmaps {
    fn default() -> (mipmaps: Self)
        ensures
            mipmaps == Mipmaps::NoMipmap,
    {
        Mipmaps::NoMipmap
    }
}

impl Mipmaps {
    /// The texture has levels besides the first.
    pub fn has_levels(&self) -> (has: bool)
        ensures
            has == (*self != Mipmaps::NoMipmap),
    {
        match *self {
            Mipmaps::NoMipmap => false,
            _ => true,
        }
    }

    /// The most levels the texture may have, where the configuration sets a
    /// limit.
    pub fn limit(&self) -> (limit: Option<u32>)
        ensures
            limit == (match *self {
                Mipmaps::EmptyAmount(n) => Some(n),
                Mipmaps::GenerateAmount(n) => Some(n),
                _ => None,
            }),
    {
        match *self {
            Mipmaps::EmptyAmount(n) => Some(n),
            Mipmaps::GenerateAmount(n) => Some(n),
            _ => None,
        }
    }
}

/// The format of a colour texture's texels.
#[derive(Clone, Copy, PartialEq, Eq, Structural, Debug)]
pub enum UncompressedFloatFormatDef {
    U8,
    I8,
    U16,
    I16,
    U8U8,
    I8I8,
    U16U16,
    I16I16,
    U3U3U2,
    U4U4U4,
    U5U5U5,
    U8U8U8,
    I8I8I8,
    U10U10U10,
    U12U12U12,
    U16U16U16,
    I16I16I16,
    U2U2U2U2,
    U4U4U4U4,
    U5U5U5U1,
    U8U8U8U8,
    I8I8I8I8,
    U10U10U10U2,
    U12U12U12U12,
    U16U16U16U16,
    I16I16I16I16,
    F16,
    F16F16,
    F16F16F16,
    F16F16F16F16,
    F32,
    F32F32,
    F32F32F32,
    F32F32F32F32,
    F11F11F10,
    F9F9F9,
}

/// The format of a depth texture's texels.
#[derive(Clone, Copy, PartialEq, Eq, Structural, Debug)]
pub enum DepthFormatDef {
    I16,
    I24,
    I32,
    F32,
}

/// Colour textures hold four 32-bit floats per texel unless the
/// configuration says otherwise.
pub fn text_format() -> (format: UncompressedFloatFormatDef)
    ensures
        format == UncompressedFloatFormatDef::F32F32F32F32,
{
    UncompressedFloatFormatDef::F32F32F32F32
}

/// Depth textures hold one 32-bit float per texel unless the configuration
/// says otherwise.
pub fn depth_format() -> (format: DepthFormatDef)
    ensures
        format == DepthFormatDef::F32,
{
    DepthFormatDef::F32
}

pub fn wrap() -> (wrap: SamplerWrapFunctionDef)
    ensures
        wrap == SamplerWrapFunctionDef::Repeat,
{
    SamplerWrapFunctionDef::Repeat
}

pub fn minify_filter() -> (filter: MinifySamplerFilterDef)
    ensures
        filter == MinifySamplerFilterDef::Linear,
{
    MinifySamplerFilterDef::Linear
}

pub fn magnify_filter() -> (filter: MagnifySamplerFilterDef)
    ensures
        filter == MagnifySamplerFilterDef::Linear,
{
    MagnifySamplerFilterDef::Linear
}

/// A colour texture without content, to draw into.
#[derive(Clone, Copy, PartialEq, Eq, Structural, Debug)]
pub struct EmptyTexture {
    pub size: TextureSize,
    pub format: UncompressedFloatFormatDef,
}

/// A depth texture, to draw into.
#[derive(Clone, Copy, PartialEq, Eq, Structural, Debug)]
pub struct DepthTexture {
    pub size: TextureSize,
    pub format: DepthFormatDef,
}

/// Where the content of a texture comes from.
#[derive(Debug)]
pub enum TextureKind {
    /// An image file, by its path.
    File(String),
    Empty(EmptyTexture),
    Depth(DepthTexture),
}

/// What a texture can be attached as.
#[derive(Clone, Copy, PartialEq, Eq, Structural, Debug)]
pub enum TextureClass {
    Color,
    Depth,
}

impl TextureKind {
    /// A depth texture can only be a depth attachment, any other only a
    /// colour attachment.
    pub fn class(&self) -> (class: TextureClass)
        ensures
            class == (if *self is Depth {
                TextureClass::Depth
            } else {
                TextureClass::Color
            }),
    {
        match self {
            TextureKind::Depth(_) => TextureClass::Depth,
            _ => TextureClass::Color,
        }
    }

    /// The size that the configuration gives the texture; none for an image
    /// file, which has the size of the image.
    pub open spec fn declared_size(self) -> Option<TextureSize> {
        match self {
            TextureKind::File(_) => None,
            TextureKind::Empty(e) => Some(e.size),
            TextureKind::Depth(d) => Some(d.size),
        }
    }

    /// As `declared_size` says.
    pub fn size(&self) -> (size: Option<TextureSize>)
        ensures
            size == self.declared_size(),
    {
        match self {
            TextureKind::File(_) => None,
            TextureKind::Empty(e) => Some(e.size),
            TextureKind::Depth(d) => Some(d.size),
        }
    }

    /// The texture has to be made anew when the viewport changes size: it is
    /// created by the scene, at the size of the viewport.
    pub fn follows_viewport(&self) -> (follows: bool)
        ensures
            follows == (self.declared_size() == Some(TextureSize::ViewPort)),
    {
        match self.size() {
            Some(size) => size.follows_viewport(),
            None => false,
        }
    }
}

/// A texture of the scene.
#[derive(Debug)]
pub struct Texture {
    pub name: String,
    pub kind: TextureKind,
    pub wrap: SamplerWrapFunctionDef,
    pub minify_filter: MinifySamplerFilterDef,
    pub magnify_filter: MagnifySamplerFilterDef,
    pub anisotropy: Option<u16>,
    pub mipmaps: Mipmaps,
}

impl Texture {
    /// A texture of that name and kind, with every setting at its default.
    pub fn new(name: String, kind: TextureKind) -> (texture: Self)
        ensures
            texture.name == name,
            texture.kind == kind,
            texture.wrap == SamplerWrapFunctionDef::Repeat,
            texture.minify_filter == MinifySamplerFilterDef::Linear,
            texture.magnify_filter == MagnifySamplerFilterDef::Linear,
            texture.anisotropy is None,
            texture.mipmaps == Mipmaps::NoMipmap,
    {
        Texture {
            name,
            kind,
            wrap: wrap(),
            minify_filter: minify_filter(),
            magnify_filter: magnify_filter(),
            anisotropy: None,
            mipmaps: Mipmaps::default(),
        }
    }
}

} // verus!
