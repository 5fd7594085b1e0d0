//! How a pass draws: depth test and face culling.
use vstd::prelude::*;

verus! {

/// What happens to fragments outside the depth range.
#[derive(Clone, Copy, PartialEq, Eq, Structural, Debug)]
pub enum DepthClamp {
    NoClamp,
    Clamp,
    ClampNear,
    ClampFar,
}

/// When a fragment passes the depth test.
#[derive(Clone, Copy, PartialEq, Eq, Structural, Debug)]
pub enum DepthTest {
    Ignore,
    Overwrite,
    IfEqual,
    IfNotEqual,
    IfMore,
    IfMoreOrEqual,
    IfLess,
    IfLessOrEqual,
}

/// Which faces are dropped.
#[derive(Clone, Copy, PartialEq, Eq, Structural, Debug)]
pub enum BackfaceCullingMode {
    CullingDisabled,
    CullCounterClockwise,
    CullClockwise,
}

/// Depth is written unless the configuration says otherwise.
pub fn t() -> (write: bool)
    ensures
        write,
{
    true
}

/// Depth is not clamped unless the configuration says otherwise.
pub fn clamp() -> (clamp: DepthClamp)
    ensures
        clamp == DepthClamp::NoClamp,
{
    DepthClamp::NoClamp
}

/// The nearer fragment wins unless the configuration says otherwise.
pub fn test() -> (test: DepthTest)
    ensures
        test == DepthTest::IfLess,
{
    DepthTest::IfLess
}

/// Counter-clockwise faces are dropped unless the configuration says
/// otherwise.
pub fn cull() -> (cull: BackfaceCullingMode)
    ensures
        cull == BackfaceCullingMode::CullCounterClockwise,
{
    BackfaceCullingMode::CullCounterClockwise
}

#[derive(Clone, Copy, PartialEq, Eq, Structural, Debug)]
pub struct Depth {
    pub compare: DepthTest,
    pub write: bool,
    pub clamp: DepthClamp,
}

impl Default for Depth {
    fn default() -> (depth: Self)
        ensures
            depth == (Depth {
                compare: DepthTest::IfLess,
                write: true,
                clamp: DepthClamp::NoClamp,
            }),
    {
        Depth { compare: test(), write: t(), clamp: clamp() }
    }
}

#[derive(Clone, Copy, PartialEq, Eq, Structural, Debug)]
pub struct Settings {
    pub depth: Depth,
    pub cull: BackfaceCullingMode,
}

impl Default for Settings {
    fn default() -> (settings: Self)
        ensures
            settings == (Settings {
                depth: Depth {
                    compare: DepthTest::IfLess,
                    write: true,
                    clamp: DepthClamp::NoClamp,
                },
                cull: BackfaceCullingMode::CullCounterClockwise,
            }),
    {
        Settings { depth: Depth::default(), cull: cull() }
    }
}

} // verus!
