//! The uniforms of a pass: what a shader asks for, and what the scene binds
//! to it.
use vstd::prelude::*;

verus! {

/// The type of a uniform, as far as the scene can bind a value to it.
#[derive(Clone, Copy, PartialEq, Eq, Structural, Debug)]
pub enum UniformType {
    Float,
    FloatVec2,
    FloatVec3,
    FloatVec4,
    FloatMat4,
    /// A type the scene has no value for.
    Other,
}

/// The values that the scene itself provides.
#[derive(Clone, Copy, PartialEq, Eq, Structural, Debug)]
pub enum BuiltinUniform {
    Model,
    View,
    Perspective,
    Time,
    MouseX,
    MouseY,
    MousePos,
    WindowWidth,
    WindowHeight,
    WindowSize,
}

impl BuiltinUniform {
    /// The text of `label`.
    pub open spec fn label_text(self) -> Seq<char> {
        match self {
            BuiltinUniform::Model => "Model"@,
            BuiltinUniform::View => "View"@,
            BuiltinUniform::Perspective => "Perspective"@,
            BuiltinUniform::Time => "Time"@,
            BuiltinUniform::MouseX => "Mouse X"@,
            BuiltinUniform::MouseY => "Mouse Y"@,
            BuiltinUniform::MousePos => "Mouse Position"@,
            BuiltinUniform::WindowWidth => "Window Width"@,
            BuiltinUniform::WindowHeight => "Window Height"@,
            BuiltinUniform::WindowSize => "Window Size"@,
        }
    }

    /// The name under which the user interface offers the value.
    pub fn label(&self) -> (label: &'static str)
        ensures
            label@ == self.label_text(),
    {
        match *self {
            BuiltinUniform::Model => "Model",
            BuiltinUniform::View => "View",
            BuiltinUniform::Perspective => "Perspective",
            BuiltinUniform::Time => "Time",
            BuiltinUniform::MouseX => "Mouse X",
            BuiltinUniform::MouseY => "Mouse Y",
            BuiltinUniform::MousePos => "Mouse Position",
            BuiltinUniform::WindowWidth => "Window Width",
            BuiltinUniform::WindowHeight => "Window Height",
            BuiltinUniform::WindowSize => "Window Size",
        }
    }

    /// The type of the value.
    pub open spec fn uniform_type(self) -> UniformType {
        match self {
            BuiltinUniform::Time => UniformType::Float,
            BuiltinUniform::MouseX => UniformType::Float,
            BuiltinUniform::MouseY => UniformType::Float,
            BuiltinUniform::WindowWidth => UniformType::Float,
            BuiltinUniform::WindowHeight => UniformType::Float,
            BuiltinUniform::MousePos => UniformType::FloatVec2,
            BuiltinUniform::WindowSize => UniformType::FloatVec2,
            BuiltinUniform::Model => UniformType::FloatMat4,
            BuiltinUniform::View => UniformType::FloatMat4,
            BuiltinUniform::Perspective => UniformType::FloatMat4,
        }
    }

    /// The values on offer for a uniform of type `ty`, in the order in which
    /// they are offered.
    pub open spec fn valid_for(ty: UniformType) -> Seq<BuiltinUniform> {
        match ty {
            UniformType::Float => seq![
                BuiltinUniform::Time,
                BuiltinUniform::MouseX,
                BuiltinUniform::MouseY,
                BuiltinUniform::WindowWidth,
                BuiltinUniform::WindowHeight,
            ],
            UniformType::FloatVec2 => seq![BuiltinUniform::MousePos, BuiltinUniform::WindowSize],
            UniformType::FloatMat4 => seq![
                BuiltinUniform::Model,
                BuiltinUniform::View,
                BuiltinUniform::Perspective,
            ],
            _ => Seq::empty(),
        }
    }

    pub fn valid_for_uniform_type(ty: UniformType) -> (valid: Vec<BuiltinUniform>)
        ensures
            valid@ == Self::valid_for(ty),
    {
        let valid = match ty {
            UniformType::Float => vec![
                BuiltinUniform::Time,
                BuiltinUniform::MouseX,
                BuiltinUniform::MouseY,
                BuiltinUniform::WindowWidth,
                BuiltinUniform::WindowHeight,
            ],
            UniformType::FloatVec2 => vec![BuiltinUniform::MousePos, BuiltinUniform::WindowSize],
            UniformType::FloatMat4 => vec![
                BuiltinUniform::Model,
                BuiltinUniform::View,
                BuiltinUniform::Perspective,
            ],
            _ => Vec::new(),
        };
        assert(valid@ =~= Self::valid_for(ty));
        valid
    }

    /// A value is on offer for a type exactly where it is of that type.
    pub proof fn lemma_valid_for(self, ty: UniformType)
        ensures
            Self::valid_for(ty).contains(self) <==> self.uniform_type() == ty,
    {
        let valid = Self::valid_for(ty);
        if self.uniform_type() == ty {
            match self {
                BuiltinUniform::Time => assert(valid[0] == self),
                BuiltinUniform::MouseX => assert(valid[1] == self),
                BuiltinUniform::MouseY => assert(valid[2] == self),
                BuiltinUniform::WindowWidth => assert(valid[3] == self),
                BuiltinUniform::WindowHeight => assert(valid[4] == self),
                BuiltinUniform::MousePos => assert(valid[0] == self),
                BuiltinUniform::WindowSize => assert(valid[1] == self),
                BuiltinUniform::Model => assert(valid[0] == self),
                BuiltinUniform::View => assert(valid[1] == self),
                BuiltinUniform::Perspective => assert(valid[2] == self),
            }
        }
    }
}

/// The shape of a value that the configuration itself gives a uniform.
#[derive(Clone, Copy, PartialEq, Eq, Structural, Debug)]
pub enum CustomKind {
    Mat4,
    Vec4,
    Vec3,
    Vec2,
    Float,
}

/// A value of the configuration does not fit the uniform it is given to.
#[derive(Clone, Copy, PartialEq, Eq, Structural, Debug)]
pub struct Mismatch {
    pub found: CustomKind,
    pub expected: UniformType,
}

impl CustomKind {
    /// The type of the uniforms that take a value of this shape.
    pub open spec fn uniform_type(self) -> UniformType {
        match self {
            CustomKind::Mat4 => UniformType::FloatMat4,
            CustomKind::Vec4 => UniformType::FloatVec4,
            CustomKind::Vec3 => UniformType::FloatVec3,
            CustomKind::Vec2 => UniformType::FloatVec2,
            CustomKind::Float => UniformType::Float,
        }
    }

    /// The shape of the values that a uniform of type `kind` takes, if the
    /// configuration can give it one.
    pub fn from_uniform_type(kind: UniformType) -> (shape: Option<Self>)
        ensures
            match shape {
                Some(shape) => shape.uniform_type() == kind,
                None => kind == UniformType::Other,
            },
    {
        match kind {
            UniformType::FloatMat4 => Some(CustomKind::Mat4),
            UniformType::FloatVec4 => Some(CustomKind::Vec4),
            UniformType::FloatVec3 => Some(CustomKind::Vec3),
            UniformType::FloatVec2 => Some(CustomKind::Vec2),
            UniformType::Float => Some(CustomKind::Float),
            UniformType::Other => None,
        }
    }

    /// A value of this shape fits a uniform of type `kind` only where that is
    /// the type of the shape.
    pub fn ensure_compatible(&self, kind: UniformType) -> (r: Result<(), Mismatch>)
        ensures
            r == (if self.uniform_type() == kind {
                Ok::<(), Mismatch>(())
            } else {
                Err::<(), Mismatch>(Mismatch { found: *self, expected: kind })
            }),
    {
        let fits = match *self {
            CustomKind::Mat4 => kind == UniformType::FloatMat4,
            CustomKind::Vec4 => kind == UniformType::FloatVec4,
            CustomKind::Vec3 => kind == UniformType::FloatVec3,
            CustomKind::Vec2 => kind == UniformType::FloatVec2,
            CustomKind::Float => kind == UniformType::Float,
        };
        if fits {
            Ok(())
        } else {
            Err(Mismatch { found: *self, expected: kind })
        }
    }
}

/// What a uniform is bound to.
#[derive(Clone, Copy, PartialEq, Eq, Structural, Debug)]
pub enum UniformBinding {
    Builtin(BuiltinUniform),
    Custom(CustomKind),
    Unbound,
}

impl UniformBinding {
    /// The binding gives a uniform of type `ty` a value of that type, or
    /// none.
    pub open spec fn fits(self, ty: UniformType) -> bool {
        match self {
            UniformBinding::Builtin(b) => b.uniform_type() == ty,
            UniformBinding::Custom(c) => c.uniform_type() == ty,
            UniformBinding::Unbound => true,
        }
    }
}

/// Whether two strings hold the same characters; `str::eq`, of which the
/// contract claims just that.
#[verifier::external_body]
pub(crate) fn str_eq(a: &str, b: &str) -> (eq: bool)
    ensures
        eq == (a@ == b@),
{
    a == b
}

/// The value that a uniform gets by its name alone: the scene's own value of
/// that name, where the uniform has the type of that value.
pub open spec fn binding_by_name(name: Seq<char>, ty: UniformType) -> UniformBinding {
    if name == "view"@ && ty == UniformType::FloatMat4 {
        UniformBinding::Builtin(BuiltinUniform::View)
    } else if name == "projection"@ && ty == UniformType::FloatMat4 {
        UniformBinding::Builtin(BuiltinUniform::Perspective)
    } else if name == "model"@ && ty == UniformType::FloatMat4 {
        UniformBinding::Builtin(BuiltinUniform::Model)
    } else if name == "time"@ && ty == UniformType::Float {
        UniformBinding::Builtin(BuiltinUniform::Time)
    } else if name == "mouse_x"@ && ty == UniformType::Float {
        UniformBinding::Builtin(BuiltinUniform::MouseX)
    } else if name == "mouse_y"@ && ty == UniformType::Float {
        UniformBinding::Builtin(BuiltinUniform::MouseY)
    } else if name == "window_width"@ && ty == UniformType::Float {
        UniformBinding::Builtin(BuiltinUniform::WindowWidth)
    } else if name == "window_height"@ && ty == UniformType::Float {
        UniformBinding::Builtin(BuiltinUniform::WindowHeight)
    } else if name == "mouse_pos"@ && ty == UniformType::FloatVec2 {
        UniformBinding::Builtin(BuiltinUniform::MousePos)
    } else if name == "window_size"@ && ty == UniformType::FloatVec2 {
        UniformBinding::Builtin(BuiltinUniform::WindowSize)
    } else {
        UniformBinding::Unbound
    }
}

/// The binding that a uniform of that name and type starts with.
pub fn from_name_uniform(name: &str, ty: UniformType) -> (binding: UniformBinding)
    ensures
        binding == binding_by_name(name@, ty),
{
    match ty {
        UniformType::FloatMat4 => {
            if str_eq(name, "view") {
                UniformBinding::Builtin(BuiltinUniform::View)
            } else if str_eq(name, "projection") {
                UniformBinding::Builtin(BuiltinUniform::Perspective)
            } else if str_eq(name, "model") {
                UniformBinding::Builtin(BuiltinUniform::Model)
            } else {
                UniformBinding::Unbound
            }
        },
        UniformType::Float => {
            if str_eq(name, "time") {
                UniformBinding::Builtin(BuiltinUniform::Time)
            } else if str_eq(name, "mouse_x") {
                UniformBinding::Builtin(BuiltinUniform::MouseX)
            } else if str_eq(name, "mouse_y") {
                UniformBinding::Builtin(BuiltinUniform::MouseY)
            } else if str_eq(name, "window_width") {
                UniformBinding::Builtin(BuiltinUniform::WindowWidth)
            } else if str_eq(name, "window_height") {
                UniformBinding::Builtin(BuiltinUniform::WindowHeight)
            } else {
                UniformBinding::Unbound
            }
        },
        UniformType::FloatVec2 => {
            if str_eq(name, "mouse_pos") {
                UniformBinding::Builtin(BuiltinUniform::MousePos)
            } else if str_eq(name, "window_size") {
                UniformBinding::Builtin(BuiltinUniform::WindowSize)
            } else {
                UniformBinding::Unbound
            }
        },
        _ => UniformBinding::Unbound,
    }
}

/// The binding that a uniform starts with gives it a value of its own type.
pub proof fn lemma_binding_by_name_fits(name: Seq<char>, ty: UniformType)
    ensures
        binding_by_name(name, ty).fits(ty),
{
}

/// The vertex attributes that the scene's geometry provides.
pub open spec fn is_attribute(name: Seq<char>) -> bool {
    name == "position"@ || name == "normal"@ || name == "tex_coord"@
}

/// A shader may use the attribute `name`.
pub fn valid_attribute(name: &str) -> (valid: bool)
    ensures
        valid == is_attribute(name@),
{
    str_eq(name, "position") || str_eq(name, "normal") || str_eq(name, "tex_coord")
}

/// The kinds of binding that the user interface lets the user pick.
#[derive(Clone, Copy, PartialEq, Eq, Structural, Debug)]
pub enum BindChoice {
    Unbound,
    Custom,
    Builtin,
}

impl BindChoice {
    pub open spec fn label_text(self) -> Seq<char> {
        match self {
            BindChoice::Custom => "Custom"@,
            BindChoice::Builtin => "Builtin"@,
            BindChoice::Unbound => "Unbound"@,
        }
    }

    pub fn label(&self) -> (label: &'static str)
        ensures
            label@ == self.label_text(),
    {
        match *self {
            BindChoice::Custom => "Custom",
            BindChoice::Builtin => "Builtin",
            BindChoice::Unbound => "Unbound",
        }
    }

    /// The kind of a binding.
    pub open spec fn kind_of(binding: UniformBinding) -> Self {
        match binding {
            UniformBinding::Custom(_) => BindChoice::Custom,
            UniformBinding::Builtin(_) => BindChoice::Builtin,
            UniformBinding::Unbound => BindChoice::Unbound,
        }
    }

    /// The kind of a binding.
    pub fn from_binding(binding: &UniformBinding) -> (choice: Self)
        ensures
            choice == Self::kind_of(*binding),
    {
        match *binding {
            UniformBinding::Custom(_) => BindChoice::Custom,
            UniformBinding::Builtin(_) => BindChoice::Builtin,
            UniformBinding::Unbound => BindChoice::Unbound,
        }
    }

    /// The choice is on offer for a uniform of type `ty`: there is a value of
    /// that kind for it.
    pub open spec fn offered_for(self, ty: UniformType) -> bool {
        match self {
            BindChoice::Unbound => true,
            BindChoice::Custom => ty != UniformType::Other,
            BindChoice::Builtin => BuiltinUniform::valid_for(ty).len() > 0,
        }
    }

    /// As `offered_for` says.
    pub fn is_offered(&self, ty: UniformType) -> (offered: bool)
        ensures
            offered == self.offered_for(ty),
    {
        match *self {
            BindChoice::Unbound => true,
            BindChoice::Custom => CustomKind::from_uniform_type(ty).is_some(),
            BindChoice::Builtin => BuiltinUniform::valid_for_uniform_type(ty).len() > 0,
        }
    }

    /// The binding that a uniform of type `ty` gets when the user picks this
    /// kind: a value of the configuration of the right shape, or the first of
    /// the scene's own values on offer.
    pub fn into_binding(self, ty: UniformType) -> (binding: UniformBinding)
        requires
            self.offered_for(ty),
        ensures
            binding == (match self {
                BindChoice::Unbound => UniformBinding::Unbound,
                BindChoice::Builtin => UniformBinding::Builtin(BuiltinUniform::valid_for(ty)[0]),
                BindChoice::Custom => UniformBinding::Custom(
                    match ty {
                        UniformType::FloatMat4 => CustomKind::Mat4,
                        UniformType::FloatVec4 => CustomKind::Vec4,
                        UniformType::FloatVec3 => CustomKind::Vec3,
                        UniformType::FloatVec2 => CustomKind::Vec2,
                        _ => CustomKind::Float,
                    },
                ),
            }),
            binding.fits(ty),
            Self::kind_of(binding) == self,
    {
        match self {
            BindChoice::Custom => match CustomKind::from_uniform_type(ty) {
                Some(shape) => UniformBinding::Custom(shape),
                None => UniformBinding::Unbound,
            },
            BindChoice::Builtin => {
                let valid = BuiltinUniform::valid_for_uniform_type(ty);
                proof {
                    valid[0].lemma_valid_for(ty);
                }
                UniformBinding::Builtin(valid[0])
            },
            BindChoice::Unbound => UniformBinding::Unbound,
        }
    }
}

} // verus!
