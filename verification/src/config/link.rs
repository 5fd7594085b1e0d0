//! Linking: from the names that a pass uses to the objects and textures that
//! the configuration declares.
use super::pass::str_eq;
use super::ser::{PassTarget, TextureRef};
use super::texture::TextureClass;
use vstd::prelude::*;

verus! {

/// A name that a pass uses is not declared.
#[derive(Debug)]
pub enum LinkError {
    MissingObject(String),
    MissingTexture(String),
}

/// The textures a pass draws into, linked: each colour attachment by the
/// index of its texture and the name of the shader's output, the depth
/// attachment by the index of its texture.
#[derive(Debug)]
pub struct LoadedTarget {
    pub color: Vec<(usize, String)>,
    pub depth: Option<usize>,
}

/// The index that `name` stands for among the declared names: that of the
/// last declaration of the name, for a later declaration replaces an earlier
/// one.
pub open spec fn declared(names: Seq<String>, name: Seq<char>) -> Option<int>
    decreases names.len(),
{
    if names.len() == 0 {
        None
    } else if names.last()@ == name {
        Some(names.len() - 1)
    } else {
        declared(names.drop_last(), name)
    }
}

/// A name that is declared stands for the index of a declaration of it, and
/// no later declaration has the name.
pub proof fn lemma_declared(names: Seq<String>, name: Seq<char>)
    ensures
        match declared(names, name) {
            Some(i) => 0 <= i < names.len() && names[i]@ == name && forall|j: int|
                i < j < names.len() ==> names[j]@ != name,
            None => forall|j: int| 0 <= j < names.len() ==> names[j]@ != name,
        },
    decreases names.len(),
{
    if names.len() > 0 && names.last()@ != name {
        let rest = names.drop_last();
        lemma_declared(rest, name);
        match declared(rest, name) {
            Some(i) => {
                assert(rest[i] == names[i]);
                assert forall|j: int| i < j < names.len() implies names[j]@ != name by {
                    if j < rest.len() {
                        assert(rest[j] == names[j]);
                    }
                }
            },
            None => {
                assert forall|j: int| 0 <= j < names.len() implies names[j]@ != name by {
                    if j < rest.len() {
                        assert(rest[j] == names[j]);
                    }
                }
            },
        }
    }
}

/// The index that `name` stands for, as `declared` says.
pub fn index_of(names: &Vec<String>, name: &str) -> (index: Option<usize>)
    ensures
        match index {
            Some(i) => declared(names@, name@) == Some(i as int),
            None => declared(names@, name@) is None,
        },
{
    let mut i: usize = names.len();
    assert(names@.take(i as int) =~= names@);
    while i > 0
        invariant
            0 <= i <= names.len(),
            declared(names@, name@) == declared(names@.take(i as int), name@),
        decreases i,
    {
        i = i - 1;
        assert(names@.take(i as int + 1).drop_last() =~= names@.take(i as int));
        if str_eq(names[i].as_str(), name) {
            return Some(i);
        }
    }
    None
}

/// What a reference to a texture links to: the index of the texture and the
/// name under which the shader knows it.
pub open spec fn linked(texture: TextureRef, names: Seq<String>) -> Option<(int, Seq<char>)> {
    match declared(names, texture.texture()) {
        Some(i) => Some((i, texture.binding())),
        None => None,
    }
}

/// Links one reference to a texture, as `linked` says; a texture that is not
/// declared is reported by its name.
pub fn link_texture(texture: &TextureRef, texture_names: &Vec<String>) -> (r: Result<
    (usize, String),
    LinkError,
>)
    ensures
        match r {
            Ok((index, binding)) => linked(*texture, texture_names@) == Some(
                (index as int, binding@),
            ),
            Err(LinkError::MissingTexture(name)) => linked(*texture, texture_names@) is None
                && name@ == texture.texture(),
            Err(LinkError::MissingObject(_)) => false,
        },
{
    match index_of(texture_names, texture.name().as_str()) {
        Some(index) => Ok((index, texture.bound_as().clone())),
        None => Err(LinkError::MissingTexture(texture.name().clone())),
    }
}

/// Every name up to `upto` is declared.
pub open spec fn all_declared(used: Seq<String>, names: Seq<String>, upto: int) -> bool {
    forall|k: int| 0 <= k < upto ==> declared(names, (#[trigger] used[k])@) is Some
}

/// Links the objects of a pass: each name to the index of its declaration,
/// in the order of the pass. The first name that is not declared is
/// reported.
pub fn link_objects(objects: &Vec<String>, object_names: &Vec<String>) -> (r: Result<
    Vec<usize>,
    LinkError,
>)
    ensures
        match r {
            Ok(linked) => linked@.len() == objects@.len() && forall|k: int|
                0 <= k < objects@.len() ==> declared(object_names@, objects@[k]@) == Some(
                    (#[trigger] linked@[k]) as int,
                ),
            Err(LinkError::MissingObject(name)) => exists|k: int|
                0 <= k < objects@.len() && all_declared(objects@, object_names@, k) && declared(
                    object_names@,
                    (#[trigger] objects@[k])@,
                ) is None && name@ == objects@[k]@,
            Err(LinkError::MissingTexture(_)) => false,
        },
{
    let mut linked: Vec<usize> = Vec::new();
    let mut k: usize = 0;
    while k < objects.len()
        invariant
            0 <= k <= objects.len(),
            linked@.len() == k,
            forall|j: int|
                0 <= j < k ==> declared(object_names@, objects@[j]@) == Some(
                    (#[trigger] linked@[j]) as int,
                ),
        decreases objects.len() - k,
    {
        match index_of(object_names, objects[k].as_str()) {
            Some(index) => {
                linked.push(index);
            },
            None => {
                assert forall|j: int| 0 <= j < k implies declared(
                    object_names@,
                    (#[trigger] objects@[j])@,
                ) is Some by {
                    assert(declared(object_names@, objects@[j]@) == Some(linked@[j] as int));
                }
                return Err(LinkError::MissingObject(objects[k].clone()));
            },
        }
        k = k + 1;
    }
    Ok(linked)
}

/// Every reference up to `upto` links.
pub open spec fn all_linked(used: Seq<TextureRef>, names: Seq<String>, upto: int) -> bool {
    forall|k: int| 0 <= k < upto ==> linked(#[trigger] used[k], names) is Some
}

/// Links the textures that a pass reads or draws into, in the order of the
/// pass. The first texture that is not declared is reported.
pub fn link_textures(textures: &Vec<TextureRef>, texture_names: &Vec<String>) -> (r: Result<
    Vec<(usize, String)>,
    LinkError,
>)
    ensures
        match r {
            Ok(links) => links@.len() == textures@.len() && forall|k: int|
                0 <= k < textures@.len() ==> linked(textures@[k], texture_names@) == Some(
                    ((#[trigger] links@[k]).0 as int, links@[k].1@),
                ),
            Err(LinkError::MissingTexture(name)) => exists|k: int|
                0 <= k < textures@.len() && all_linked(textures@, texture_names@, k) && linked(
                    #[trigger] textures@[k],
                    texture_names@,
                ) is None && name@ == textures@[k].texture(),
            Err(LinkError::MissingObject(_)) => false,
        },
{
    let mut links: Vec<(usize, String)> = Vec::new();
    let mut k: usize = 0;
    while k < textures.len()
        invariant
            0 <= k <= textures.len(),
            links@.len() == k,
            forall|j: int|
                0 <= j < k ==> linked(textures@[j], texture_names@) == Some(
                    ((#[trigger] links@[j]).0 as int, links@[j].1@),
                ),
        decreases textures.len() - k,
    {
        match link_texture(&textures[k], texture_names) {
            Ok(link) => {
                links.push(link);
            },
            Err(e) => {
                assert forall|j: int| 0 <= j < k implies linked(
                    #[trigger] textures@[j],
                    texture_names@,
                ) is Some by {
                    assert(linked(textures@[j], texture_names@) == Some(
                        (links@[j].0 as int, links@[j].1@),
                    ));
                }
                return Err(e);
            },
        }
        k = k + 1;
    }
    Ok(links)
}

/// Links the target of a pass. The frame on screen needs no link. Of a
/// buffer the colour attachments are linked first, in their order, then the
/// depth attachment, by its name.
pub fn link_target(target: &PassTarget, texture_names: &Vec<String>) -> (r: Result<
    Option<LoadedTarget>,
    LinkError,
>)
    ensures
        match (*target, r) {
            (PassTarget::Frame, r) => r matches Ok(None),
            (PassTarget::Buffer(buffer), Ok(Some(loaded))) => {
                &&& loaded.color@.len() == buffer.color@.len()
                &&& forall|k: int|
                    0 <= k < buffer.color@.len() ==> linked(buffer.color@[k], texture_names@)
                        == Some(((#[trigger] loaded.color@[k]).0 as int, loaded.color@[k].1@))
                &&& match (buffer.depth, loaded.depth) {
                    (Some(name), Some(index)) => declared(texture_names@, name@) == Some(
                        index as int,
                    ),
                    (None, None) => true,
                    _ => false,
                }
            },
            (PassTarget::Buffer(buffer), Ok(None)) => false,
            (PassTarget::Buffer(buffer), Err(LinkError::MissingTexture(name))) => {
                ||| exists|k: int|
                    0 <= k < buffer.color@.len() && linked(
                        #[trigger] buffer.color@[k],
                        texture_names@,
                    ) is None && name@ == buffer.color@[k].texture()
                ||| all_linked(buffer.color@, texture_names@, buffer.color@.len() as int) && (
                buffer.depth matches Some(depth) && declared(texture_names@, depth@) is None
                    && name@ == depth@)
            },
            (PassTarget::Buffer(buffer), Err(LinkError::MissingObject(_))) => false,
        },
{
    match target {
        PassTarget::Frame => Ok(None),
        PassTarget::Buffer(buffer) => {
            let color = match link_textures(&buffer.color, texture_names) {
                Ok(color) => color,
                Err(e) => {
                    return Err(e);
                },
            };
            assert forall|j: int| 0 <= j < buffer.color@.len() implies linked(
                #[trigger] buffer.color@[j],
                texture_names@,
            ) is Some by {
                assert(linked(buffer.color@[j], texture_names@) == Some(
                    (color@[j].0 as int, color@[j].1@),
                ));
            }
            let depth = match &buffer.depth {
                Some(name) => match index_of(texture_names, name.as_str()) {
                    Some(index) => Some(index),
                    None => {
                        return Err(LinkError::MissingTexture(name.clone()));
                    },
                },
                None => None,
            };
            Ok(Some(LoadedTarget { color, depth }))
        },
    }
}

/// A linked target cannot be drawn into.
#[derive(Clone, Copy, PartialEq, Eq, Structural, Debug)]
pub enum TargetError {
    /// The colour attachment at that place is a depth texture.
    DepthAsColor(usize),
    /// The depth attachment is a colour texture.
    ColorAsDepth,
}

/// Every colour attachment up to `upto` is a colour texture.
pub open spec fn colors_ok(target: LoadedTarget, classes: Seq<TextureClass>, upto: int) -> bool {
    forall|k: int|
        0 <= k < upto ==> classes[(#[trigger] target.color@[k]).0 as int] == TextureClass::Color
}

/// The target names textures that exist.
pub open spec fn in_range(target: LoadedTarget, textures: int) -> bool {
    &&& forall|k: int| 0 <= k < target.color@.len() ==> (#[trigger] target.color@[k]).0 < textures
    &&& target.depth matches Some(index) ==> index < textures
}

/// Checks that a target can be drawn into: its colour attachments are colour
/// textures and its depth attachment, if any, is a depth texture. The first
/// colour attachment that is a depth texture is reported, before the depth
/// attachment.
pub fn check_target(target: &LoadedTarget, classes: &Vec<TextureClass>) -> (r: Result<
    (),
    TargetError,
>)
    requires
        in_range(*target, classes@.len() as int),
    ensures
        match r {
            Ok(()) => colors_ok(*target, classes@, target.color@.len() as int) && (
            target.depth matches Some(index) ==> classes@[index as int] == TextureClass::Depth),
            Err(TargetError::DepthAsColor(k)) => k < target.color@.len() && colors_ok(
                *target,
                classes@,
                k as int,
            ) && classes@[target.color@[k as int].0 as int] == TextureClass::Depth,
            Err(TargetError::ColorAsDepth) => colors_ok(
                *target,
                classes@,
                target.color@.len() as int,
            ) && (target.depth matches Some(index) && classes@[index as int]
                == TextureClass::Color),
        },
{
    let mut k: usize = 0;
    while k < target.color.len()
        invariant
            0 <= k <= target.color.len(),
            in_range(*target, classes@.len() as int),
            colors_ok(*target, classes@, k as int),
        decreases target.color.len() - k,
    {
        let index: usize = target.color[k].0;
        match classes[index] {
            TextureClass::Depth => {
                return Err(TargetError::DepthAsColor(k));
            },
            TextureClass::Color => {},
        }
        k = k + 1;
    }
    match target.depth {
        Some(index) => match classes[index] {
            TextureClass::Depth => Ok(()),
            TextureClass::Color => Err(TargetError::ColorAsDepth),
        },
        None => Ok(()),
    }
}

/// What links is in range: a linked target names textures that exist.
pub proof fn lemma_linked_in_range(texture: TextureRef, names: Seq<String>)
    ensures
        linked(texture, names) matches Some(link) ==> 0 <= link.0 < names.len(),
{
    lemma_declared(names, texture.texture());
}

} // verus!
