use shader_store::config::link::{
    check_target, index_of, link_objects, link_target, link_texture, link_textures, LinkError,
    LoadedTarget, TargetError,
};
use shader_store::config::pass::{
    from_name_uniform, valid_attribute, BindChoice, BuiltinUniform, CustomKind, Mismatch,
    UniformBinding, UniformType,
};
use shader_store::config::ser::{
    orbital_click, CameraType, CaptureMouse, PassTarget, PassTargetBuffer, TextureRef,
};
use shader_store::config::settings::{
    clamp, cull, t, BackfaceCullingMode, Depth, DepthClamp, DepthTest, Settings,
};
use shader_store::config::texture::{
    depth_format, magnify_filter, minify_filter, text_format, wrap, DepthFormatDef, DepthTexture,
    EmptyTexture, MagnifySamplerFilterDef, MinifySamplerFilterDef, Mipmaps, SamplerWrapFunctionDef,
    Texture, TextureClass, TextureKind, TextureSize, UncompressedFloatFormatDef,
};

fn names(list: &[&str]) -> Vec<String> {
    list.iter().map(|s| s.to_string()).collect()
}

#[test]
fn settings_default_to_a_depth_test_and_culling() {
    assert!(t());
    assert_eq!(clamp(), DepthClamp::NoClamp);
    assert_eq!(shader_store::config::settings::test(), DepthTest::IfLess);
    assert_eq!(cull(), BackfaceCullingMode::CullCounterClockwise);
    let depth = Depth::default();
    assert_eq!(depth, Depth { compare: DepthTest::IfLess, write: true, clamp: DepthClamp::NoClamp });
    let settings = Settings::default();
    assert_eq!(settings.depth, depth);
    assert_eq!(settings.cull, BackfaceCullingMode::CullCounterClockwise);
}

#[test]
fn texture_defaults() {
    assert_eq!(TextureSize::default(), TextureSize::ViewPort);
    assert_eq!(Mipmaps::default(), Mipmaps::NoMipmap);
    assert_eq!(text_format(), UncompressedFloatFormatDef::F32F32F32F32);
    assert_eq!(depth_format(), DepthFormatDef::F32);
    assert_eq!(wrap(), SamplerWrapFunctionDef::Repeat);
    assert_eq!(minify_filter(), MinifySamplerFilterDef::Linear);
    assert_eq!(magnify_filter(), MagnifySamplerFilterDef::Linear);
    let texture = Texture::new("noise".to_string(), TextureKind::File("noise.png".to_string()));
    assert_eq!(texture.name, "noise");
    assert_eq!(texture.wrap, SamplerWrapFunctionDef::Repeat);
    assert_eq!(texture.minify_filter, MinifySamplerFilterDef::Linear);
    assert_eq!(texture.magnify_filter, MagnifySamplerFilterDef::Linear);
    assert_eq!(texture.anisotropy, None);
    assert_eq!(texture.mipmaps, Mipmaps::NoMipmap);
}

#[test]
fn a_texture_size_resolves_against_the_viewport() {
    assert_eq!(TextureSize::ViewPort.resolve((800, 600)), (800, 600));
    assert_eq!(TextureSize::Size { width: 64, height: 32 }.resolve((800, 600)), (64, 32));
    assert!(TextureSize::ViewPort.follows_viewport());
    assert!(!TextureSize::Size { width: 64, height: 32 }.follows_viewport());
}

#[test]
fn only_created_textures_follow_the_viewport() {
    let file = TextureKind::File("a.png".to_string());
    let empty = TextureKind::Empty(EmptyTexture { size: TextureSize::ViewPort, format: text_format() });
    let fixed = TextureKind::Empty(EmptyTexture {
        size: TextureSize::Size { width: 4, height: 4 },
        format: UncompressedFloatFormatDef::U8U8U8U8,
    });
    let depth = TextureKind::Depth(DepthTexture { size: TextureSize::ViewPort, format: depth_format() });
    assert!(!file.follows_viewport());
    assert!(empty.follows_viewport());
    assert!(!fixed.follows_viewport());
    assert!(depth.follows_viewport());
    assert_eq!(file.size(), None);
    assert_eq!(fixed.size(), Some(TextureSize::Size { width: 4, height: 4 }));
    assert_eq!(file.class(), TextureClass::Color);
    assert_eq!(empty.class(), TextureClass::Color);
    assert_eq!(depth.class(), TextureClass::Depth);
}

#[test]
fn mipmaps_report_levels_and_limits() {
    assert!(!Mipmaps::NoMipmap.has_levels());
    assert!(Mipmaps::Empty.has_levels());
    assert!(Mipmaps::GenerateAmount(3).has_levels());
    assert_eq!(Mipmaps::Generate.limit(), None);
    assert_eq!(Mipmaps::EmptyAmount(4).limit(), Some(4));
    assert_eq!(Mipmaps::GenerateAmount(3).limit(), Some(3));
}

#[test]
fn builtin_labels() {
    assert_eq!(BuiltinUniform::Model.label(), "Model");
    assert_eq!(BuiltinUniform::View.label(), "View");
    assert_eq!(BuiltinUniform::Perspective.label(), "Perspective");
    assert_eq!(BuiltinUniform::Time.label(), "Time");
    assert_eq!(BuiltinUniform::MouseX.label(), "Mouse X");
    assert_eq!(BuiltinUniform::MouseY.label(), "Mouse Y");
    assert_eq!(BuiltinUniform::MousePos.label(), "Mouse Position");
    assert_eq!(BuiltinUniform::WindowWidth.label(), "Window Width");
    assert_eq!(BuiltinUniform::WindowHeight.label(), "Window Height");
    assert_eq!(BuiltinUniform::WindowSize.label(), "Window Size");
}

#[test]
fn builtins_on_offer_by_type() {
    assert_eq!(
        BuiltinUniform::valid_for_uniform_type(UniformType::Float),
        vec![
            BuiltinUniform::Time,
            BuiltinUniform::MouseX,
            BuiltinUniform::MouseY,
            BuiltinUniform::WindowWidth,
            BuiltinUniform::WindowHeight
        ]
    );
    assert_eq!(
        BuiltinUniform::valid_for_uniform_type(UniformType::FloatVec2),
        vec![BuiltinUniform::MousePos, BuiltinUniform::WindowSize]
    );
    assert_eq!(
        BuiltinUniform::valid_for_uniform_type(UniformType::FloatMat4),
        vec![BuiltinUniform::Model, BuiltinUniform::View, BuiltinUniform::Perspective]
    );
    assert!(BuiltinUniform::valid_for_uniform_type(UniformType::FloatVec3).is_empty());
    assert!(BuiltinUniform::valid_for_uniform_type(UniformType::FloatVec4).is_empty());
    assert!(BuiltinUniform::valid_for_uniform_type(UniformType::Other).is_empty());
}

#[test]
fn a_uniform_is_bound_by_its_name_and_type() {
    let b = |u| UniformBinding::Builtin(u);
    assert_eq!(from_name_uniform("view", UniformType::FloatMat4), b(BuiltinUniform::View));
    assert_eq!(from_name_uniform("projection", UniformType::FloatMat4), b(BuiltinUniform::Perspective));
    assert_eq!(from_name_uniform("model", UniformType::FloatMat4), b(BuiltinUniform::Model));
    assert_eq!(from_name_uniform("time", UniformType::Float), b(BuiltinUniform::Time));
    assert_eq!(from_name_uniform("mouse_x", UniformType::Float), b(BuiltinUniform::MouseX));
    assert_eq!(from_name_uniform("mouse_y", UniformType::Float), b(BuiltinUniform::MouseY));
    assert_eq!(from_name_uniform("window_width", UniformType::Float), b(BuiltinUniform::WindowWidth));
    assert_eq!(from_name_uniform("window_height", UniformType::Float), b(BuiltinUniform::WindowHeight));
    assert_eq!(from_name_uniform("mouse_pos", UniformType::FloatVec2), b(BuiltinUniform::MousePos));
    assert_eq!(from_name_uniform("window_size", UniformType::FloatVec2), b(BuiltinUniform::WindowSize));
}

#[test]
fn a_name_of_the_wrong_type_stays_unbound() {
    assert_eq!(from_name_uniform("view", UniformType::Float), UniformBinding::Unbound);
    assert_eq!(from_name_uniform("time", UniformType::FloatMat4), UniformBinding::Unbound);
    assert_eq!(from_name_uniform("mouse_pos", UniformType::FloatVec3), UniformBinding::Unbound);
    assert_eq!(from_name_uniform("colour", UniformType::FloatVec4), UniformBinding::Unbound);
    assert_eq!(from_name_uniform("View", UniformType::FloatMat4), UniformBinding::Unbound);
    assert_eq!(from_name_uniform("", UniformType::Other), UniformBinding::Unbound);
}

#[test]
fn custom_values_fit_one_type_each() {
    assert_eq!(CustomKind::from_uniform_type(UniformType::FloatMat4), Some(CustomKind::Mat4));
    assert_eq!(CustomKind::from_uniform_type(UniformType::FloatVec4), Some(CustomKind::Vec4));
    assert_eq!(CustomKind::from_uniform_type(UniformType::FloatVec3), Some(CustomKind::Vec3));
    assert_eq!(CustomKind::from_uniform_type(UniformType::FloatVec2), Some(CustomKind::Vec2));
    assert_eq!(CustomKind::from_uniform_type(UniformType::Float), Some(CustomKind::Float));
    assert_eq!(CustomKind::from_uniform_type(UniformType::Other), None);
    assert_eq!(CustomKind::Vec3.ensure_compatible(UniformType::FloatVec3), Ok(()));
    assert_eq!(
        CustomKind::Vec3.ensure_compatible(UniformType::FloatVec4),
        Err(Mismatch { found: CustomKind::Vec3, expected: UniformType::FloatVec4 })
    );
    assert_eq!(
        CustomKind::Float.ensure_compatible(UniformType::Other),
        Err(Mismatch { found: CustomKind::Float, expected: UniformType::Other })
    );
}

#[test]
fn shaders_may_use_three_attributes() {
    assert!(valid_attribute("position"));
    assert!(valid_attribute("normal"));
    assert!(valid_attribute("tex_coord"));
    assert!(!valid_attribute("color"));
    assert!(!valid_attribute("Position"));
    assert!(!valid_attribute(""));
}

#[test]
fn the_choices_on_offer_depend_on_the_type() {
    assert_eq!(BindChoice::Custom.label(), "Custom");
    assert_eq!(BindChoice::Builtin.label(), "Builtin");
    assert_eq!(BindChoice::Unbound.label(), "Unbound");
    assert!(BindChoice::Unbound.is_offered(UniformType::Other));
    assert!(!BindChoice::Custom.is_offered(UniformType::Other));
    assert!(!BindChoice::Builtin.is_offered(UniformType::Other));
    assert!(BindChoice::Custom.is_offered(UniformType::FloatVec3));
    assert!(!BindChoice::Builtin.is_offered(UniformType::FloatVec3));
    assert!(BindChoice::Builtin.is_offered(UniformType::Float));
    assert_eq!(BindChoice::Unbound.into_binding(UniformType::Float), UniformBinding::Unbound);
    assert_eq!(
        BindChoice::Builtin.into_binding(UniformType::Float),
        UniformBinding::Builtin(BuiltinUniform::Time)
    );
    assert_eq!(
        BindChoice::Builtin.into_binding(UniformType::FloatMat4),
        UniformBinding::Builtin(BuiltinUniform::Model)
    );
    assert_eq!(
        BindChoice::Custom.into_binding(UniformType::FloatVec2),
        UniformBinding::Custom(CustomKind::Vec2)
    );
    assert_eq!(BindChoice::from_binding(&UniformBinding::Custom(CustomKind::Mat4)), BindChoice::Custom);
    assert_eq!(BindChoice::from_binding(&UniformBinding::Builtin(BuiltinUniform::Time)), BindChoice::Builtin);
    assert_eq!(BindChoice::from_binding(&UniformBinding::Unbound), BindChoice::Unbound);
}

#[test]
fn a_name_stands_for_its_last_declaration() {
    let declared = names(&["cube", "quad", "cube"]);
    assert_eq!(index_of(&declared, "cube"), Some(2));
    assert_eq!(index_of(&declared, "quad"), Some(1));
    assert_eq!(index_of(&declared, "sphere"), None);
    assert_eq!(index_of(&Vec::new(), "cube"), None);
}

#[test]
fn objects_link_in_the_order_of_the_pass() {
    let declared = names(&["cube", "quad", "floor"]);
    assert_eq!(link_objects(&names(&["floor", "cube", "floor"]), &declared).unwrap(), vec![2, 0, 2]);
    assert_eq!(link_objects(&Vec::new(), &declared).unwrap(), Vec::<usize>::new());
    match link_objects(&names(&["floor", "sky", "moon"]), &declared) {
        Err(LinkError::MissingObject(name)) => assert_eq!(name, "sky"),
        other => panic!("unexpected: {:?}", other),
    }
}

#[test]
fn a_texture_links_under_the_name_the_shader_knows() {
    let declared = names(&["noise", "albedo"]);
    let plain = TextureRef::Name("albedo".to_string());
    let renamed = TextureRef::Renamed { name: "noise".to_string(), alias: "grain".to_string() };
    assert_eq!(plain.name(), "albedo");
    assert_eq!(plain.bound_as(), "albedo");
    assert_eq!(renamed.name(), "noise");
    assert_eq!(renamed.bound_as(), "grain");
    assert_eq!(link_texture(&plain, &declared).unwrap(), (1, "albedo".to_string()));
    assert_eq!(link_texture(&renamed, &declared).unwrap(), (0, "grain".to_string()));
    let missing = TextureRef::Renamed { name: "fog".to_string(), alias: "noise".to_string() };
    match link_texture(&missing, &declared) {
        Err(LinkError::MissingTexture(name)) => assert_eq!(name, "fog"),
        other => panic!("unexpected: {:?}", other),
    }
    let all = vec![renamed, plain];
    assert_eq!(
        link_textures(&all, &declared).unwrap(),
        vec![(0, "grain".to_string()), (1, "albedo".to_string())]
    );
    let some = vec![TextureRef::Name("noise".to_string()), missing, TextureRef::Name("x".to_string())];
    match link_textures(&some, &declared) {
        Err(LinkError::MissingTexture(name)) => assert_eq!(name, "fog"),
        other => panic!("unexpected: {:?}", other),
    }
}

#[test]
fn a_target_links_its_attachments() {
    let declared = names(&["color", "depth", "bright"]);
    assert!(matches!(PassTarget::default(), PassTarget::Frame));
    assert!(link_target(&PassTarget::Frame, &declared).unwrap().is_none());
    let buffer = PassTarget::Buffer(PassTargetBuffer {
        color: vec![
            TextureRef::Name("color".to_string()),
            TextureRef::Renamed { name: "bright".to_string(), alias: "glow".to_string() },
        ],
        depth: Some("depth".to_string()),
    });
    let linked = link_target(&buffer, &declared).unwrap().unwrap();
    assert_eq!(linked.color, vec![(0, "color".to_string()), (2, "glow".to_string())]);
    assert_eq!(linked.depth, Some(1));
    let no_depth = PassTarget::Buffer(PassTargetBuffer { color: Vec::new(), depth: None });
    let linked = link_target(&no_depth, &declared).unwrap().unwrap();
    assert!(linked.color.is_empty());
    assert_eq!(linked.depth, None);
    let bad_depth = PassTarget::Buffer(PassTargetBuffer {
        color: vec![TextureRef::Name("color".to_string())],
        depth: Some("shadow".to_string()),
    });
    match link_target(&bad_depth, &declared) {
        Err(LinkError::MissingTexture(name)) => assert_eq!(name, "shadow"),
        other => panic!("unexpected: {:?}", other),
    }
    let bad_color = PassTarget::Buffer(PassTargetBuffer {
        color: vec![TextureRef::Name("sky".to_string())],
        depth: Some("shadow".to_string()),
    });
    match link_target(&bad_color, &declared) {
        Err(LinkError::MissingTexture(name)) => assert_eq!(name, "sky"),
        other => panic!("unexpected: {:?}", other),
    }
}

#[test]
fn a_target_needs_textures_of_the_right_class() {
    let classes = vec![TextureClass::Color, TextureClass::Depth, TextureClass::Color];
    let good = LoadedTarget { color: vec![(0, "a".to_string()), (2, "b".to_string())], depth: Some(1) };
    assert_eq!(check_target(&good, &classes), Ok(()));
    let no_depth = LoadedTarget { color: vec![(2, "b".to_string())], depth: None };
    assert_eq!(check_target(&no_depth, &classes), Ok(()));
    let depth_as_color =
        LoadedTarget { color: vec![(0, "a".to_string()), (1, "b".to_string())], depth: Some(0) };
    assert_eq!(check_target(&depth_as_color, &classes), Err(TargetError::DepthAsColor(1)));
    let color_as_depth = LoadedTarget { color: vec![(0, "a".to_string())], depth: Some(2) };
    assert_eq!(check_target(&color_as_depth, &classes), Err(TargetError::ColorAsDepth));
}

#[test]
fn the_left_button_drags_an_orbital_camera() {
    assert_eq!(CameraType::default(), CameraType::Orbital);
    assert_eq!(orbital_click(true, true, false), (true, Some(CaptureMouse::Capture)));
    assert_eq!(orbital_click(true, false, true), (false, Some(CaptureMouse::Release)));
    assert_eq!(orbital_click(false, true, false), (false, None));
    assert_eq!(orbital_click(false, false, true), (true, None));
}
