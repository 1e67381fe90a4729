use fluid_sim::pass::{
    ArgValue, Command, ParseError, PassError, Program, ShaderPass, Uniform, UniformType,
    UniformValue, bytes_eq, get_uniform_type, parse_shader_source,
};

fn demo_program() -> Program {
    Program::create(
        7,
        vec![
            (b"u_velocity".to_vec(), 11),
            (b"u_source".to_vec(), 12),
            (b"u_texel_size".to_vec(), 13),
            (b"u_timestep".to_vec(), 14),
        ],
    )
}

fn demo_declared() -> Vec<Uniform> {
    vec![
        Uniform { name: b"u_velocity".to_vec(), u_type: UniformType::Sampler2D },
        Uniform { name: b"u_source".to_vec(), u_type: UniformType::Sampler2D },
        Uniform { name: b"u_texel_size".to_vec(), u_type: UniformType::Vec2 },
        Uniform { name: b"u_timestep".to_vec(), u_type: UniformType::Float },
    ]
}

fn uploads(cmds: &[Command]) -> usize {
    cmds.iter().filter(|c| matches!(c, Command::SetScalar { .. })).count()
}

#[test]
fn bytes_eq_compares_contents() {
    assert!(bytes_eq(b"vec2", b"vec2"));
    assert!(!bytes_eq(b"vec2", b"vec3"));
    assert!(!bytes_eq(b"vec2", b"vec22"));
}

#[test]
fn uniform_type_names_resolve() {
    assert_eq!(get_uniform_type(b"sampler2D"), Ok(UniformType::Sampler2D));
    assert_eq!(get_uniform_type(b"float"), Ok(UniformType::Float));
    assert_eq!(get_uniform_type(b"vec2"), Ok(UniformType::Vec2));
    assert_eq!(get_uniform_type(b"vec3"), Ok(UniformType::Vec3));
    assert_eq!(get_uniform_type(b"vec4"), Ok(UniformType::Vec4));
    assert_eq!(get_uniform_type(b"mat4"), Err(ParseError::UnknownType));
    assert_eq!(get_uniform_type(b"Sampler2D"), Err(ParseError::UnknownType));
}

#[test]
fn shader_source_yields_declared_parameters_in_order() {
    let src = b"precision highp float;\nuniform sampler2D u_velocity;\nuniform vec2 u_texel_size;\nuniform float u_timestep;\nvoid main() {}\n";
    let uniforms = parse_shader_source(src).unwrap();
    assert_eq!(uniforms.len(), 3);
    assert_eq!(uniforms[0].name, b"u_velocity".to_vec());
    assert_eq!(uniforms[0].u_type, UniformType::Sampler2D);
    assert_eq!(uniforms[1].name, b"u_texel_size".to_vec());
    assert_eq!(uniforms[1].u_type, UniformType::Vec2);
    assert_eq!(uniforms[2].name, b"u_timestep".to_vec());
    assert_eq!(uniforms[2].u_type, UniformType::Float);
}

#[test]
fn shader_source_without_uniforms_yields_none() {
    assert_eq!(parse_shader_source(b"void main() { gl_FragColor = vec4(0); }").unwrap().len(), 0);
}

#[test]
fn shader_source_with_unknown_type_is_rejected() {
    assert_eq!(parse_shader_source(b"uniform mat4 u_model;"), Err(ParseError::UnknownType));
}

#[test]
fn shader_source_with_trailing_keyword_is_rejected() {
    assert_eq!(parse_shader_source(b"void main(); uniform"), Err(ParseError::MissingType));
}

#[test]
fn shader_source_with_unnamed_uniform_is_rejected() {
    assert_eq!(parse_shader_source(b"uniform float"), Err(ParseError::MissingName));
}

#[test]
fn program_reports_handle_and_uniforms() {
    let p = demo_program();
    assert_eq!(p.program(), 7);
    assert_eq!(p.uniforms().len(), 4);
}

#[test]
fn create_resolves_slots_and_numbers_sampler_units() {
    let p = demo_program();
    let (pass, cmds) = ShaderPass::create(&p, &demo_declared()).unwrap();
    assert_eq!(pass.program_id, 7);
    assert_eq!(pass.slots.len(), 4);
    assert_eq!(pass.slots[0].loc, 11);
    assert_eq!(pass.slots[2].loc, 13);
    // Setup activates the program and fixes each sampler's unit to its
    // declaration index.
    assert_eq!(
        cmds,
        vec![
            Command::UseProgram(7),
            Command::SetSamplerUnit { loc: 11, unit: 0 },
            Command::SetSamplerUnit { loc: 12, unit: 1 },
        ]
    );
}

#[test]
fn create_fails_fast_on_missing_parameter() {
    let p = demo_program();
    let mut declared = demo_declared();
    declared.push(Uniform { name: b"u_missing".to_vec(), u_type: UniformType::Float });
    assert!(matches!(ShaderPass::create(&p, &declared), Err(PassError::ContractViolation)));
}

#[test]
fn first_dispatch_uploads_every_scalar_parameter() {
    let p = demo_program();
    let (mut pass, _) = ShaderPass::create(&p, &demo_declared()).unwrap();
    let args = vec![ArgValue::Tex(100), ArgValue::Tex(101), ArgValue::V2(1024, 1024), ArgValue::F(65536)];
    let cmds = pass.set_arguments(&args);
    assert_eq!(cmds[0], Command::UseProgram(7));
    assert_eq!(uploads(&cmds), 2);
    assert!(cmds.contains(&Command::SetScalar { loc: 13, value: UniformValue::V2(1024, 1024) }));
    assert!(cmds.contains(&Command::SetScalar { loc: 14, value: UniformValue::F(65536) }));
}

#[test]
fn repeated_dispatch_is_a_cache_hit() {
    let p = demo_program();
    let (mut pass, _) = ShaderPass::create(&p, &demo_declared()).unwrap();
    let args = vec![ArgValue::Tex(100), ArgValue::Tex(101), ArgValue::V2(1024, 1024), ArgValue::F(65536)];
    let first = pass.set_arguments(&args);
    let second = pass.set_arguments(&args);
    // Exactly one upload of each scalar parameter across both calls.
    assert_eq!(uploads(&first), 2);
    assert_eq!(uploads(&second), 0);
    // Samplers are re-bound every call.
    assert_eq!(
        second,
        vec![
            Command::UseProgram(7),
            Command::BindTexture { unit: 0, texture: 100 },
            Command::BindTexture { unit: 1, texture: 101 },
        ]
    );
}

#[test]
fn changed_value_is_uploaded_again() {
    let p = demo_program();
    let (mut pass, _) = ShaderPass::create(&p, &demo_declared()).unwrap();
    let args = vec![ArgValue::Tex(100), ArgValue::Tex(101), ArgValue::V2(1024, 1024), ArgValue::F(65536)];
    pass.set_arguments(&args);
    let changed = vec![ArgValue::Tex(100), ArgValue::Tex(101), ArgValue::V2(1024, 1024), ArgValue::F(32768)];
    let cmds = pass.set_arguments(&changed);
    assert_eq!(uploads(&cmds), 1);
    assert!(cmds.contains(&Command::SetScalar { loc: 14, value: UniformValue::F(32768) }));
}

#[test]
fn texture_bindings_track_ping_pong() {
    let p = demo_program();
    let (mut pass, _) = ShaderPass::create(&p, &demo_declared()).unwrap();
    let args = vec![ArgValue::Tex(100), ArgValue::Tex(101), ArgValue::V2(8, 8), ArgValue::F(1)];
    pass.set_arguments(&args);
    let swapped = vec![ArgValue::Tex(101), ArgValue::Tex(100), ArgValue::V2(8, 8), ArgValue::F(1)];
    let cmds = pass.set_arguments(&swapped);
    assert!(cmds.contains(&Command::BindTexture { unit: 0, texture: 101 }));
    assert!(cmds.contains(&Command::BindTexture { unit: 1, texture: 100 }));
    assert_eq!(uploads(&cmds), 0);
}
