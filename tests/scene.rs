use quad_scene::bindings::{find_key, Attribute, Uniform};
use quad_scene::scene::{
    plan_scene, settle_steps, AttribLayout, BufferTarget, DrawError, DrawMode, ElementType,
    FrameCommand, FramePlan, ProgramInfo,
};

fn entry<V>(name: &str, value: V) -> (String, V) {
    (name.to_string(), value)
}

fn full_program() -> ProgramInfo<&'static str, u32> {
    ProgramInfo {
        program: "quad program",
        attrib_locations: vec![entry("a_vertex_position", 0), entry("a_vertex_color", 1)],
        uniform_locations: vec![
            entry("u_projection_matrix", 10),
            entry("u_model_view_matrix", 11),
            entry("u_time", 12),
        ],
    }
}

fn full_buffers() -> Vec<(String, &'static str)> {
    vec![entry("vertices", "vertex buffer"), entry("colors", "color buffer")]
}

fn setup_commands() -> Vec<FrameCommand> {
    vec![
        FrameCommand::ClearColor,
        FrameCommand::EnableDepthTest,
        FrameCommand::DepthFuncLessOrEqual,
        FrameCommand::ClearColorAndDepth,
        FrameCommand::ComputeMatrices,
    ]
}

fn layout(num_components: i32) -> AttribLayout {
    AttribLayout {
        target: BufferTarget::Array,
        num_components,
        element: ElementType::Float,
        normalize: false,
        stride: 0,
        offset: 0,
    }
}

fn draw_calls(plan: &FramePlan) -> Vec<FrameCommand> {
    plan.commands
        .iter()
        .copied()
        .filter(|c| matches!(c, FrameCommand::DrawArrays { .. }))
        .collect()
}

#[test]
fn complete_tables_issue_one_quad_draw() {
    let plan = plan_scene(&full_program(), &full_buffers());
    assert_eq!(plan.outcome, Ok(()));
    let mut expected = setup_commands();
    expected.extend([
        FrameCommand::BindAttribute { buffer: 0, slot: 0, layout: layout(2) },
        FrameCommand::BindAttribute { buffer: 1, slot: 1, layout: layout(4) },
        FrameCommand::UseProgram,
        FrameCommand::UploadUniform { location: 0, value: Uniform::Projection },
        FrameCommand::UploadUniform { location: 1, value: Uniform::ModelView },
        FrameCommand::UploadUniform { location: 2, value: Uniform::Time },
        FrameCommand::DrawArrays { mode: DrawMode::TriangleStrip, first: 0, count: 4 },
    ]);
    assert_eq!(plan.commands, expected);
    assert_eq!(
        draw_calls(&plan),
        vec![FrameCommand::DrawArrays { mode: DrawMode::TriangleStrip, first: 0, count: 4 }]
    );
}

#[test]
fn bindings_follow_table_positions() {
    let program = ProgramInfo {
        program: (),
        attrib_locations: vec![entry("a_vertex_color", 7), entry("a_vertex_position", 3)],
        uniform_locations: vec![
            entry("u_time", "t"),
            entry("u_model_view_matrix", "mv"),
            entry("u_projection_matrix", "p"),
        ],
    };
    let buffers = vec![entry("colors", 1u8), entry("indices", 2u8), entry("vertices", 3u8)];
    let plan = plan_scene(&program, &buffers);
    assert_eq!(plan.outcome, Ok(()));
    assert_eq!(plan.commands[5], FrameCommand::BindAttribute { buffer: 2, slot: 3, layout: layout(2) });
    assert_eq!(plan.commands[6], FrameCommand::BindAttribute { buffer: 0, slot: 7, layout: layout(4) });
    assert_eq!(plan.commands[8], FrameCommand::UploadUniform { location: 2, value: Uniform::Projection });
    assert_eq!(plan.commands[9], FrameCommand::UploadUniform { location: 1, value: Uniform::ModelView });
    assert_eq!(plan.commands[10], FrameCommand::UploadUniform { location: 0, value: Uniform::Time });
}

#[test]
fn missing_position_attribute_is_a_lookup_failure_without_draw() {
    let mut program = full_program();
    program.attrib_locations.retain(|(name, _)| name != "a_vertex_position");
    let plan = plan_scene(&program, &full_buffers());
    assert_eq!(plan.outcome, Err(DrawError::MissingAttribute(Attribute::Position)));
    assert_eq!(plan.commands, setup_commands());
    assert!(draw_calls(&plan).is_empty());
    assert_eq!(
        DrawError::MissingAttribute(Attribute::Position).message(),
        "Failed to get `a_vertex_position` attribute"
    );
}

#[test]
fn missing_vertices_buffer_reports_position_attribute() {
    let buffers = vec![entry("colors", "color buffer")];
    let plan = plan_scene(&full_program(), &buffers);
    assert_eq!(plan.outcome, Err(DrawError::MissingBuffer(Attribute::Position)));
    assert_eq!(plan.commands, setup_commands());
    assert_eq!(
        DrawError::MissingBuffer(Attribute::Position).message(),
        "Failed to get `a_vertex_position` attribute"
    );
}

#[test]
fn missing_color_attribute_stops_after_position_binding() {
    let mut program = full_program();
    program.attrib_locations.retain(|(name, _)| name != "a_vertex_color");
    let plan = plan_scene(&program, &full_buffers());
    assert_eq!(plan.outcome, Err(DrawError::MissingAttribute(Attribute::Color)));
    let mut expected = setup_commands();
    expected.push(FrameCommand::BindAttribute { buffer: 0, slot: 0, layout: layout(2) });
    assert_eq!(plan.commands, expected);
    assert_eq!(
        DrawError::MissingAttribute(Attribute::Color).message(),
        "Failed to get `a_vertex_color` attribute"
    );
}

#[test]
fn missing_colors_buffer_reports_color_attribute() {
    let buffers = vec![entry("vertices", "vertex buffer")];
    let plan = plan_scene(&full_program(), &buffers);
    assert_eq!(plan.outcome, Err(DrawError::MissingBuffer(Attribute::Color)));
    assert_eq!(plan.commands.len(), 6);
    assert_eq!(
        DrawError::MissingBuffer(Attribute::Color).message(),
        "Failed to get `a_vertex_color` attribute"
    );
}

#[test]
fn missing_time_uniform_fails_after_matrix_uploads() {
    let mut program = full_program();
    program.uniform_locations.retain(|(name, _)| name != "u_time");
    let plan = plan_scene(&program, &full_buffers());
    assert_eq!(plan.outcome, Err(DrawError::MissingUniform(Uniform::Time)));
    assert_eq!(plan.commands.len(), 10);
    assert_eq!(
        plan.commands[9],
        FrameCommand::UploadUniform { location: 1, value: Uniform::ModelView }
    );
    assert!(draw_calls(&plan).is_empty());
    assert_eq!(DrawError::MissingUniform(Uniform::Time).message(), "Failed to get `u_time` uniform");
}

#[test]
fn missing_projection_uniform_stops_after_use_program() {
    let mut program = full_program();
    program.uniform_locations.retain(|(name, _)| name != "u_projection_matrix");
    let plan = plan_scene(&program, &full_buffers());
    assert_eq!(plan.outcome, Err(DrawError::MissingUniform(Uniform::Projection)));
    assert_eq!(plan.commands.len(), 8);
    assert_eq!(plan.commands[7], FrameCommand::UseProgram);
}

#[test]
fn empty_tables_fail_on_first_lookup() {
    let program: ProgramInfo<(), ()> =
        ProgramInfo { program: (), attrib_locations: vec![], uniform_locations: vec![] };
    let buffers: Vec<(String, ())> = vec![];
    let plan = plan_scene(&program, &buffers);
    assert_eq!(plan.outcome, Err(DrawError::MissingAttribute(Attribute::Position)));
    assert_eq!(plan.commands, setup_commands());
}

#[test]
fn repeated_frames_reuse_the_same_handles() {
    let program = full_program();
    let buffers = full_buffers();
    let first = plan_scene(&program, &buffers);
    for _ in 0..100 {
        let again = plan_scene(&program, &buffers);
        assert_eq!(again.commands, first.commands);
        assert_eq!(again.outcome, first.outcome);
    }
    for command in &first.commands {
        match *command {
            FrameCommand::BindAttribute { buffer, .. } => {
                let name = buffers[buffer].0.as_str();
                assert!(name == "vertices" || name == "colors");
            }
            FrameCommand::UploadUniform { location, value } => {
                assert_eq!(program.uniform_locations[location].0, value.name());
            }
            _ => {}
        }
    }
}

#[test]
fn find_key_takes_first_match() {
    let table = vec![entry("a", 1), entry("b", 2), entry("a", 3)];
    assert_eq!(find_key(&table, "a"), Some(0));
    assert_eq!(find_key(&table, "b"), Some(1));
    assert_eq!(find_key(&table, "c"), None);
    assert_eq!(find_key(&table, ""), None);
    let empty: Vec<(String, i32)> = vec![];
    assert_eq!(find_key(&empty, "a"), None);
}

#[test]
fn settle_stops_at_first_failure() {
    let steps = vec![
        Ok(FrameCommand::ClearColor),
        Err(DrawError::MissingUniform(Uniform::ModelView)),
        Ok(FrameCommand::UseProgram),
        Err(DrawError::MissingAttribute(Attribute::Color)),
    ];
    let plan = settle_steps(&steps);
    assert_eq!(plan.commands, vec![FrameCommand::ClearColor]);
    assert_eq!(plan.outcome, Err(DrawError::MissingUniform(Uniform::ModelView)));
    let done = settle_steps(&vec![Ok(FrameCommand::UseProgram)]);
    assert_eq!(done.commands, vec![FrameCommand::UseProgram]);
    assert_eq!(done.outcome, Ok(()));
    let nothing = settle_steps(&vec![]);
    assert!(nothing.commands.is_empty());
    assert_eq!(nothing.outcome, Ok(()));
}

#[test]
fn names_and_layouts() {
    assert_eq!(Attribute::Position.name(), "a_vertex_position");
    assert_eq!(Attribute::Color.name(), "a_vertex_color");
    assert_eq!(Attribute::Position.buffer_name(), "vertices");
    assert_eq!(Attribute::Color.buffer_name(), "colors");
    assert_eq!(Uniform::Projection.name(), "u_projection_matrix");
    assert_eq!(Uniform::ModelView.name(), "u_model_view_matrix");
    assert_eq!(AttribLayout::for_attribute(Attribute::Position), layout(2));
    assert_eq!(AttribLayout::for_attribute(Attribute::Color), layout(4));
    assert_eq!(
        DrawError::MissingUniform(Uniform::Projection).message(),
        "Failed to get `u_projection_matrix` uniform"
    );
    assert_eq!(
        DrawError::MissingUniform(Uniform::ModelView).message(),
        "Failed to get `u_model_view_matrix` uniform"
    );
}
