use vstd::prelude::*;

use crate::bindings::{
    attribute_name, buffer_name, component_count, find_key, keys_of, lemma_lookup_found, lookup,
    uniform_name, Attribute, Uniform,
};

verus! {

/// A compiled shader program with the locations that linking gave its names:
/// attribute name to slot, uniform name to location handle.
pub struct ProgramInfo<P, U> {
    pub program: P,
    pub attrib_locations: Vec<(String, i32)>,
    pub uniform_locations: Vec<(String, U)>,
}

/// The buffer binding point that vertex data is read through.
#[derive(Clone, Copy, Debug, PartialEq, Eq, Structural)]
pub enum BufferTarget {
    Array,
}

/// The element type of the values in a vertex buffer.
#[derive(Clone, Copy, Debug, PartialEq, Eq, Structural)]
pub enum ElementType {
    Float,
}

/// The primitive that a draw call assembles its vertices into.
#[derive(Clone, Copy, Debug, PartialEq, Eq, Structural)]
pub enum DrawMode {
    TriangleStrip,
}

/// How a vertex buffer is read into an attribute slot.
#[derive(Clone, Copy, Debug, PartialEq, Eq, Structural)]
pub struct AttribLayout {
    pub target: BufferTarget,
    pub num_components: i32,
    pub element: ElementType,
    pub normalize: bool,
    pub stride: i32,
    pub offset: i32,
}

/// One call into the graphics context, in the order a frame issues them.
///
/// `buffer` and `location` are positions in the buffer set and in the
/// program's uniform table: a frame reuses the handles stored there.
#[derive(Clone, Copy, Debug, PartialEq, Eq, Structural)]
pub enum FrameCommand {
    /// Set the clear color to the fixed opaque pale red.
    ClearColor,
    EnableDepthTest,
    /// Let a fragment pass when its depth is at most the stored one.
    DepthFuncLessOrEqual,
    ClearColorAndDepth,
    /// Build the projection matrix from the canvas and the model-view matrix from the time.
    ComputeMatrices,
    BindAttribute { buffer: usize, slot: u32, layout: AttribLayout },
    UseProgram,
    UploadUniform { location: usize, value: Uniform },
    DrawArrays { mode: DrawMode, first: i32, count: i32 },
}

/// A name that a frame needs and that its tables lack.
#[derive(Clone, Copy, Debug, PartialEq, Eq, Structural)]
pub enum DrawError {
    MissingAttribute(Attribute),
    /// The buffer that feeds the attribute is missing.
    MissingBuffer(Attribute),
    MissingUniform(Uniform),
}

/// What one frame issues: the commands up to the first failed lookup, and
/// whether the frame completed.
pub struct FramePlan {
    pub commands: Vec<FrameCommand>,
    pub outcome: Result<(), DrawError>,
}

/// The text that a failed frame reports.
pub open spec fn error_message(e: DrawError) -> Seq<char> {
    match e {
        DrawError::MissingAttribute(Attribute::Position) => "Failed to get `a_vertex_position` attribute"@,
        DrawError::MissingBuffer(Attribute::Position) => "Failed to get `a_vertex_position` attribute"@,
        DrawError::MissingAttribute(Attribute::Color) => "Failed to get `a_vertex_color` attribute"@,
        DrawError::MissingBuffer(Attribute::Color) => "Failed to get `a_vertex_color` attribute"@,
        DrawError::MissingUniform(Uniform::Projection) => "Failed to get `u_projection_matrix` uniform"@,
        DrawError::MissingUniform(Uniform::ModelView) => "Failed to get `u_model_view_matrix` uniform"@,
        DrawError::MissingUniform(Uniform::Time) => "Failed to get `u_time` uniform"@,
    }
}

impl DrawError {
    /// The text reported for the failure; a missing buffer is reported under
    /// the attribute it feeds.
    pub fn message(&self) -> (r: &'static str)
        ensures
            r@ == error_message(*self),
    {
        match self {
            DrawError::MissingAttribute(Attribute::Position) => "Failed to get `a_vertex_position` attribute",
            DrawError::MissingBuffer(Attribute::Position) => "Failed to get `a_vertex_position` attribute",
            DrawError::MissingAttribute(Attribute::Color) => "Failed to get `a_vertex_color` attribute",
            DrawError::MissingBuffer(Attribute::Color) => "Failed to get `a_vertex_color` attribute",
            DrawError::MissingUniform(Uniform::Projection) => "Failed to get `u_projection_matrix` uniform",
            DrawError::MissingUniform(Uniform::ModelView) => "Failed to get `u_model_view_matrix` uniform",
            DrawError::MissingUniform(Uniform::Time) => "Failed to get `u_time` uniform",
        }
    }
}

/// Tightly packed floats read straight from the start of an array buffer.
pub open spec fn layout_of(a: Attribute) -> AttribLayout {
    AttribLayout {
        target: BufferTarget::Array,
        num_components: component_count(a),
        element: ElementType::Float,
        normalize: false,
        stride: 0,
        offset: 0,
    }
}

/// Binding an attribute: find its slot, then the buffer that feeds it.
pub open spec fn attribute_step(
    a: Attribute,
    attribs: Seq<(String, i32)>,
    buffer_keys: Seq<Seq<char>>,
) -> Result<FrameCommand, DrawError> {
    match lookup(keys_of(attribs), attribute_name(a)) {
        None => Err(DrawError::MissingAttribute(a)),
        Some(i) => match lookup(buffer_keys, buffer_name(a)) {
            None => Err(DrawError::MissingBuffer(a)),
            Some(b) => Ok(
                FrameCommand::BindAttribute {
                    buffer: b as usize,
                    slot: #[verifier::truncate] (attribs[i].1 as u32),
                    layout: layout_of(a),
                },
            ),
        },
    }
}

/// Uploading a uniform: find its location.
pub open spec fn uniform_step(u: Uniform, uniform_keys: Seq<Seq<char>>) -> Result<
    FrameCommand,
    DrawError,
> {
    match lookup(uniform_keys, uniform_name(u)) {
        None => Err(DrawError::MissingUniform(u)),
        Some(l) => Ok(FrameCommand::UploadUniform { location: l as usize, value: u }),
    }
}

/// The single draw of a frame: the quad's four vertices as a triangle strip.
pub open spec fn quad_draw() -> FrameCommand {
    FrameCommand::DrawArrays { mode: DrawMode::TriangleStrip, first: 0, count: 4 }
}

/// The steps of a frame in order, each a command or the failure that stops the frame.
pub open spec fn frame_steps(
    attribs: Seq<(String, i32)>,
    uniform_keys: Seq<Seq<char>>,
    buffer_keys: Seq<Seq<char>>,
) -> Seq<Result<FrameCommand, DrawError>> {
    seq![
        Ok(FrameCommand::ClearColor),
        Ok(FrameCommand::EnableDepthTest),
        Ok(FrameCommand::DepthFuncLessOrEqual),
        Ok(FrameCommand::ClearColorAndDepth),
        Ok(FrameCommand::ComputeMatrices),
        attribute_step(Attribute::Position, attribs, buffer_keys),
        attribute_step(Attribute::Color, attribs, buffer_keys),
        Ok(FrameCommand::UseProgram),
        uniform_step(Uniform::Projection, uniform_keys),
        uniform_step(Uniform::ModelView, uniform_keys),
        uniform_step(Uniform::Time, uniform_keys),
        Ok(quad_draw()),
    ]
}

/// Runs steps in order: the commands before the first failure, and that failure.
pub open spec fn settle(steps: Seq<Result<FrameCommand, DrawError>>) -> (
    Seq<FrameCommand>,
    Result<(), DrawError>,
)
    decreases steps.len(),
{
    if steps.len() == 0 {
        (seq![], Ok(()))
    } else {
        let (done, outcome) = settle(steps.drop_last());
        match outcome {
            Err(e) => (done, Err(e)),
            Ok(_) => match steps.last() {
                Ok(c) => (done.push(c), Ok(())),
                Err(e) => (done, Err(e)),
            },
        }
    }
}

/// The frame that a program and a buffer set give.
pub open spec fn scene_plan<P, U, B>(info: ProgramInfo<P, U>, buffers: Seq<(String, B)>) -> (
    Seq<FrameCommand>,
    Result<(), DrawError>,
) {
    settle(
        frame_steps(info.attrib_locations@, keys_of(info.uniform_locations@), keys_of(buffers)),
    )
}

impl AttribLayout {
    pub fn for_attribute(a: Attribute) -> (r: AttribLayout)
        ensures
            r == layout_of(a),
    {
        AttribLayout {
            target: BufferTarget::Array,
            num_components: a.component_count(),
            element: ElementType::Float,
            normalize: false,
            stride: 0,
            offset: 0,
        }
    }
}

fn attribute_binding<B>(
    a: Attribute,
    attribs: &Vec<(String, i32)>,
    buffers: &Vec<(String, B)>,
) -> (r: Result<FrameCommand, DrawError>)
    ensures
        r == attribute_step(a, attribs@, keys_of(buffers@)),
{
    match find_key(attribs, a.name()) {
        None => Err(DrawError::MissingAttribute(a)),
        Some(i) => match find_key(buffers, a.buffer_name()) {
            None => Err(DrawError::MissingBuffer(a)),
            Some(b) => Ok(
                FrameCommand::BindAttribute {
                    buffer: b,
                    slot: #[verifier::truncate] (attribs[i].1 as u32),
                    layout: AttribLayout::for_attribute(a),
                },
            ),
        },
    }
}

fn uniform_binding<U>(u: Uniform, uniforms: &Vec<(String, U)>) -> (r: Result<
    FrameCommand,
    DrawError,
>)
    ensures
        r == uniform_step(u, keys_of(uniforms@)),
{
    match find_key(uniforms, u.name()) {
        None => Err(DrawError::MissingUniform(u)),
        Some(l) => Ok(FrameCommand::UploadUniform { location: l, value: u }),
    }
}

/// Runs steps in order, stopping at the first failure.
pub fn settle_steps(steps: &Vec<Result<FrameCommand, DrawError>>) -> (r: FramePlan)
    ensures
        (r.commands@, r.outcome) == settle(steps@),
{
    let mut commands: Vec<FrameCommand> = Vec::new();
    let mut outcome: Result<(), DrawError> = Ok(());
    let mut i: usize = 0;
    while i < steps.len()
        invariant
            i <= steps@.len(),
            (commands@, outcome) == settle(steps@.take(i as int)),
        decreases steps@.len() - i,
    {
        assert(steps@.take(i as int + 1).drop_last() == steps@.take(i as int));
        if outcome.is_ok() {
            match steps[i] {
                Ok(c) => commands.push(c),
                Err(e) => outcome = Err(e),
            }
        }
        i = i + 1;
    }
    assert(steps@.take(i as int) == steps@);
    FramePlan { commands, outcome }
}

/// Decides what one frame of the quad issues: clear, bind the position and
/// color buffers, activate the program, upload the two matrices and the
/// time, and draw four vertices as a triangle strip. A name missing from the
/// program's tables or from the buffer set stops the frame there.
pub fn plan_scene<P, U, B>(info: &ProgramInfo<P, U>, buffers: &Vec<(String, B)>) -> (r: FramePlan)
    ensures
        (r.commands@, r.outcome) == scene_plan(*info, buffers@),
{
    let mut steps: Vec<Result<FrameCommand, DrawError>> = Vec::new();
    steps.push(Ok(FrameCommand::ClearColor));
    steps.push(Ok(FrameCommand::EnableDepthTest));
    steps.push(Ok(FrameCommand::DepthFuncLessOrEqual));
    steps.push(Ok(FrameCommand::ClearColorAndDepth));
    steps.push(Ok(FrameCommand::ComputeMatrices));
    steps.push(attribute_binding(Attribute::Position, &info.attrib_locations, buffers));
    steps.push(attribute_binding(Attribute::Color, &info.attrib_locations, buffers));
    steps.push(Ok(FrameCommand::UseProgram));
    steps.push(uniform_binding(Uniform::Projection, &info.uniform_locations));
    steps.push(uniform_binding(Uniform::ModelView, &info.uniform_locations));
    steps.push(uniform_binding(Uniform::Time, &info.uniform_locations));
    steps.push(Ok(FrameCommand::DrawArrays { mode: DrawMode::TriangleStrip, first: 0, count: 4 }));
    assert(steps@ == frame_steps(
        info.attrib_locations@,
        keys_of(info.uniform_locations@),
        keys_of(buffers@),
    ));
    settle_steps(&steps)
}

/// The commands that a run of steps holds, all of them successes.
pub open spec fn ok_values(steps: Seq<Result<FrameCommand, DrawError>>) -> Seq<FrameCommand> {
    steps.map_values(|s: Result<FrameCommand, DrawError>| s->Ok_0)
}

pub open spec fn all_ok(steps: Seq<Result<FrameCommand, DrawError>>) -> bool {
    forall|j: int| 0 <= j < steps.len() ==> steps[j] is Ok
}

/// Steps that all succeed issue every command and complete.
pub proof fn lemma_settle_all_ok(steps: Seq<Result<FrameCommand, DrawError>>)
    requires
        all_ok(steps),
    ensures
        settle(steps) == (ok_values(steps), Ok::<(), DrawError>(())),
    decreases steps.len(),
{
    if steps.len() > 0 {
        let rest = steps.drop_last();
        lemma_settle_all_ok(rest);
        assert(ok_values(rest).push(steps.last()->Ok_0) == ok_values(steps));
    }
}

/// Steps stop at their first failure: the commands before it are issued,
/// and that failure is the outcome.
pub proof fn lemma_settle_first_err(steps: Seq<Result<FrameCommand, DrawError>>, k: int)
    requires
        0 <= k < steps.len(),
        all_ok(steps.take(k)),
        steps[k] is Err,
    ensures
        settle(steps) == (ok_values(steps.take(k)), Err::<(), DrawError>(steps[k]->Err_0)),
    decreases steps.len(),
{
    let rest = steps.drop_last();
    if k == steps.len() - 1 {
        assert(rest == steps.take(k));
        lemma_settle_all_ok(rest);
    } else {
        assert(rest.take(k) == steps.take(k));
        lemma_settle_first_err(rest, k);
    }
}

/// A step that succeeds in a frame is never a draw, but for the last one.
proof fn lemma_only_last_step_draws(
    attribs: Seq<(String, i32)>,
    uniform_keys: Seq<Seq<char>>,
    buffer_keys: Seq<Seq<char>>,
    j: int,
)
    requires
        0 <= j < 11,
        frame_steps(attribs, uniform_keys, buffer_keys)[j] is Ok,
    ensures
        !(frame_steps(attribs, uniform_keys, buffer_keys)[j]->Ok_0 is DrawArrays),
{
}

/// A program without the position attribute fails the frame with that
/// lookup failure, after the clearing and the matrices and before any draw.
pub proof fn lemma_missing_position_never_draws<P, U, B>(
    info: ProgramInfo<P, U>,
    buffers: Seq<(String, B)>,
)
    requires
        !keys_of(info.attrib_locations@).contains(attribute_name(Attribute::Position)),
    ensures
        scene_plan(info, buffers).1 == Err::<(), DrawError>(
            DrawError::MissingAttribute(Attribute::Position),
        ),
        scene_plan(info, buffers).0 == seq![
            FrameCommand::ClearColor,
            FrameCommand::EnableDepthTest,
            FrameCommand::DepthFuncLessOrEqual,
            FrameCommand::ClearColorAndDepth,
            FrameCommand::ComputeMatrices,
        ],
{
    let steps = frame_steps(
        info.attrib_locations@,
        keys_of(info.uniform_locations@),
        keys_of(buffers),
    );
    assert(lookup(keys_of(info.attrib_locations@), attribute_name(Attribute::Position)) is None);
    lemma_settle_first_err(steps, 5);
    assert(ok_values(steps.take(5)) == seq![
        FrameCommand::ClearColor,
        FrameCommand::EnableDepthTest,
        FrameCommand::DepthFuncLessOrEqual,
        FrameCommand::ClearColorAndDepth,
        FrameCommand::ComputeMatrices,
    ]);
}

/// A program without the time uniform fails the frame, and no draw call is issued.
pub proof fn lemma_missing_time_never_draws<P, U, B>(
    info: ProgramInfo<P, U>,
    buffers: Seq<(String, B)>,
)
    requires
        !keys_of(info.uniform_locations@).contains(uniform_name(Uniform::Time)),
    ensures
        scene_plan(info, buffers).1 is Err,
        forall|j: int|
            0 <= j < scene_plan(info, buffers).0.len() ==> !(#[trigger] scene_plan(
                info,
                buffers,
            ).0[j] is DrawArrays),
{
    let (a, u, b) = (info.attrib_locations@, keys_of(info.uniform_locations@), keys_of(buffers));
    let steps = frame_steps(a, u, b);
    assert(lookup(u, uniform_name(Uniform::Time)) is None);
    let k: int = if steps[5] is Err {
        5
    } else if steps[6] is Err {
        6
    } else if steps[8] is Err {
        8
    } else if steps[9] is Err {
        9
    } else {
        10
    };
    assert(all_ok(steps.take(k)));
    lemma_settle_first_err(steps, k);
    assert forall|j: int| 0 <= j < k implies !(#[trigger] ok_values(steps.take(k))[j] is DrawArrays) by {
        lemma_only_last_step_draws(a, u, b, j);
    }
}

/// The names that a frame looks up are all present.
pub open spec fn tables_complete<P, U, B>(info: ProgramInfo<P, U>, buffers: Seq<(String, B)>) -> bool {
    &&& keys_of(info.attrib_locations@).contains(attribute_name(Attribute::Position))
    &&& keys_of(info.attrib_locations@).contains(attribute_name(Attribute::Color))
    &&& keys_of(info.uniform_locations@).contains(uniform_name(Uniform::Projection))
    &&& keys_of(info.uniform_locations@).contains(uniform_name(Uniform::ModelView))
    &&& keys_of(info.uniform_locations@).contains(uniform_name(Uniform::Time))
    &&& keys_of(buffers).contains(buffer_name(Attribute::Position))
    &&& keys_of(buffers).contains(buffer_name(Attribute::Color))
}

/// With every name present a frame completes, and its one draw call is the
/// last command: four vertices from offset 0 as a triangle strip.
pub proof fn lemma_complete_tables_draw_once<P, U, B>(
    info: ProgramInfo<P, U>,
    buffers: Seq<(String, B)>,
)
    requires
        tables_complete(info, buffers),
    ensures
        scene_plan(info, buffers).1 == Ok::<(), DrawError>(()),
        scene_plan(info, buffers).0.len() == 12,
        scene_plan(info, buffers).0.last() == quad_draw(),
        forall|j: int|
            0 <= j < 11 ==> !(#[trigger] scene_plan(info, buffers).0[j] is DrawArrays),
{
    let (a, u, b) = (info.attrib_locations@, keys_of(info.uniform_locations@), keys_of(buffers));
    let steps = frame_steps(a, u, b);
    assert(lookup(keys_of(a), attribute_name(Attribute::Position)) is Some);
    assert(lookup(keys_of(a), attribute_name(Attribute::Color)) is Some);
    assert(lookup(u, uniform_name(Uniform::Projection)) is Some);
    assert(lookup(u, uniform_name(Uniform::ModelView)) is Some);
    assert(lookup(u, uniform_name(Uniform::Time)) is Some);
    assert(lookup(b, buffer_name(Attribute::Position)) is Some);
    assert(lookup(b, buffer_name(Attribute::Color)) is Some);
    assert(all_ok(steps));
    lemma_settle_all_ok(steps);
    assert forall|j: int| 0 <= j < 11 implies !(#[trigger] ok_values(steps)[j] is DrawArrays) by {
        lemma_only_last_step_draws(a, u, b, j);
    }
}

/// What a run of steps issues is the successful prefix of the steps.
pub proof fn lemma_settle_prefix(steps: Seq<Result<FrameCommand, DrawError>>)
    ensures
        settle(steps).0.len() <= steps.len(),
        all_ok(steps.take(settle(steps).0.len() as int)),
        settle(steps).0 == ok_values(steps.take(settle(steps).0.len() as int)),
    decreases steps.len(),
{
    if steps.len() > 0 {
        let rest = steps.drop_last();
        lemma_settle_prefix(rest);
        let n = settle(rest).0.len() as int;
        assert(rest.take(n) == steps.take(n));
        if settle(rest).1 is Ok && steps.last() is Ok {
            assert(n == rest.len()) by {
                if n < rest.len() {
                    lemma_settle_ok_is_whole(rest);
                }
            }
            assert(steps.take(n + 1) == steps);
            assert(ok_values(steps.take(n)).push(steps.last()->Ok_0) == ok_values(steps));
        }
    }
}

/// A run of steps that completes has issued one command per step.
proof fn lemma_settle_ok_is_whole(steps: Seq<Result<FrameCommand, DrawError>>)
    ensures
        settle(steps).1 is Ok ==> settle(steps).0.len() == steps.len(),
    decreases steps.len(),
{
    if steps.len() > 0 {
        lemma_settle_ok_is_whole(steps.drop_last());
    }
}

/// Every frame, whatever its time, reads the buffers and uniform locations it
/// uses out of the tables it was handed, by position and under the names it
/// needs: a frame creates no handle and reuses the ones given at startup.
pub proof fn lemma_frames_reuse_handles<P, U, B>(info: ProgramInfo<P, U>, buffers: Seq<(String, B)>)
    requires
        buffers.len() <= usize::MAX,
        info.uniform_locations@.len() <= usize::MAX,
    ensures
        forall|j: int|
            0 <= j < scene_plan(info, buffers).0.len() ==> match #[trigger] scene_plan(
                info,
                buffers,
            ).0[j] {
                FrameCommand::BindAttribute { buffer, .. } => buffer < buffers.len() && (
                keys_of(buffers)[buffer as int] == buffer_name(Attribute::Position)
                    || keys_of(buffers)[buffer as int] == buffer_name(Attribute::Color)),
                FrameCommand::UploadUniform { location, value } => location
                    < info.uniform_locations@.len() && keys_of(info.uniform_locations@)[location as int]
                    == uniform_name(value),
                _ => true,
            },
{
    let (a, u, b) = (info.attrib_locations@, keys_of(info.uniform_locations@), keys_of(buffers));
    let steps = frame_steps(a, u, b);
    lemma_settle_prefix(steps);
    lemma_lookup_found(b, buffer_name(Attribute::Position));
    lemma_lookup_found(b, buffer_name(Attribute::Color));
    lemma_lookup_found(u, uniform_name(Uniform::Projection));
    lemma_lookup_found(u, uniform_name(Uniform::ModelView));
    lemma_lookup_found(u, uniform_name(Uniform::Time));
    let plan = scene_plan(info, buffers).0;
    assert forall|j: int| 0 <= j < plan.len() implies match #[trigger] plan[j] {
        FrameCommand::BindAttribute { buffer, .. } => buffer < buffers.len() && (
        keys_of(buffers)[buffer as int] == buffer_name(Attribute::Position)
            || keys_of(buffers)[buffer as int] == buffer_name(Attribute::Color)),
        FrameCommand::UploadUniform { location, value } => location
            < info.uniform_locations@.len() && keys_of(info.uniform_locations@)[location as int]
            == uniform_name(value),
        _ => true,
    } by {
        assert(steps.take(plan.len() as int)[j] == steps[j]);
        assert(steps[j] is Ok);
        assert(plan[j] == steps[j]->Ok_0);
        assert(keys_of(buffers).len() == buffers.len());
        assert(u.len() == info.uniform_locations@.len());
        if j == 5 {
            assert(lookup(b, buffer_name(Attribute::Position)) is Some);
        } else if j == 6 {
            assert(lookup(b, buffer_name(Attribute::Color)) is Some);
        } else if j == 8 {
            assert(lookup(u, uniform_name(Uniform::Projection)) is Some);
        } else if j == 9 {
            assert(lookup(u, uniform_name(Uniform::ModelView)) is Some);
        } else if j == 10 {
            assert(lookup(u, uniform_name(Uniform::Time)) is Some);
        }
    }
}

} // verus!
