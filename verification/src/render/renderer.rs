//! The renderer's own rules: how many surfaces it draws, what it records for them, and the
//! words of its programs.

use vstd::prelude::*;

use crate::error::{plain_error, DetailView, Error, ErrorCode, ErrorView};
use crate::id::TraceId;
use crate::render::facts::TextureRoute;

verus! {

/// How many surfaces a renderer draws in one frame unless told otherwise.
pub const DEFAULT_MAX_SURFACES_PER_FRAME: u32 = 32;

/// The bytes that are handed to the program of a surface: sixteen numbers of four bytes.
pub const PUSH_CONSTANT_BYTES: u32 = 64;

/// The corners of a surface.
pub const QUAD_VERTEX_COUNT: u32 = 4;

/// Whether a renderer can be made for so many surfaces.
pub fn check_max_surfaces(max_surfaces: u32) -> (r: Result<(), Error>)
    ensures
        r is Ok <==> max_surfaces > 0,
        r matches Err(e) ==> e@ == plain_error(
            ErrorCode::InvalidArgument,
            "the renderer must be able to draw at least one surface"@,
        ),
{
    if max_surfaces == 0 {
        return Err(
            Error::new(
                ErrorCode::InvalidArgument,
                "the renderer must be able to draw at least one surface",
                TraceId::unattributed(),
            ),
        );
    }
    Ok(())
}

/// The error of more surfaces than can be drawn.
pub open spec fn too_many_surfaces(submitted: usize, max_surfaces: u32) -> ErrorView {
    plain_error(
        ErrorCode::InvalidArgument,
        "more surfaces were submitted than the descriptor pool was sized for"@,
    ).with("submitted"@, DetailView::Int(submitted as i64 as int)).with(
        "max_surfaces"@,
        DetailView::Int(max_surfaces as int),
    )
}

/// Whether a frame with so many surfaces can be drawn. No surface at all can: the
/// background is drawn all the same.
pub fn check_surface_count(submitted: usize, max_surfaces: u32) -> (r: Result<(), Error>)
    ensures
        r is Ok <==> submitted <= max_surfaces,
        r matches Err(e) ==> e@ == too_many_surfaces(submitted, max_surfaces),
        submitted == 0 ==> r is Ok,
{
    if submitted as u64 > max_surfaces as u64 {
        return Err(
            Error::new(
                ErrorCode::InvalidArgument,
                "more surfaces were submitted than the descriptor pool was sized for",
                TraceId::unattributed(),
            ).with_detail("submitted", submitted as i64).with_detail(
                "max_surfaces",
                max_surfaces as i64,
            ),
        );
    }
    Ok(())
}

/// What is recorded for one view.
#[derive(Debug, Clone, Copy, PartialEq, Eq, Structural)]
pub enum DrawCommand {
    /// Begin the pass, which writes the background over every pixel.
    BeginPass,
    /// Set the rectangle that is drawn to.
    SetViewport,
    /// Set the rectangle outside of which nothing is drawn.
    SetScissor,
    /// Take the program.
    BindPipeline,
    /// Take the texture of a surface.
    BindSurface { surface: usize },
    /// Hand over where a surface stands.
    PushMatrix { surface: usize, bytes: u32 },
    /// Draw a surface.
    DrawQuad { surface: usize, vertices: u32 },
    /// End the pass.
    EndPass,
}

/// The commands of one surface.
pub open spec fn surface_commands(surface: int) -> Seq<DrawCommand> {
    seq![
        DrawCommand::BindSurface { surface: surface as usize },
        DrawCommand::PushMatrix { surface: surface as usize, bytes: PUSH_CONSTANT_BYTES },
        DrawCommand::DrawQuad { surface: surface as usize, vertices: QUAD_VERTEX_COUNT },
    ]
}

/// The commands of the first `count` surfaces.
pub open spec fn all_surface_commands(count: int) -> Seq<DrawCommand>
    decreases count,
{
    if count <= 0 {
        Seq::empty()
    } else {
        all_surface_commands(count - 1) + surface_commands(count - 1)
    }
}

/// The commands of one view: the background first, then the surfaces in order.
pub open spec fn view_commands(count: int) -> Seq<DrawCommand> {
    seq![
        DrawCommand::BeginPass,
        DrawCommand::SetViewport,
        DrawCommand::SetScissor,
        DrawCommand::BindPipeline,
    ] + all_surface_commands(count) + seq![DrawCommand::EndPass]
}

/// How one view is drawn.
#[derive(Debug)]
pub struct ViewPlan {
    /// What is recorded.
    pub commands: Vec<DrawCommand>,
    /// How the textures of the surfaces came.
    pub routes: Vec<TextureRoute>,
}

/// How a view with some surfaces is drawn, or that there are too many of them. Without any
/// surface the background is drawn all the same.
pub fn plan_view(surfaces: &[TextureRoute], max_surfaces: u32) -> (r: Result<ViewPlan, Error>)
    ensures
        r is Ok <==> surfaces@.len() <= max_surfaces,
        r matches Ok(plan) ==> {
            &&& plan.commands@ == view_commands(surfaces@.len() as int)
            &&& plan.routes@ == surfaces@
        },
        r matches Err(e) ==> e@ == too_many_surfaces(surfaces@.len() as usize, max_surfaces),
{
    match check_surface_count(surfaces.len(), max_surfaces) {
        Ok(()) => {},
        Err(e) => {
            return Err(e);
        },
    }
    let mut commands: Vec<DrawCommand> = Vec::new();
    commands.push(DrawCommand::BeginPass);
    commands.push(DrawCommand::SetViewport);
    commands.push(DrawCommand::SetScissor);
    commands.push(DrawCommand::BindPipeline);
    let ghost head = commands@;
    let mut routes: Vec<TextureRoute> = Vec::new();
    let mut i: usize = 0;
    assert(commands@ =~= head + all_surface_commands(0));
    while i < surfaces.len()
        invariant
            i <= surfaces.len(),
            commands@ == head + all_surface_commands(i as int),
            routes@ == surfaces@.take(i as int),
        decreases surfaces.len() - i,
    {
        commands.push(DrawCommand::BindSurface { surface: i });
        commands.push(DrawCommand::PushMatrix { surface: i, bytes: PUSH_CONSTANT_BYTES });
        commands.push(DrawCommand::DrawQuad { surface: i, vertices: QUAD_VERTEX_COUNT });
        routes.push(surfaces[i]);
        i = i + 1;
        assert(commands@ =~= head + (all_surface_commands(i - 1) + surface_commands(i - 1)));
        assert(routes@ =~= surfaces@.take(i as int));
    }
    commands.push(DrawCommand::EndPass);
    assert(commands@ =~= view_commands(surfaces@.len() as int));
    assert(routes@ =~= surfaces@);
    Ok(ViewPlan { commands, routes })
}

/// A view without surfaces is the background and nothing else.
pub proof fn law_background_needs_no_surface()
    ensures
        view_commands(0) == seq![
            DrawCommand::BeginPass,
            DrawCommand::SetViewport,
            DrawCommand::SetScissor,
            DrawCommand::BindPipeline,
            DrawCommand::EndPass,
        ],
{
    assert(view_commands(0) =~= seq![
        DrawCommand::BeginPass,
        DrawCommand::SetViewport,
        DrawCommand::SetScissor,
        DrawCommand::BindPipeline,
        DrawCommand::EndPass,
    ]);
}

/// Every surface of a view is drawn, each directly after its own texture and place were
/// taken, and the background comes before all of them.
pub proof fn law_every_surface_is_drawn(count: int, surface: int)
    requires
        0 <= surface < count <= usize::MAX,
    ensures
        view_commands(count).len() == 5 + 3 * count,
        view_commands(count)[0] == DrawCommand::BeginPass,
        view_commands(count).subrange(4 + 3 * surface, 7 + 3 * surface) == surface_commands(
            surface,
        ),
{
    lemma_surface_commands(count, surface);
    assert(view_commands(count).subrange(4 + 3 * surface, 7 + 3 * surface)
        =~= all_surface_commands(count).subrange(3 * surface, 3 * surface + 3));
}

proof fn lemma_surface_commands(count: int, surface: int)
    requires
        0 <= surface < count,
    ensures
        all_surface_commands(count).len() == 3 * count,
        all_surface_commands(count).subrange(3 * surface, 3 * surface + 3) == surface_commands(
            surface,
        ),
    decreases count,
{
    let before = all_surface_commands(count - 1);
    if count == 1 {
        assert(before =~= Seq::<DrawCommand>::empty());
    } else {
        lemma_surface_commands(count - 1, if surface < count - 1 {
            surface
        } else {
            0
        });
    }
    if surface < count - 1 {
        assert(all_surface_commands(count).subrange(3 * surface, 3 * surface + 3)
            =~= before.subrange(3 * surface, 3 * surface + 3));
    } else {
        assert(all_surface_commands(count).subrange(3 * surface, 3 * surface + 3)
            =~= surface_commands(surface));
    }
}

/// The word of four bytes, the lowest first.
pub open spec fn word_at(bytes: Seq<u8>, i: int) -> int {
    bytes[4 * i] + bytes[4 * i + 1] * 0x100 + bytes[4 * i + 2] * 0x1_0000 + bytes[4 * i + 3]
        * 0x100_0000
}

/// The words of a compiled program, which has to be a whole number of them.
pub fn spirv_words(bytes: &[u8]) -> (r: Result<Vec<u32>, Error>)
    ensures
        r is Ok <==> bytes@.len() % 4 == 0,
        r matches Ok(words) ==> words@.len() == bytes@.len() / 4 && forall|i: int|
            0 <= i < words@.len() ==> #[trigger] words@[i] == word_at(bytes@, i),
        r matches Err(e) ==> e@ == plain_error(
            ErrorCode::Internal,
            "the embedded SPIR-V is not a whole number of words"@,
        ).with("bytes"@, DetailView::Int(bytes@.len() as usize as i64 as int)),
{
    let total: usize = bytes.len();
    if total % 4 != 0 {
        return Err(
            Error::new(
                ErrorCode::Internal,
                "the embedded SPIR-V is not a whole number of words",
                TraceId::unattributed(),
            ).with_detail("bytes", total as i64),
        );
    }
    let mut words: Vec<u32> = Vec::new();
    let mut i: usize = 0;
    while i < total / 4
        invariant
            i <= total / 4,
            total == bytes@.len(),
            total % 4 == 0,
            words@.len() == i,
            forall|j: int| 0 <= j < i ==> #[trigger] words@[j] == word_at(bytes@, j),
        decreases total / 4 - i,
    {
        let at: usize = 4 * i;
        let word: u32 = bytes[at] as u32 + bytes[at + 1] as u32 * 0x100 + bytes[at + 2] as u32
            * 0x1_0000 + bytes[at + 3] as u32 * 0x100_0000;
        words.push(word);
        i = i + 1;
    }
    Ok(words)
}

} // verus!
