//! Compute passes, the order of their dispatches and the frame executor.
use vstd::prelude::*;
use crate::bind::{is_resolution, kinds_of, resolve, BindingKind, DeviceLimits, Resolution};
use crate::frame::{block_image, paired, FrameError, FrameSpec, FrameState};
use crate::precision::unit_clamped;
use crate::dialect::{expand, LocatedError, ProgramSpec};
use crate::pp::{
    library_view, outcome, strings_view, ErrorKind, ExpandedSource, IncludeFile, WGSLError,
};
use crate::utils::Named;

verus! {

/// How many workgroups a pass dispatches.
#[derive(Clone, Copy, Debug, PartialEq, Eq, Structural)]
pub enum DispatchSize {
    /// A literal number of workgroups in each dimension.
    Fixed { x: u32, y: u32, z: u32 },
    /// One workgroup for each tile of the screen; the tile is never empty.
    Screen { tile_x: u32, tile_y: u32 },
}

/// One compute entry point with its dispatch size and the slots it uses.
#[derive(Debug)]
pub struct PassDescriptor {
    pub name: String,
    pub dispatch: DispatchSize,
    /// The slots of the bindings that the pass reads or writes, as declared.
    pub uses: Vec<u32>,
    /// The 1-based source line of the declaration.
    pub line: usize,
}

/// The mathematical content of a [`PassDescriptor`].
pub struct PassSpec {
    pub name: Seq<char>,
    pub dispatch: DispatchSize,
    pub uses: Seq<u32>,
    pub line: nat,
}

impl View for PassDescriptor {
    type V = PassSpec;

    open spec fn view(&self) -> PassSpec {
        PassSpec {
            name: self.name@,
            dispatch: self.dispatch,
            uses: self.uses@,
            line: self.line as nat,
        }
    }
}

/// The contents of a vector of passes.
pub open spec fn passes_view(v: Seq<PassDescriptor>) -> Seq<PassSpec> {
    Seq::new(v.len(), |i: int| v[i]@)
}

/// The names of a list of passes, in order.
pub open spec fn pass_names(passes: Seq<PassSpec>) -> Seq<Seq<char>> {
    Seq::new(passes.len(), |i: int| passes[i].name)
}

impl Named for PassDescriptor {
    open spec fn name_view(&self) -> Seq<char> {
        self.name@
    }

    fn name_ref(&self) -> (s: &String) {
        &self.name
    }
}

/// The number of tiles of the given size that cover `extent`: the smallest
/// count whose tiles reach the end. An empty tile covers nothing.
pub open spec fn tiles(extent: u32, tile: u32) -> nat {
    if tile == 0 {
        0
    } else {
        ((extent + tile - 1) / (tile as int)) as nat
    }
}

/// The workgroups that a pass dispatches on a screen of the given size.
pub open spec fn workgroups(size: DispatchSize, width: u32, height: u32) -> (nat, nat, nat) {
    match size {
        DispatchSize::Fixed { x, y, z } => (x as nat, y as nat, z as nat),
        DispatchSize::Screen { tile_x, tile_y } => (tiles(width, tile_x), tiles(height, tile_y), 1),
    }
}

/// [`tiles`] is the least count of tiles that covers the extent.
pub proof fn tiles_cover_exactly(extent: u32, tile: u32)
    requires
        tile > 0,
    ensures
        tiles(extent, tile) * tile >= extent,
        extent > 0 ==> (tiles(extent, tile) - 1) * tile < extent,
        tiles(extent, tile) <= extent,
{
    let e = extent as int;
    let t = tile as int;
    let q = (e + t - 1) / t;
    assert(q * t >= e && (e > 0 ==> (q - 1) * t < e) && 0 <= q <= e) by (nonlinear_arith)
        requires
            q == (e + t - 1) / t,
            t > 0,
            e >= 0,
    ;
}

/// Computes [`tiles`].
pub fn tile_count(extent: u32, tile: u32) -> (count: u32)
    ensures
        count == tiles(extent, tile),
{
    if tile == 0 {
        return 0;
    }
    proof {
        tiles_cover_exactly(extent, tile);
    }
    let wide: u64 = (extent as u64 + tile as u64 - 1) / (tile as u64);
    wide as u32
}

/// One recorded dispatch: the index of the pass and its workgroup counts.
#[derive(Clone, Copy, Debug, PartialEq, Eq, Structural)]
pub struct Dispatch {
    pub pass: usize,
    pub x: u32,
    pub y: u32,
    pub z: u32,
}

/// Computes [`workgroups`].
pub fn resolve_dispatch(size: DispatchSize, width: u32, height: u32) -> (counts: (u32, u32, u32))
    ensures
        (counts.0 as nat, counts.1 as nat, counts.2 as nat) == workgroups(size, width, height),
{
    match size {
        DispatchSize::Fixed { x, y, z } => (x, y, z),
        DispatchSize::Screen { tile_x, tile_y } => (
            tile_count(width, tile_x),
            tile_count(height, tile_y),
            1,
        ),
    }
}

/// Whether `plan` dispatches every pass once, in the order of declaration,
/// with the workgroup counts that the pass has on a screen of the given size.
pub open spec fn is_frame_plan(
    plan: Seq<Dispatch>,
    passes: Seq<PassSpec>,
    width: u32,
    height: u32,
) -> bool {
    &&& plan.len() == passes.len()
    &&& forall|i: int|
        0 <= i < plan.len() ==> {
            &&& (#[trigger] plan[i]).pass == i
            &&& (plan[i].x as nat, plan[i].y as nat, plan[i].z as nat) == workgroups(
                passes[i].dispatch,
                width,
                height,
            )
        }
}

/// Records the dispatches of one frame: one for each pass, in the order in
/// which the passes were declared.
pub fn plan_dispatches(passes: &Vec<PassDescriptor>, width: u32, height: u32) -> (plan: Vec<
    Dispatch,
>)
    ensures
        is_frame_plan(plan@, passes_view(passes@), width, height),
{
    let mut plan: Vec<Dispatch> = Vec::new();
    let mut i: usize = 0;
    while i < passes.len()
        invariant
            i <= passes.len(),
            is_frame_plan(plan@, passes_view(passes@).take(i as int), width, height),
        decreases passes.len() - i,
    {
        let (x, y, z) = resolve_dispatch(passes[i].dispatch, width, height);
        plan.push(Dispatch { pass: i, x, y, z });
        i += 1;
    }
    assert(passes_view(passes@).take(passes.len() as int) =~= passes_view(passes@));
    plan
}

/// The line of the program that a line of the expanded source came from: the
/// entry of the map for that line, and 0 where the map has none.
pub open spec fn source_line(map: Seq<nat>, expanded_line: nat) -> nat {
    if 1 <= expanded_line <= map.len() {
        map[expanded_line - 1]
    } else {
        0
    }
}

/// What the shader compiler said of an expanded source that it rejected.
#[derive(Debug)]
pub struct CompilerMessage {
    pub message: String,
    /// The 1-based line of the expanded source, or 0 if none is known.
    pub line: usize,
}

/// What one frame sends to the device.
#[derive(Debug)]
pub struct FramePlan {
    /// The contents of the uniform block in slot 0.
    pub uniform: Vec<u8>,
    /// The dispatches, in the order in which they are recorded.
    pub dispatches: Vec<Dispatch>,
}

/// The mathematical content of a [`Renderer`].
pub struct RendererSpec {
    pub frame: FrameSpec,
    pub width: u32,
    pub height: u32,
    /// The program that runs, if one was installed.
    pub program: Option<ProgramSpec>,
    /// The kind and size of each slot of the program that runs.
    pub table: Seq<BindingKind>,
}

/// The frame executor: the frame state, the size of the screen and the program
/// that currently runs.
#[derive(Debug)]
pub struct Renderer {
    state: FrameState,
    width: u32,
    height: u32,
    program: Option<ExpandedSource>,
    table: Vec<BindingKind>,
}

impl View for Renderer {
    type V = RendererSpec;

    closed spec fn view(&self) -> RendererSpec {
        RendererSpec {
            frame: self.state@,
            width: self.width,
            height: self.height,
            program: match self.program {
                Some(program) => Some(program@),
                None => None,
            },
            table: self.table@,
        }
    }
}

impl Renderer {
    /// An executor for a screen of the given size, with no program yet.
    pub fn new(width: u32, height: u32) -> (renderer: Renderer)
        ensures
            renderer@ == (RendererSpec {
                frame: FrameSpec::initial(),
                width,
                height,
                program: None,
                table: Seq::empty(),
            }),
    {
        let state = FrameState::new();
        let renderer = Renderer { state, width, height, program: None, table: Vec::new() };
        assert(renderer@.table =~= Seq::empty());
        renderer
    }

    /// Sets the elapsed time in seconds.
    pub fn set_time_elapsed(&mut self, seconds: u32)
        ensures
            final(self)@ == (RendererSpec {
                frame: FrameSpec { time: seconds, ..old(self)@.frame },
                ..old(self)@
            }),
    {
        self.state.set_time_elapsed(seconds);
    }

    /// Sets the position of the pointer, each coordinate clamped to the range
    /// from 0.0 to 1.0.
    pub fn set_mouse_pos(&mut self, x: u32, y: u32)
        ensures
            final(self)@ == (RendererSpec {
                frame: FrameSpec {
                    mouse_x: unit_clamped(x),
                    mouse_y: unit_clamped(y),
                    ..old(self)@.frame
                },
                ..old(self)@
            }),
    {
        self.state.set_mouse_pos(x, y);
    }

    /// Sets whether the pointer is pressed.
    pub fn set_mouse_click(&mut self, pressed: bool)
        ensures
            final(self)@ == (RendererSpec {
                frame: FrameSpec { mouse_click: pressed, ..old(self)@.frame },
                ..old(self)@
            }),
    {
        self.state.set_mouse_click(pressed);
    }

    /// Chooses the precision of the custom uniforms. The program that runs
    /// keeps its layout; the choice holds from the next call of
    /// [`Renderer::preprocess`].
    pub fn set_pass_f32(&mut self, full: bool)
        ensures
            final(self)@ == (RendererSpec {
                frame: FrameSpec { pass_f32: full, ..old(self)@.frame },
                ..old(self)@
            }),
    {
        self.state.set_pass_f32(full);
    }

    /// Replaces all custom uniforms by the given names with the given values.
    /// Lists of different lengths are refused, and nothing changes.
    pub fn set_custom_floats(&mut self, names: Vec<String>, values: Vec<u32>) -> (r: Result<
        (),
        FrameError,
    >)
        ensures
            names.len() == values.len() ==> r is Ok && final(self)@ == (RendererSpec {
                frame: FrameSpec {
                    custom: paired(strings_view(names@), values@),
                    ..old(self)@.frame
                },
                ..old(self)@
            }),
            names.len() != values.len() ==> r == Err::<(), FrameError>(
                FrameError::LengthMismatch { names: names.len(), values: values.len() },
            ) && final(self)@ == old(self)@,
    {
        self.state.set_custom_floats(names, values)
    }

    /// Takes over a new size of the screen, in pixels. A size with no pixels
    /// is refused, and nothing changes.
    pub fn resize(&mut self, width: u32, height: u32) -> (accepted: bool)
        ensures
            accepted == (width > 0 && height > 0),
            accepted ==> final(self)@ == (RendererSpec { width, height, ..old(self)@ }),
            !accepted ==> final(self)@ == old(self)@,
    {
        if width == 0 || height == 0 {
            return false;
        }
        self.width = width;
        self.height = height;
        true
    }

    /// The frame state.
    pub fn state(&self) -> (state: &FrameState)
        ensures
            state@ == self@.frame,
    {
        &self.state
    }

    /// The size of the screen, in pixels.
    pub fn size(&self) -> (size: (u32, u32))
        ensures
            size == (self@.width, self@.height),
    {
        (self.width, self.height)
    }

    /// The program that runs, if one was installed.
    pub fn program(&self) -> (program: Option<&ExpandedSource>)
        ensures
            match program {
                Some(p) => self@.program == Some(p@),
                None => self@.program is None,
            },
    {
        self.program.as_ref()
    }

    /// Expands a program in the precision that was chosen last.
    pub fn preprocess(&self, source: &str, library: &Vec<IncludeFile>) -> (r: Result<
        ExpandedSource,
        WGSLError,
    >)
        ensures
            outcome(r) == expand(source@, library_view(library@), self@.frame.pass_f32),
    {
        crate::pp::preprocess(source, library, self.state.pass_f32())
    }

    /// Reconciles the bindings of an expanded program with the storage of the
    /// program that runs, and changes nothing yet.
    pub fn plan_build(&self, expanded: &ExpandedSource, limits: &DeviceLimits) -> (r: Result<
        Resolution,
        WGSLError,
    >)
        ensures
            is_resolution(r, self@.table, expanded@.bindings, *limits),
    {
        resolve(&self.table, &expanded.bindings, limits)
    }

    /// Ends a build. Where the shader compiler accepted the expanded source,
    /// the program replaces the one that runs. Where it did not, the program
    /// that runs stays, and the error locates the message in the program as
    /// it was written.
    pub fn finish_build(&mut self, expanded: ExpandedSource, failure: Option<CompilerMessage>) -> (r:
        Result<(), WGSLError>)
        ensures
            match failure {
                None => r is Ok && final(self)@ == (RendererSpec {
                    program: Some(expanded@),
                    table: kinds_of(expanded@.bindings),
                    ..old(self)@
                }),
                Some(said) => r is Err && final(self)@ == old(self)@ && r->Err_0@ == (LocatedError {
                    kind: ErrorKind::Compile,
                    summary: said.message@,
                    line: source_line(expanded@.map, said.line as nat),
                }),
            },
    {
        match failure {
            Some(said) => {
                let line = if 1 <= said.line && said.line <= expanded.map.len() {
                    expanded.map[said.line - 1]
                } else {
                    0
                };
                Err(WGSLError::with_kind(ErrorKind::Compile, said.message, line))
            },
            None => {
                let mut table: Vec<BindingKind> = Vec::new();
                let mut i: usize = 0;
                while i < expanded.bindings.len()
                    invariant
                        i <= expanded.bindings.len(),
                        table.len() == i,
                        forall|k: int| 0 <= k < i ==> table@[k] == expanded.bindings[k].kind,
                    decreases expanded.bindings.len() - i,
                {
                    table.push(expanded.bindings[i].kind);
                    i += 1;
                }
                assert(table@ =~= kinds_of(expanded@.bindings));
                self.table = table;
                self.program = Some(expanded);
                Ok(())
            },
        }
    }

    /// What the next frame sends to the device: the uniform block as the
    /// frame state fills it, and one dispatch for each pass of the program
    /// that runs, in the order of declaration, sized for the current screen.
    /// `None` while no program runs.
    pub fn frame(&self) -> (r: Option<FramePlan>)
        ensures
            match self@.program {
                None => r is None,
                Some(program) => r is Some && r->0.uniform@ == block_image(
                    self@.frame,
                    program.uniforms,
                    program.full_precision,
                ) && is_frame_plan(r->0.dispatches@, program.passes, self@.width, self@.height),
            },
    {
        match &self.program {
            None => None,
            Some(program) => {
                let uniform = self.state.uniform_block(&program.uniforms, program.full_precision);
                let dispatches = plan_dispatches(&program.passes, self.width, self.height);
                Some(FramePlan { uniform, dispatches })
            },
        }
    }
}

} // verus!
