use vstd::prelude::*;

verus! {

/// One device operation of the per-frame pipeline.
#[derive(Copy, Clone, Debug, PartialEq, Eq, Structural)]
pub enum FrameOp {
    /// Overwrite the constant buffer with transform, projection and light.
    WriteConstants,
    /// Clear the render target to the background colour.
    ClearTarget,
    /// Bind input layout, vertex buffer (with its stride) and index buffer.
    BindInputAssembler,
    /// Bind vertex shader and constant buffer.
    BindVertexShader,
    /// Bind rasterizer state and viewport.
    BindRasterizer,
    /// Bind pixel shader, texture view and sampler state.
    BindPixelShader,
    /// Bind render target and depth-stencil state.
    BindRenderTarget,
    /// Draw `index_count` indices.
    DrawIndexed { index_count: u32 },
    /// Present the frame.
    Present,
}

/// The operations of one frame, in the order the device must receive them.
pub open spec fn frame_sequence(index_count: u32) -> Seq<FrameOp> {
    seq![
        FrameOp::WriteConstants,
        FrameOp::ClearTarget,
        FrameOp::BindInputAssembler,
        FrameOp::BindVertexShader,
        FrameOp::BindRasterizer,
        FrameOp::BindPixelShader,
        FrameOp::BindRenderTarget,
        FrameOp::DrawIndexed { index_count },
        FrameOp::Present,
    ]
}

/// The operations of one frame that draws `index_count` indices.
pub fn frame_ops(index_count: u32) -> (r: Vec<FrameOp>)
    ensures
        r@ == frame_sequence(index_count),
{
    let r: Vec<FrameOp> = vec![
        FrameOp::WriteConstants,
        FrameOp::ClearTarget,
        FrameOp::BindInputAssembler,
        FrameOp::BindVertexShader,
        FrameOp::BindRasterizer,
        FrameOp::BindPixelShader,
        FrameOp::BindRenderTarget,
        FrameOp::DrawIndexed { index_count },
        FrameOp::Present,
    ];
    assert(r@ =~= frame_sequence(index_count));
    r
}

/// Per-frame rotation step about the x axis, in milliradians.
pub const STEP_X_MRAD: u64 = 5;

/// Per-frame rotation step about the y axis, in milliradians.
pub const STEP_Y_MRAD: u64 = 9;

/// Per-frame rotation step about the z axis, in milliradians.
pub const STEP_Z_MRAD: u64 = 1;

/// Largest number of frames whose rotation is representable.
pub const MAX_FRAMES: u64 = 0x1000_0000_0000_0000;

/// Model rotation about the three axes, in whole milliradians. Angles grow
/// without wrapping: they only feed periodic functions.
#[derive(Copy, Clone, Debug, PartialEq, Eq, Structural)]
pub struct Rotation {
    pub x_mrad: u64,
    pub y_mrad: u64,
    pub z_mrad: u64,
}

/// The rotation `n` steps from rest; frame `n` (counting from one) is drawn with it.
pub open spec fn rotation_after(n: nat) -> Rotation {
    Rotation {
        x_mrad: (n * STEP_X_MRAD) as u64,
        y_mrad: (n * STEP_Y_MRAD) as u64,
        z_mrad: (n * STEP_Z_MRAD) as u64,
    }
}

/// The two states of the frame loop.
#[derive(Copy, Clone, Debug, PartialEq, Eq, Structural)]
pub enum LoopState {
    Running,
    Terminated,
}

/// What the loop must do after one poll of the event source.
#[derive(Copy, Clone, Debug, PartialEq, Eq, Structural)]
pub enum LoopAction {
    /// Leave the loop: no further frame is drawn.
    Exit,
    /// Draw one frame with the model at `rotation`.
    Draw { rotation: Rotation },
}

/// Decisions of the frame loop: when to stop, and the animation state.
pub struct FrameLoop {
    pub state: LoopState,
    pub frames_drawn: u64,
    pub rotation: Rotation,
}

impl FrameLoop {
    /// The loop's invariant: the rotation is the one reached after the
    /// frames drawn so far.
    pub open spec fn wf(&self) -> bool {
        &&& self.frames_drawn <= MAX_FRAMES
        &&& self.rotation == rotation_after(self.frames_drawn as nat)
    }

    /// A running loop that has drawn nothing, with the model at rest.
    pub fn new() -> (r: FrameLoop)
        ensures
            r.wf(),
            r == initial_loop(),
    {
        FrameLoop {
            state: LoopState::Running,
            frames_drawn: 0,
            rotation: Rotation { x_mrad: 0, y_mrad: 0, z_mrad: 0 },
        }
    }

    /// Handles one poll of the event source. A termination request, or a
    /// loop already terminated, gives `Exit`; otherwise the rotation first
    /// advances by one step and the frame is drawn with the new rotation.
    pub fn on_poll(&mut self, terminate: bool) -> (r: LoopAction)
        requires
            old(self).wf(),
            old(self).frames_drawn < MAX_FRAMES,
        ensures
            final(self).wf(),
            *final(self) == step_loop(*old(self), terminate),
            r == loop_action(*old(self), terminate),
    {
        if terminate || self.state == LoopState::Terminated {
            self.state = LoopState::Terminated;
            return LoopAction::Exit;
        }
        let previous = self.rotation;
        self.frames_drawn = self.frames_drawn + 1;
        self.rotation = Rotation {
            x_mrad: previous.x_mrad + STEP_X_MRAD,
            y_mrad: previous.y_mrad + STEP_Y_MRAD,
            z_mrad: previous.z_mrad + STEP_Z_MRAD,
        };
        LoopAction::Draw { rotation: self.rotation }
    }
}

/// A running loop that has drawn nothing, with the model at rest.
pub open spec fn initial_loop() -> FrameLoop {
    FrameLoop { state: LoopState::Running, frames_drawn: 0, rotation: rotation_after(0) }
}

/// What the loop does on one poll.
pub open spec fn loop_action(l: FrameLoop, terminate: bool) -> LoopAction {
    if l.state == LoopState::Terminated || terminate {
        LoopAction::Exit
    } else {
        LoopAction::Draw { rotation: rotation_after((l.frames_drawn + 1) as nat) }
    }
}

/// The loop after one poll.
pub open spec fn step_loop(l: FrameLoop, terminate: bool) -> FrameLoop {
    if l.state == LoopState::Terminated || terminate {
        FrameLoop { state: LoopState::Terminated, ..l }
    } else {
        FrameLoop {
            state: LoopState::Running,
            frames_drawn: (l.frames_drawn + 1) as u64,
            rotation: rotation_after((l.frames_drawn + 1) as nat),
        }
    }
}

/// The loop after a sequence of polls.
pub open spec fn run_loop(l: FrameLoop, polls: Seq<bool>) -> FrameLoop
    decreases polls.len(),
{
    if polls.len() == 0 {
        l
    } else {
        step_loop(run_loop(l, polls.drop_last()), polls.last())
    }
}

/// The actions taken on a sequence of polls, one per poll.
pub open spec fn run_actions(l: FrameLoop, polls: Seq<bool>) -> Seq<LoopAction>
    decreases polls.len(),
{
    if polls.len() == 0 {
        Seq::empty()
    } else {
        run_actions(l, polls.drop_last()).push(loop_action(run_loop(l, polls.drop_last()), polls.last()))
    }
}

/// Whether `k` is the poll of the first termination request, or the number
/// of polls when there is none.
pub open spec fn first_request(polls: Seq<bool>, k: int) -> bool {
    &&& 0 <= k <= polls.len()
    &&& forall|j: int| 0 <= j < k ==> !#[trigger] polls[j]
    &&& k < polls.len() ==> polls[k]
}

/// Drawing the frame that follows `j` earlier frames, after its rotation step.
pub open spec fn drawing(j: nat) -> LoopAction {
    LoopAction::Draw { rotation: rotation_after(j + 1) }
}

/// A running loop that has drawn `n` frames.
pub open spec fn running_after(n: nat) -> FrameLoop {
    FrameLoop { state: LoopState::Running, frames_drawn: n as u64, rotation: rotation_after(n) }
}

proof fn lemma_run_prefix(polls: Seq<bool>, k: int, n: int)
    requires
        first_request(polls, k),
        0 <= n <= polls.len(),
        polls.len() <= MAX_FRAMES,
    ensures
        run_actions(initial_loop(), polls.subrange(0, n)).len() == n,
        forall|j: int|
            0 <= j < n ==> #[trigger] run_actions(initial_loop(), polls.subrange(0, n))[j] == (if j
                < k {
                drawing(j as nat)
            } else {
                LoopAction::Exit
            }),
        n <= k ==> run_loop(initial_loop(), polls.subrange(0, n)) == running_after(n as nat),
        n > k ==> run_loop(initial_loop(), polls.subrange(0, n)).state == LoopState::Terminated,
        n > k ==> run_loop(initial_loop(), polls.subrange(0, n)).frames_drawn == k,
    decreases n,
{
    if n > 0 {
        let pre = polls.subrange(0, n - 1);
        let cur = polls.subrange(0, n);
        assert(cur.drop_last() =~= pre);
        assert(cur.last() == polls[n - 1]);
        lemma_run_prefix(polls, k, n - 1);
    }
}

/// The loop draws exactly one frame for each poll before the first
/// termination request, each with the rotation reached after its own step
/// (the frame on poll `j + 1` at `j + 1` steps from rest), and no frame on or after that request: a loop asked to stop on
/// its fifth poll has drawn four frames, whatever the later polls say.
pub proof fn lemma_draws_until_first_request(polls: Seq<bool>, k: int)
    requires
        first_request(polls, k),
        polls.len() <= MAX_FRAMES,
    ensures
        run_actions(initial_loop(), polls).len() == polls.len(),
        forall|j: int|
            0 <= j < k ==> #[trigger] run_actions(initial_loop(), polls)[j] == drawing(j as nat),
        forall|j: int|
            k <= j < polls.len() ==> #[trigger] run_actions(initial_loop(), polls)[j]
                == LoopAction::Exit,
        run_loop(initial_loop(), polls).frames_drawn == k,
        k < polls.len() ==> run_loop(initial_loop(), polls).state == LoopState::Terminated,
{
    lemma_run_prefix(polls, k, polls.len() as int);
    assert(polls.subrange(0, polls.len() as int) =~= polls);
}

/// After `n` polls without a termination request the model has turned by
/// `n` steps about each axis, from rest.
pub proof fn lemma_rotation_accumulates(polls: Seq<bool>)
    requires
        forall|j: int| 0 <= j < polls.len() ==> !#[trigger] polls[j],
        polls.len() <= MAX_FRAMES,
    ensures
        run_loop(initial_loop(), polls).state == LoopState::Running,
        run_loop(initial_loop(), polls).rotation == rotation_after(polls.len()),
{
    lemma_run_prefix(polls, polls.len() as int, polls.len() as int);
    assert(polls.subrange(0, polls.len() as int) =~= polls);
}

/// The device operations an action leads to.
pub open spec fn action_ops(a: LoopAction, index_count: u32) -> Seq<FrameOp> {
    match a {
        LoopAction::Exit => Seq::empty(),
        LoopAction::Draw { .. } => frame_sequence(index_count),
    }
}

/// The device operations performed over a sequence of polls.
pub open spec fn run_ops(l: FrameLoop, polls: Seq<bool>, index_count: u32) -> Seq<FrameOp>
    decreases polls.len(),
{
    if polls.len() == 0 {
        Seq::empty()
    } else {
        run_ops(l, polls.drop_last(), index_count) + action_ops(
            loop_action(run_loop(l, polls.drop_last()), polls.last()),
            index_count,
        )
    }
}

/// `n` frames' worth of operations, one frame after another.
pub open spec fn repeated_frames(index_count: u32, n: nat) -> Seq<FrameOp>
    decreases n,
{
    if n == 0 {
        Seq::empty()
    } else {
        repeated_frames(index_count, (n - 1) as nat) + frame_sequence(index_count)
    }
}

proof fn lemma_repeated_frames_index(index_count: u32, n: nat)
    ensures
        repeated_frames(index_count, n).len() == 9 * n,
        forall|i: int|
            0 <= i < 9 * n ==> #[trigger] repeated_frames(index_count, n)[i] == frame_sequence(
                index_count,
            )[i % 9],
    decreases n,
{
    if n > 0 {
        lemma_repeated_frames_index(index_count, (n - 1) as nat);
        let prev = repeated_frames(index_count, (n - 1) as nat);
        assert forall|i: int| 0 <= i < 9 * n implies #[trigger] repeated_frames(index_count, n)[i]
            == frame_sequence(index_count)[i % 9] by {
            if i >= 9 * (n - 1) {
                assert(i % 9 == i - 9 * (n - 1)) by (nonlinear_arith)
                    requires
                        9 * (n - 1) <= i < 9 * n,
                ;
            }
        }
    }
}

proof fn lemma_ops_prefix(polls: Seq<bool>, k: int, n: int, index_count: u32)
    requires
        first_request(polls, k),
        0 <= n <= polls.len(),
        polls.len() <= MAX_FRAMES,
    ensures
        run_ops(initial_loop(), polls.subrange(0, n), index_count) == repeated_frames(
            index_count,
            (if n <= k { n } else { k }) as nat,
        ),
    decreases n,
{
    if n > 0 {
        let pre = polls.subrange(0, n - 1);
        let cur = polls.subrange(0, n);
        assert(cur.drop_last() =~= pre);
        assert(cur.last() == polls[n - 1]);
        lemma_ops_prefix(polls, k, n - 1, index_count);
        lemma_run_prefix(polls, k, n - 1);
        if n - 1 >= k {
            assert(run_ops(initial_loop(), cur, index_count) =~= run_ops(
                initial_loop(),
                pre,
                index_count,
            ));
        }
    }
}

/// Over any run, the device receives the operations of one complete frame,
/// in pipeline order, for each poll before the first termination request,
/// one frame after another, and nothing else.
pub proof fn lemma_run_emits_whole_frames(polls: Seq<bool>, k: int, index_count: u32)
    requires
        first_request(polls, k),
        polls.len() <= MAX_FRAMES,
    ensures
        run_ops(initial_loop(), polls, index_count) == repeated_frames(index_count, k as nat),
        run_ops(initial_loop(), polls, index_count).len() == 9 * k,
        forall|i: int|
            0 <= i < 9 * k ==> #[trigger] run_ops(initial_loop(), polls, index_count)[i]
                == frame_sequence(index_count)[i % 9],
{
    lemma_ops_prefix(polls, k, polls.len() as int, index_count);
    lemma_repeated_frames_index(index_count, k as nat);
    assert(polls.subrange(0, polls.len() as int) =~= polls);
}

} // verus!
