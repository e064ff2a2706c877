//! The frame driver: what it holds between frames, how it reacts to a resize
//! or a key, and the ordered passes it issues for each frame.
use vstd::prelude::*;
use crate::grid::{is_ceil_sqrt, square_grid_for, MAX_TARGET};
use crate::pipeline::{
    diffuse_bindings, simulation_bindings, writes_through, Binding, Resource,
};
use crate::storage;
use crate::timing::Timing;

verus! {

/// Index count of the full-screen quad: two triangles.
pub const QUAD_INDEX_COUNT: u32 = 6;

/// Simulation globals on the host: the clock and the dispatch grid of the
/// agent pass.
#[derive(Clone, Copy, Debug)]
pub struct Globals {
    pub timing: Timing,
    pub work_groups: (u32, u32, u32),
}

/// How a key changed.
#[derive(Clone, Copy, Debug, PartialEq, Eq, Structural)]
pub enum KeyState {
    Pressed,
    Released,
}

/// An input event as far as the driver looks at it.
#[derive(Clone, Copy, Debug, PartialEq, Eq, Structural)]
pub enum InputEvent {
    /// The overlay-visibility key changed.
    ToggleKey(KeyState),
    /// Anything else.
    Other,
}

/// One unit of work in a frame, in the order the device must run them.
#[derive(Clone, Copy, Debug, PartialEq, Eq, Structural)]
pub enum Pass {
    /// Overwrite the whole globals buffer with this frame's globals.
    UploadGlobals,
    /// Decay the trail image, one invocation per pixel.
    Decay { x: u32, y: u32, z: u32 },
    /// Move the agents and deposit into the trail image, one invocation per
    /// agent.
    Agents { x: u32, y: u32, z: u32 },
    /// Clear the target to the background color and draw the trail image on
    /// the quad with this many indices.
    Composite { index_count: u32 },
    /// Draw the overlay on top of the target without clearing it.
    Overlay,
    /// Submit the recorded work in order and show the target.
    Present,
}

/// Whether resource `r` is bound in the layout `bs`, and, when `write`,
/// writable there.
pub open spec fn binds(bs: Seq<Binding>, r: Resource, write: bool) -> bool {
    exists|i: int| 0 <= i < bs.len() && bs[i].resource == r && (!write || writes_through(bs[i]))
}

/// Whether pass `p` reads resource `r`.
pub open spec fn reads(p: Pass, r: Resource) -> bool {
    match p {
        Pass::UploadGlobals => false,
        Pass::Decay { .. } => binds(diffuse_bindings(), r, false),
        Pass::Agents { .. } => binds(simulation_bindings(), r, false),
        Pass::Composite { .. } => r == Resource::TrailSurface,
        Pass::Overlay => r == Resource::Target,
        Pass::Present => r == Resource::Target,
    }
}

/// Whether pass `p` writes resource `r`.
pub open spec fn writes(p: Pass, r: Resource) -> bool {
    match p {
        Pass::UploadGlobals => r == Resource::Globals,
        Pass::Decay { .. } => binds(diffuse_bindings(), r, true),
        Pass::Agents { .. } => binds(simulation_bindings(), r, true),
        Pass::Composite { .. } => r == Resource::Target,
        Pass::Overlay => r == Resource::Target,
        Pass::Present => false,
    }
}

/// Pass `j` of `plan` reads resource `r` as pass `i` left it: `i` writes
/// it, comes first, and nothing in between writes it again.
pub open spec fn sees(plan: Seq<Pass>, i: int, j: int, r: Resource) -> bool {
    &&& 0 <= i < j < plan.len()
    &&& writes(plan[i], r)
    &&& reads(plan[j], r)
    &&& forall|k: int| i < k < j ==> !writes(#[trigger] plan[k], r)
}

/// The driver's state between frames.
pub struct State {
    pub globals: Globals,
    /// Size of the display and of the trail image, in pixels.
    pub width: u32,
    pub height: u32,
    /// Length of the agent store, fixed at start.
    pub agent_count: u32,
    /// Whether the overlay is drawn.
    pub overlay_enabled: bool,
}

impl State {
    /// The clock is consistent and the agent grid is square, one
    /// invocation per agent.
    pub open spec fn wf(self) -> bool {
        &&& self.globals.timing.wf()
        &&& self.globals.work_groups.0 == self.globals.work_groups.1
        &&& self.globals.work_groups.2 == 1
        &&& self.globals.work_groups.0 as nat * self.globals.work_groups.1 as nat
            == self.agent_count as nat
    }

    /// `s` is what `new` makes of these arguments.
    pub open spec fn is_initial(s: State, width: u32, height: u32, target: u32, now: u64) -> bool {
        &&& s.wf()
        &&& s.width == width
        &&& s.height == height
        &&& is_ceil_sqrt(target as nat, s.globals.work_groups.0 as nat)
        &&& s.globals.timing == Timing::new_spec(now)
        &&& s.overlay_enabled
    }

    /// Whether a display size can be taken.
    pub open spec fn valid_size(width: u32, height: u32) -> bool {
        0 < width < u32::MAX && 0 < height < u32::MAX
    }

    /// The state after a resize notification; an unusable size is ignored.
    pub open spec fn resized(self, width: u32, height: u32) -> State {
        if Self::valid_size(width, height) {
            State { width, height, ..self }
        } else {
            self
        }
    }

    /// The state after an input event: releasing the toggle key flips the
    /// overlay.
    pub open spec fn after_input(self, event: InputEvent) -> State {
        if event == InputEvent::ToggleKey(KeyState::Released) {
            State { overlay_enabled: !self.overlay_enabled, ..self }
        } else {
            self
        }
    }

    /// The state once a frame has started at the clock reading `now`.
    pub open spec fn advanced(self, now: u64) -> State {
        State { globals: Globals { timing: self.globals.timing.advanced(now), ..self.globals }, ..self }
    }

    /// The passes of one frame, in order.
    pub open spec fn plan(self) -> Seq<Pass> {
        let wg = self.globals.work_groups;
        let base = seq![
            Pass::UploadGlobals,
            Pass::Decay { x: self.width, y: self.height, z: 1 },
            Pass::Agents { x: wg.0, y: wg.1, z: wg.2 },
            Pass::Composite { index_count: QUAD_INDEX_COUNT },
        ];
        if self.overlay_enabled {
            base + seq![Pass::Overlay, Pass::Present]
        } else {
            base + seq![Pass::Present]
        }
    }

    /// A driver for a display of `width` by `height` pixels and about
    /// `target` agents, started at the clock reading `now`. The agent count
    /// is the square of `ceil(sqrt(target))`; the overlay starts shown.
    pub fn new(width: u32, height: u32, target: u32, now: u64) -> (r: State)
        requires
            target <= MAX_TARGET,
        ensures
            Self::is_initial(r, width, height, target, now),
            r.agent_count >= target,
    {
        let (side, count) = square_grid_for(target);
        State {
            globals: Globals { timing: Timing::new(now), work_groups: (side, side, 1) },
            width,
            height,
            agent_count: count,
            overlay_enabled: true,
        }
    }

    /// The display size.
    pub fn size(&self) -> (r: (u32, u32))
        ensures
            r == (self.width, self.height),
    {
        (self.width, self.height)
    }

    /// Takes a new display size when both sides are positive and below
    /// `u32::MAX`, and ignores it otherwise. The agent store is untouched.
    pub fn resize(&mut self, width: u32, height: u32)
        requires
            old(self).wf(),
        ensures
            *final(self) == old(self).resized(width, height),
            final(self).wf(),
    {
        if width > 0 && height > 0 && width < u32::MAX && height < u32::MAX {
            self.width = width;
            self.height = height;
        }
    }

    /// Handles an input event that the overlay did or did not consume;
    /// returns whether the event is handled.
    pub fn input(&mut self, event: InputEvent, overlay_consumed: bool) -> (r: bool)
        requires
            old(self).wf(),
        ensures
            *final(self) == old(self).after_input(event),
            final(self).wf(),
            r == (overlay_consumed || event == InputEvent::ToggleKey(KeyState::Released)),
    {
        match event {
            InputEvent::ToggleKey(KeyState::Released) => {
                self.overlay_enabled = !self.overlay_enabled;
                true
            },
            _ => overlay_consumed,
        }
    }

    /// Per-frame work outside the passes: there is none.
    pub fn update(&mut self)
        ensures
            *final(self) == *old(self),
    {
    }

    /// Starts a frame at the clock reading `now` and returns its passes in
    /// the order they must run.
    pub fn render(&mut self, now: u64) -> (r: Vec<Pass>)
        requires
            old(self).wf(),
            old(self).globals.timing.frame < u64::MAX,
        ensures
            *final(self) == old(self).advanced(now),
            final(self).wf(),
            r@ == final(self).plan(),
            old(self).globals.timing.frame == 0 ==> final(self).globals.timing.time_since_last_frame
                == 0,
    {
        self.globals.timing.advance_time(now);
        let wg = self.globals.work_groups;
        let mut r: Vec<Pass> = Vec::new();
        r.push(Pass::UploadGlobals);
        r.push(Pass::Decay { x: self.width, y: self.height, z: 1 });
        r.push(Pass::Agents { x: wg.0, y: wg.1, z: wg.2 });
        r.push(Pass::Composite { index_count: QUAD_INDEX_COUNT });
        if self.overlay_enabled {
            r.push(Pass::Overlay);
        }
        r.push(Pass::Present);
        assert(r@ =~= self.plan());
        r
    }

    /// This frame's globals in wire form, given the bit patterns of the
    /// `f32` seconds of `dt` and of the time since the start.
    pub fn wire_globals(&self, dt_bits: u32, time_bits: u32) -> (r: storage::Globals)
        ensures
            r == (storage::Globals {
                dt_bits,
                time_bits,
                work_group_size: self.globals.work_groups.0,
            }),
    {
        storage::Globals { dt_bits, time_bits, work_group_size: self.globals.work_groups.0 }
    }
}

/// A resize to a usable size leaves the trail image exactly that size and
/// keeps the agent store, the dispatch grid and the clock as they were.
pub proof fn lemma_resize_sizes_trail(s: State, width: u32, height: u32)
    requires
        s.wf(),
        State::valid_size(width, height),
    ensures
        s.resized(width, height).wf(),
        s.resized(width, height).width == width,
        s.resized(width, height).height == height,
        s.resized(width, height).agent_count == s.agent_count,
        s.resized(width, height).globals == s.globals,
{
}

/// In every well-formed state the agent pass of the frame dispatches a
/// square grid with exactly one invocation per agent.
pub proof fn lemma_dispatch_matches_agents(s: State)
    requires
        s.wf(),
    ensures
        ({
            let p = s.plan()[2];
            &&& p is Agents
            &&& p->Agents_x == p->Agents_y
            &&& p->Agents_z == 1
            &&& p->Agents_x as nat * p->Agents_y as nat * p->Agents_z as nat
                == s.agent_count as nat
        }),
{
    let p = s.plan()[2];
    assert(p->Agents_x as nat * p->Agents_y as nat * 1 == p->Agents_x as nat * p->Agents_y as nat);
}

/// Within a frame every pass reads what the pass before it in the chain
/// wrote: both compute passes read the uploaded globals, the agent pass
/// reads the trail image as the decay pass left it, and the composite pass
/// reads it as the agent pass left it. The frame ends by showing the target
/// as the pass just before left it.
pub proof fn lemma_frame_order(s: State)
    ensures
        sees(s.plan(), 0, 1, Resource::Globals),
        sees(s.plan(), 0, 2, Resource::Globals),
        sees(s.plan(), 1, 2, Resource::TrailSurface),
        sees(s.plan(), 2, 3, Resource::TrailSurface),
        sees(s.plan(), s.plan().len() - 2, s.plan().len() - 1, Resource::Target),
        s.plan().last() == Pass::Present,
        forall|i: int| 0 <= i < s.plan().len() - 1 ==> s.plan()[i] != Pass::Present,
{
    let d = diffuse_bindings();
    let m = simulation_bindings();
    assert(d[0].resource == Resource::Globals);
    assert(m[0].resource == Resource::Globals);
    assert(d[1].resource == Resource::TrailSurface && writes_through(d[1]));
    assert(m[2].resource == Resource::TrailSurface && writes_through(m[2]));
    assert(!binds(d, Resource::Globals, true)) by {
        assert forall|i: int| 0 <= i < d.len() && d[i].resource == Resource::Globals implies !writes_through(d[i]) by {
            assert(i == 0 || i == 1);
        }
    }
}

/// `side` is unique: two sides that are both the ceiling of the square root
/// of one target are equal.
pub proof fn lemma_ceil_sqrt_unique(target: nat, a: nat, b: nat)
    requires
        is_ceil_sqrt(target, a),
        is_ceil_sqrt(target, b),
    ensures
        a == b,
{
    if a < b {
        assert(a * a <= (b - 1) * (b - 1)) by (nonlinear_arith)
            requires a <= b - 1, b >= 1;
    } else if b < a {
        assert(b * b <= (a - 1) * (a - 1)) by (nonlinear_arith)
            requires b <= a - 1, a >= 1;
    }
}

/// Two drivers made from one target and one display size have agent stores
/// of one length, one dispatch grid, and agent arrays whose wire forms have
/// one length and one header.
pub proof fn lemma_init_idempotent(
    s1: State,
    s2: State,
    width: u32,
    height: u32,
    target: u32,
    now1: u64,
    now2: u64,
    agents1: Seq<storage::Agent>,
    agents2: Seq<storage::Agent>,
)
    requires
        State::is_initial(s1, width, height, target, now1),
        State::is_initial(s2, width, height, target, now2),
        agents1.len() == s1.agent_count,
        agents2.len() == s2.agent_count,
    ensures
        s1.agent_count == s2.agent_count,
        s1.globals.work_groups == s2.globals.work_groups,
        s1.plan().len() == s2.plan().len(),
        storage::agent_array_bytes(agents1).len() == storage::agent_array_bytes(agents2).len(),
        storage::agent_array_bytes(agents1).subrange(0, 8) == storage::agent_array_bytes(
            agents2,
        ).subrange(0, 8),
{
    lemma_ceil_sqrt_unique(
        target as nat,
        s1.globals.work_groups.0 as nat,
        s2.globals.work_groups.0 as nat,
    );
    storage::lemma_same_count_same_layout(agents1, agents2);
}

/// Releasing the toggle key flips the overlay, adds or drops its pass, and
/// changes neither the globals nor the agent store nor any other pass.
pub proof fn lemma_toggle_keeps_simulation(s: State)
    ensures
        ({
            let t = s.after_input(InputEvent::ToggleKey(KeyState::Released));
            &&& t.overlay_enabled == !s.overlay_enabled
            &&& t.globals == s.globals
            &&& t.agent_count == s.agent_count
            &&& t.width == s.width && t.height == s.height
            &&& t.plan().subrange(0, 4) == s.plan().subrange(0, 4)
            &&& t.plan().contains(Pass::Overlay) == t.overlay_enabled
            &&& s.plan().contains(Pass::Overlay) == s.overlay_enabled
        }),
{
    let t = s.after_input(InputEvent::ToggleKey(KeyState::Released));
    assert(t.plan().subrange(0, 4) =~= s.plan().subrange(0, 4));
    lemma_overlay_pass(s);
    lemma_overlay_pass(t);
}

/// The frame holds an overlay pass exactly when the overlay is shown.
pub proof fn lemma_overlay_pass(s: State)
    ensures
        s.plan().contains(Pass::Overlay) == s.overlay_enabled,
{
    if s.overlay_enabled {
        assert(s.plan()[4] == Pass::Overlay);
    } else {
        assert forall|i: int| 0 <= i < s.plan().len() implies s.plan()[i] != Pass::Overlay by {
            assert(0 <= i < 5);
        }
    }
}

/// A resize that arrives between frames, whatever the clock reads next,
/// leaves a well-formed driver whose very next frame decays the trail image
/// at the new size and dispatches the same agent grid.
pub proof fn lemma_resize_then_frame(s: State, width: u32, height: u32, now: u64)
    requires
        s.wf(),
        s.globals.timing.frame < u64::MAX,
        State::valid_size(width, height),
    ensures
        ({
            let t = s.resized(width, height).advanced(now);
            &&& t.wf()
            &&& t.width == width && t.height == height
            &&& t.plan()[1] == (Pass::Decay { x: width, y: height, z: 1 })
            &&& t.plan()[2] == s.plan()[2]
            &&& t.agent_count == s.agent_count
        }),
{
}

/// One frame keeps the driver well formed: the time of the frame never
/// decreases, the step is zero on the first frame and the time since the
/// last frame after it, the start stays put once a frame has run, the
/// counter goes up by one, and the agent pass dispatches one invocation per
/// agent on the grid whose side `wire_globals` uploads.
pub proof fn lemma_frame_step(s: State, now: u64)
    requires
        s.wf(),
        s.globals.timing.frame < u64::MAX,
    ensures
        ({
            let t = s.advanced(now);
            let old_clock = s.globals.timing;
            let clock = t.globals.timing;
            let p = t.plan()[2];
            &&& t.wf()
            &&& clock.time >= old_clock.time
            &&& old_clock.frame == 0 ==> clock.time_since_last_frame == 0
            &&& old_clock.frame > 0 ==> clock.time_since_last_frame == clock.time - old_clock.time
            &&& old_clock.frame > 0 ==> clock.start_time == old_clock.start_time
            &&& clock.frame == old_clock.frame + 1
            &&& t.agent_count == s.agent_count
            &&& p == (Pass::Agents { x: s.globals.work_groups.0, y: s.globals.work_groups.0, z: 1 })
            &&& p->Agents_x as nat * p->Agents_y as nat == t.agent_count as nat
            &&& t.globals.work_groups.0 == p->Agents_x
        }),
{
}

/// Releasing the toggle key between two frames flips whether the second
/// frame draws the overlay, and leaves its upload, decay, agent and
/// composite passes as the first frame had them.
pub proof fn lemma_toggle_between_frames(s: State, now1: u64, now2: u64)
    requires
        s.wf(),
        s.globals.timing.frame < u64::MAX - 1,
    ensures
        ({
            let a = s.advanced(now1);
            let b = a.after_input(InputEvent::ToggleKey(KeyState::Released)).advanced(now2);
            &&& b.wf()
            &&& b.plan().contains(Pass::Overlay) == !a.plan().contains(Pass::Overlay)
            &&& b.plan().subrange(0, 4) == a.plan().subrange(0, 4)
            &&& b.agent_count == a.agent_count
        }),
{
    let a = s.advanced(now1);
    let m = a.after_input(InputEvent::ToggleKey(KeyState::Released));
    let b = m.advanced(now2);
    lemma_overlay_pass(a);
    lemma_overlay_pass(b);
    assert(b.plan().subrange(0, 4) =~= a.plan().subrange(0, 4));
}

} // verus!
