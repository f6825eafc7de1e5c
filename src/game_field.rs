use vstd::prelude::*;
use crate::config::GameConfig;
use crate::fixed::{POS_MAX, UNIT};
use crate::gravity_field::GravityField;
use crate::physics::{all_fields_wf, step, step_pixel, ticked};
use crate::pixel::Pixel;
use crate::rng::{in_range, seeded, xorshift, Rng};
use crate::vector::Vector;

verus! {

/// A removal query takes the first field within this distance (sub-units).
pub const REMOVE_RADIUS: i64 = 10 * UNIT;

/// What the pointer did this frame.
#[derive(Clone, Copy, Debug, PartialEq, Eq, Structural)]
pub enum MouseAction {
    Nothing,
    /// Primary press: place an attracting field.
    Attract,
    /// Secondary press: place a repelling field.
    Repel,
    /// Tertiary press: remove the first field under the pointer.
    Remove,
}

/// The input of one frame, as the host collected it.
#[derive(Clone, Copy, Debug, PartialEq, Eq, Structural)]
pub struct FrameInput {
    /// Pointer position, in sub-units
    pub pointer: Vector,
    pub mouse: MouseAction,
    /// The freshly loaded configuration, when a reset was asked for
    pub reset: Option<GameConfig>,
    /// Keep the gravity fields through a reset
    pub preserve_fields: bool,
    /// Flip the pause flag
    pub toggle_pause: bool,
}

/// How pixels that leave the surface are brought back.
#[derive(Clone, Copy, Debug, PartialEq, Eq, Structural)]
pub enum BoundaryPolicy {
    /// A pixel past one edge reappears at the opposite one.
    Wrap,
    /// A pixel past an edge is put back on it and its velocity on that axis
    /// is reversed.
    Bounce,
}

/// Which line leads the debug overlay.
#[derive(Clone, Copy, Debug, PartialEq, Eq, Structural)]
pub enum Status {
    Paused,
    Running,
}

/// What the debug overlay shows this frame.
#[derive(Clone, Copy, Debug, PartialEq, Eq, Structural)]
pub struct Overlay {
    pub visible: bool,
    pub status: Option<Status>,
    pub show_fps: bool,
    pub show_field_count: bool,
    pub draw_fields: bool,
}

/// The `n`-th state of the generator stream that starts at `s`.
pub open spec fn nth_state(s: u64, n: nat) -> u64
    decreases n,
{
    if n == 0 {
        s
    } else {
        xorshift(nth_state(s, (n - 1) as nat))
    }
}

/// The `k`-th pixel spawned from the stream at `s` on a `w` by `h` surface.
pub open spec fn spawned(s: u64, k: int, w: int, h: int) -> Pixel {
    Pixel {
        position: Vector {
            x: (nth_state(s, (2 * k + 1) as nat) as int % w) as i64,
            y: (nth_state(s, (2 * k + 2) as nat) as int % h) as i64,
        },
        velocity: Vector { x: 0, y: 0 },
    }
}

/// The `n` pixels spawned from the stream at `s`.
pub open spec fn population(s: u64, n: nat, w: int, h: int) -> Seq<Pixel> {
    Seq::new(n, |k: int| spawned(s, k, w, h))
}

/// `f` lies within the removal radius of `point`.
pub open spec fn near(f: GravityField, point: Vector) -> bool {
    f.position.sq_dist(point) <= REMOVE_RADIUS * REMOVE_RADIUS
}

/// `i` is the lowest index of a field near `point`.
pub open spec fn is_first_near(fields: Seq<GravityField>, point: Vector, i: int) -> bool {
    &&& 0 <= i < fields.len()
    &&& near(fields[i], point)
    &&& forall|j: int| 0 <= j < i ==> !near(#[trigger] fields[j], point)
}

/// `fields` with the one at `i` taken out and the last one moved into its
/// place.
pub open spec fn swap_removed(fields: Seq<GravityField>, i: int) -> Seq<GravityField> {
    fields.update(i, fields.last()).drop_last()
}

/// The fields with the first one near `point` taken out, if there is one; the
/// last field takes its place.
pub open spec fn removed_near(fields: Seq<GravityField>, point: Vector) -> Seq<GravityField> {
    if exists|i: int| is_first_near(fields, point, i) {
        swap_removed(fields, choose|i: int| is_first_near(fields, point, i))
    } else {
        fields
    }
}

/// The fields after the pointer's action of this frame.
pub open spec fn after_mouse(
    fields: Seq<GravityField>,
    action: MouseAction,
    pointer: Vector,
    cfg: GameConfig,
) -> Seq<GravityField> {
    match action {
        MouseAction::Nothing => fields,
        MouseAction::Attract => fields.push(
            GravityField {
                position: pointer,
                aoe: cfg.phy.gravity_field_aoe,
                strength: cfg.phy.acceleration,
            },
        ),
        MouseAction::Repel => fields.push(
            GravityField {
                position: pointer,
                aoe: cfg.phy.gravity_field_aoe,
                strength: (-cfg.phy.acceleration) as i64,
            },
        ),
        MouseAction::Remove => removed_near(fields, pointer),
    }
}

/// A coordinate wrapped onto `[0, max]`.
pub open spec fn wrap_coord(c: int, max: int) -> int {
    if c > max {
        0
    } else if c < 0 {
        max
    } else {
        c
    }
}

pub open spec fn wrapped(p: Pixel, w: int, h: int) -> Pixel {
    Pixel {
        position: Vector { x: wrap_coord(p.position.x as int, w) as i64, y: wrap_coord(p.position.y as int, h) as i64 },
        velocity: p.velocity,
    }
}

pub open spec fn bounced(p: Pixel, w: int, h: int) -> Pixel {
    let out_x = p.position.x > w || p.position.x < 0;
    let out_y = p.position.y > h || p.position.y < 0;
    Pixel {
        position: Vector {
            x: crate::fixed::clamp_int(p.position.x as int, 0, w) as i64,
            y: crate::fixed::clamp_int(p.position.y as int, 0, h) as i64,
        },
        velocity: Vector {
            x: if out_x { (-p.velocity.x) as i64 } else { p.velocity.x },
            y: if out_y { (-p.velocity.y) as i64 } else { p.velocity.y },
        },
    }
}

/// The fields after the whole input of a frame.
pub open spec fn fields_after_input(
    fields: Seq<GravityField>,
    input: FrameInput,
    cfg: GameConfig,
) -> Seq<GravityField> {
    let placed = after_mouse(fields, input.mouse, input.pointer, cfg);
    match input.reset {
        Some(_) => if input.preserve_fields {
            placed
        } else {
            Seq::empty()
        },
        None => placed,
    }
}

/// The pixels after the input of a frame, before the integration step.
pub open spec fn pixels_after_input(
    pixels: Seq<Pixel>,
    state: u64,
    input: FrameInput,
    w: int,
    h: int,
) -> Seq<Pixel> {
    match input.reset {
        Some(c) => population(state, c.num_pixels as nat, w, h),
        None => pixels,
    }
}

/// The debug overlay for the given state and debug key.
pub open spec fn overlay_of(
    cfg: GameConfig,
    paused: bool,
    debug_key: bool,
) -> Overlay {
    let visible = (cfg.dbg.on_pause && paused) || debug_key;
    Overlay {
        visible,
        status: if !visible {
            None
        } else if paused {
            Some(Status::Paused)
        } else if debug_key {
            Some(Status::Running)
        } else {
            None
        },
        show_fps: visible && cfg.dbg.fps,
        show_field_count: visible && cfg.dbg.n_fields,
        draw_fields: visible && cfg.dbg.draw_fields,
    }
}

/// A surface on which pixels can be spawned.
pub open spec fn surface_ok(width: i64, height: i64) -> bool {
    0 < width <= POS_MAX && 0 < height <= POS_MAX
}

/// A surface to keep pixels on; it may be empty.
pub open spec fn surface_fits(width: i64, height: i64) -> bool {
    0 <= width <= POS_MAX && 0 <= height <= POS_MAX
}

/// The arena: pixels, gravity fields, the generator, the pause flag and the
/// configuration.
pub struct GameField {
    /// Pixels in the arena
    pub pixels: Vec<Pixel>,
    /// Gravity fields in the arena, in order of placement
    pub gravity_fields: Vec<GravityField>,
    /// The game's generator
    pub rng: Rng,
    /// Whether the game is paused
    pub is_paused: bool,
    /// The game configuration
    pub config: GameConfig,
}

impl GameField {
    pub open spec fn wf(self) -> bool {
        &&& self.config.valid()
        &&& forall|k: int| 0 <= k < self.pixels@.len() ==> #[trigger] self.pixels@[k].wf()
        &&& all_fields_wf(self.gravity_fields@)
    }

    /// Creates a new game field with the configured number of pixels, spawned
    /// on a `width` by `height` surface from a generator seeded with `seed`.
    pub fn new(config: GameConfig, seed: u64, width: i64, height: i64) -> (r: GameField)
        requires
            config.valid(),
            surface_ok(width, height),
        ensures
            r.wf(),
            r.config == config,
            r.gravity_fields@.len() == 0,
            !r.is_paused,
            r.pixels@ == population(
                seeded(seed),
                config.num_pixels as nat,
                width as int,
                height as int,
            ),
            r.rng.state == nth_state(seeded(seed), 2 * config.num_pixels as nat),
    {
        let mut temp = GameField {
            pixels: Vec::new(),
            gravity_fields: Vec::new(),
            rng: Rng::new(seed),
            is_paused: false,
            config,
        };
        temp.populate_pixels(width, height);
        temp
    }

    /// Replaces the pixels by the configured number of new ones, at rest, at
    /// random positions on the `width` by `height` surface.
    pub fn populate_pixels(&mut self, width: i64, height: i64)
        requires
            old(self).config.valid(),
            all_fields_wf(old(self).gravity_fields@),
            surface_ok(width, height),
        ensures
            final(self).wf(),
            final(self).pixels@ == population(
                old(self).rng.state,
                old(self).config.num_pixels as nat,
                width as int,
                height as int,
            ),
            final(self).rng.state == nth_state(
                old(self).rng.state,
                2 * old(self).config.num_pixels as nat,
            ),
            final(self).gravity_fields == old(self).gravity_fields,
            final(self).is_paused == old(self).is_paused,
            final(self).config == old(self).config,
    {
        let n = self.config.num_pixels;
        let s0 = Ghost(self.rng.state);
        let mut pixels: Vec<Pixel> = Vec::with_capacity(n);
        let mut i: usize = 0;
        while i < n
            invariant
                n == self.config.num_pixels,
                0 <= i <= n,
                surface_ok(width, height),
                pixels@.len() == i,
                forall|k: int| 0 <= k < i ==> #[trigger] pixels@[k] == spawned(s0@, k, width as int, height as int),
                forall|k: int| 0 <= k < i ==> #[trigger] pixels@[k].wf(),
                self.rng.state == nth_state(s0@, 2 * i as nat),
                self.gravity_fields == old(self).gravity_fields,
                self.is_paused == old(self).is_paused,
                self.config == old(self).config,
                s0@ == old(self).rng.state,
            decreases n - i,
        {
            let dx = self.rng.rand();
            assert(self.rng.state == nth_state(s0@, (2 * i + 1) as nat));
            let dy = self.rng.rand();
            assert(self.rng.state == nth_state(s0@, (2 * i + 2) as nat));
            let px = (dx % (width as u64)) as i64;
            let py = (dy % (height as u64)) as i64;
            let p = Pixel::new(Vector::new(px, py));
            pixels.push(p);
            i += 1;
        }
        self.pixels = pixels;
        assert(self.pixels@ =~= population(s0@, n as nat, width as int, height as int));
    }

    /// Places a gravity field at `position`: attracting, or repelling when
    /// `repel` holds, with the configured area of effect and acceleration.
    pub fn add_field(&mut self, position: Vector, repel: bool)
        requires
            old(self).wf(),
            position.in_play(),
        ensures
            final(self).wf(),
            final(self).gravity_fields@ == after_mouse(
                old(self).gravity_fields@,
                if repel { MouseAction::Repel } else { MouseAction::Attract },
                position,
                old(self).config,
            ),
            final(self).pixels == old(self).pixels,
            final(self).rng == old(self).rng,
            final(self).is_paused == old(self).is_paused,
            final(self).config == old(self).config,
    {
        let strength = if repel { -self.config.phy.acceleration } else { self.config.phy.acceleration };
        let field = GravityField::new(position, self.config.phy.gravity_field_aoe, strength);
        self.gravity_fields.push(field);
        proof {
            assert forall|k: int| 0 <= k < self.gravity_fields@.len() implies #[trigger] self.gravity_fields@[k].wf() by {
                if k < old(self).gravity_fields@.len() {
                    assert(self.gravity_fields@[k] == old(self).gravity_fields@[k]);
                }
            }
        }
    }

    /// Removes the first gravity field (in storage order) within
    /// `REMOVE_RADIUS` of `point`, moving the last field into its place; does
    /// nothing when there is none. The test compares squared distances
    /// exactly, with no rounding.
    pub fn remove_field_at(&mut self, point: Vector)
        requires
            old(self).wf(),
            point.wf(),
        ensures
            final(self).wf(),
            final(self).gravity_fields@ == removed_near(old(self).gravity_fields@, point),
            forall|i: int|
                #[trigger] is_first_near(old(self).gravity_fields@, point, i)
                    ==> final(self).gravity_fields@ == swap_removed(old(self).gravity_fields@, i),
            (forall|j: int|
                0 <= j < old(self).gravity_fields@.len() ==> !near(
                    #[trigger] old(self).gravity_fields@[j],
                    point,
                )) ==> final(self).gravity_fields@ == old(self).gravity_fields@,
            final(self).pixels == old(self).pixels,
            final(self).rng == old(self).rng,
            final(self).is_paused == old(self).is_paused,
            final(self).config == old(self).config,
    {
        let n = self.gravity_fields.len();
        let mut i: usize = 0;
        while i < n
            invariant
                n == self.gravity_fields.len(),
                0 <= i <= n,
                point.wf(),
                old(self).wf(),
                self.gravity_fields == old(self).gravity_fields,
                self.pixels == old(self).pixels,
                self.rng == old(self).rng,
                self.is_paused == old(self).is_paused,
                self.config == old(self).config,
                all_fields_wf(self.gravity_fields@),
                forall|j: int| 0 <= j < i ==> !near(#[trigger] self.gravity_fields@[j], point),
            decreases n - i,
        {
            assert(self.gravity_fields@[i as int].wf());
            let d = self.gravity_fields[i].position.squared_distance(&point);
            let radius: u128 = REMOVE_RADIUS as u128;
            assert(radius == 10240);
            if d <= radius * radius {
                proof {
                    let fs = old(self).gravity_fields@;
                    assert(is_first_near(fs, point, i as int));
                    let c = choose|c: int| is_first_near(fs, point, c);
                    if c < i {
                        assert(!near(fs[c], point));
                    } else if c > i {
                        assert(!near(fs[i as int], point));
                    }
                }
                self.gravity_fields.swap_remove(i);
                proof {
                    let fs = old(self).gravity_fields@;
                    assert forall|k: int| 0 <= k < self.gravity_fields@.len() implies #[trigger] self.gravity_fields@[k].wf() by {
                        if k == i {
                            assert(fs[fs.len() - 1].wf());
                        } else {
                            assert(self.gravity_fields@[k] == fs[k]);
                        }
                    }
                }
                return;
            }
            i += 1;
        }
        proof {
            let fs = old(self).gravity_fields@;
            if exists|c: int| is_first_near(fs, point, c) {
                let c = choose|c: int| is_first_near(fs, point, c);
                assert(!near(fs[c], point));
            }
        }
    }

    /// Reloads the configuration, spawns the pixels anew and, unless
    /// `preserve_fields` holds, removes every gravity field.
    pub fn reset(&mut self, config: GameConfig, preserve_fields: bool, width: i64, height: i64)
        requires
            old(self).wf(),
            config.valid(),
            surface_ok(width, height),
        ensures
            final(self).wf(),
            final(self).config == config,
            final(self).pixels@ == population(
                old(self).rng.state,
                config.num_pixels as nat,
                width as int,
                height as int,
            ),
            final(self).pixels@.len() == config.num_pixels,
            final(self).rng.state == nth_state(old(self).rng.state, 2 * config.num_pixels as nat),
            final(self).gravity_fields@ == if preserve_fields {
                old(self).gravity_fields@
            } else {
                Seq::<GravityField>::empty()
            },
            final(self).is_paused == old(self).is_paused,
    {
        self.config = config;
        self.populate_pixels(width, height);
        if !preserve_fields {
            self.gravity_fields.clear();
        }
    }

    /// Flips the pause flag.
    pub fn toggle_pause(&mut self)
        ensures
            final(self).is_paused == !old(self).is_paused,
            final(self).pixels == old(self).pixels,
            final(self).gravity_fields == old(self).gravity_fields,
            final(self).rng == old(self).rng,
            final(self).config == old(self).config,
    {
        self.is_paused = !self.is_paused;
    }

    /// Advances every pixel by one integration step.
    pub fn tick(&mut self)
        requires
            old(self).wf(),
        ensures
            final(self).wf(),
            final(self).pixels@ == ticked(
                old(self).pixels@,
                old(self).gravity_fields@,
                old(self).config.phy,
            ),
            forall|k: int|
                0 <= k < final(self).pixels@.len() ==> -final(self).config.phy.max_velocity
                    <= #[trigger] final(self).pixels@[k].velocity.x
                    <= final(self).config.phy.max_velocity && -final(self).config.phy.max_velocity
                    <= final(self).pixels@[k].velocity.y <= final(self).config.phy.max_velocity,
            final(self).gravity_fields == old(self).gravity_fields,
            final(self).rng == old(self).rng,
            final(self).is_paused == old(self).is_paused,
            final(self).config == old(self).config,
    {
        let n = self.pixels.len();
        let mut i: usize = 0;
        while i < n
            invariant
                n == self.pixels.len(),
                0 <= i <= n,
                old(self).pixels@.len() == n,
                self.gravity_fields == old(self).gravity_fields,
                self.rng == old(self).rng,
                self.is_paused == old(self).is_paused,
                self.config == old(self).config,
                self.config.valid(),
                all_fields_wf(self.gravity_fields@),
                forall|k: int| 0 <= k < n ==> #[trigger] self.pixels@[k].wf(),
                forall|k: int|
                    0 <= k < i ==> #[trigger] self.pixels@[k] == step_pixel(
                        old(self).pixels@[k],
                        old(self).gravity_fields@,
                        old(self).config.phy,
                    ),
                forall|k: int| i <= k < n ==> #[trigger] self.pixels@[k] == old(self).pixels@[k],
            decreases n - i,
        {
            assert(self.pixels@[i as int].wf());
            let p = self.pixels[i];
            let np = step(&p, &self.gravity_fields, &self.config.phy);
            self.pixels[i] = np;
            i += 1;
        }
        assert(self.pixels@ =~= ticked(
            old(self).pixels@,
            old(self).gravity_fields@,
            old(self).config.phy,
        ));
    }

    /// Handles the input of one frame, then, unless paused, advances every
    /// pixel by one integration step. In order: the pointer's action, the
    /// reset, the pause toggle, the step.
    pub fn update(&mut self, input: &FrameInput, width: i64, height: i64)
        requires
            old(self).wf(),
            input.pointer.in_play(),
            input.reset matches Some(c) ==> c.valid(),
            surface_ok(width, height),
        ensures
            final(self).wf(),
            final(self).is_paused == (old(self).is_paused != input.toggle_pause),
            final(self).config == match input.reset {
                Some(c) => c,
                None => old(self).config,
            },
            final(self).gravity_fields@ == fields_after_input(
                old(self).gravity_fields@,
                *input,
                old(self).config,
            ),
            final(self).rng.state == match input.reset {
                Some(c) => nth_state(old(self).rng.state, 2 * c.num_pixels as nat),
                None => old(self).rng.state,
            },
            final(self).pixels@ == if final(self).is_paused {
                pixels_after_input(old(self).pixels@, old(self).rng.state, *input, width as int, height as int)
            } else {
                ticked(
                    pixels_after_input(old(self).pixels@, old(self).rng.state, *input, width as int, height as int),
                    final(self).gravity_fields@,
                    final(self).config.phy,
                )
            },
    {
        match input.mouse {
            MouseAction::Nothing => {},
            MouseAction::Attract => self.add_field(input.pointer, false),
            MouseAction::Repel => self.add_field(input.pointer, true),
            MouseAction::Remove => self.remove_field_at(input.pointer),
        }
        match input.reset {
            Some(c) => self.reset(c, input.preserve_fields, width, height),
            None => {},
        }
        if input.toggle_pause {
            self.toggle_pause();
        }
        if self.is_paused {
            return;
        }
        self.tick();
    }

    /// Draws a brightness for each pixel, in the configured range, from the
    /// generator: pixels flicker from frame to frame.
    pub fn pixel_brightness(&mut self) -> (r: Vec<u8>)
        requires
            old(self).wf(),
        ensures
            final(self).wf(),
            r@.len() == old(self).pixels@.len(),
            forall|k: int|
                0 <= k < r@.len() ==> #[trigger] r@[k] == in_range(
                    nth_state(old(self).rng.state, (k + 1) as nat),
                    old(self).config.gfx.min_brightness as u64,
                    old(self).config.gfx.max_brightness as u64,
                ),
            forall|k: int|
                0 <= k < r@.len() ==> old(self).config.gfx.min_brightness <= #[trigger] r@[k]
                    <= old(self).config.gfx.max_brightness,
            final(self).rng.state == nth_state(old(self).rng.state, old(self).pixels@.len()),
            final(self).pixels == old(self).pixels,
            final(self).gravity_fields == old(self).gravity_fields,
            final(self).is_paused == old(self).is_paused,
            final(self).config == old(self).config,
    {
        let n = self.pixels.len();
        let min = self.config.gfx.min_brightness as u64;
        let max = self.config.gfx.max_brightness as u64;
        let mut out: Vec<u8> = Vec::with_capacity(n);
        let mut i: usize = 0;
        while i < n
            invariant
                n == self.pixels.len(),
                0 <= i <= n,
                old(self).wf(),
                min == old(self).config.gfx.min_brightness,
                max == old(self).config.gfx.max_brightness,
                min <= max,
                out@.len() == i,
                forall|k: int|
                    0 <= k < i ==> #[trigger] out@[k] == in_range(
                        nth_state(old(self).rng.state, (k + 1) as nat),
                        min,
                        max,
                    ),
                forall|k: int| 0 <= k < i ==> min <= #[trigger] out@[k] <= max,
                self.rng.state == nth_state(old(self).rng.state, i as nat),
                self.pixels == old(self).pixels,
                self.gravity_fields == old(self).gravity_fields,
                self.is_paused == old(self).is_paused,
                self.config == old(self).config,
            decreases n - i,
        {
            let b = self.rng.range(min, max);
            out.push(b as u8);
            i += 1;
        }
        out
    }

    /// What the debug overlay shows, given whether the debug key is held.
    pub fn overlay(&self, debug_key_held: bool) -> (r: Overlay)
        ensures
            r == overlay_of(self.config, self.is_paused, debug_key_held),
    {
        let visible = (self.config.dbg.on_pause && self.is_paused) || debug_key_held;
        let status = if !visible {
            None
        } else if self.is_paused {
            Some(Status::Paused)
        } else if debug_key_held {
            Some(Status::Running)
        } else {
            None
        };
        Overlay {
            visible,
            status,
            show_fps: visible && self.config.dbg.fps,
            show_field_count: visible && self.config.dbg.n_fields,
            draw_fields: visible && self.config.dbg.draw_fields,
        }
    }

    /// Number of gravity fields in the arena.
    pub fn field_count(&self) -> (r: usize)
        ensures
            r == self.gravity_fields@.len(),
    {
        self.gravity_fields.len()
    }

    /// Keeps the pixels within `[0, width] x [0, height]`, reversing the
    /// velocity on each axis on which a pixel was outside.
    pub fn keep_within_bounds(&mut self, width: i64, height: i64)
        requires
            old(self).wf(),
            surface_fits(width, height),
        ensures
            final(self).wf(),
            final(self).pixels@ == old(self).pixels@.map_values(
                |p: Pixel| bounced(p, width as int, height as int),
            ),
            final(self).gravity_fields == old(self).gravity_fields,
            final(self).rng == old(self).rng,
            final(self).is_paused == old(self).is_paused,
            final(self).config == old(self).config,
    {
        let n = self.pixels.len();
        let mut i: usize = 0;
        while i < n
            invariant
                n == self.pixels.len(),
                0 <= i <= n,
                old(self).pixels@.len() == n,
                surface_fits(width, height),
                self.gravity_fields == old(self).gravity_fields,
                self.rng == old(self).rng,
                self.is_paused == old(self).is_paused,
                self.config == old(self).config,
                forall|k: int| 0 <= k < n ==> #[trigger] self.pixels@[k].wf(),
                forall|k: int|
                    0 <= k < i ==> #[trigger] self.pixels@[k] == bounced(
                        old(self).pixels@[k],
                        width as int,
                        height as int,
                    ),
                forall|k: int| i <= k < n ==> #[trigger] self.pixels@[k] == old(self).pixels@[k],
            decreases n - i,
        {
            assert(self.pixels@[i as int].wf());
            let mut p = self.pixels[i];
            if p.position.x > width || p.position.x < 0 {
                p.velocity.x = -p.velocity.x;
            }
            if p.position.y > height || p.position.y < 0 {
                p.velocity.y = -p.velocity.y;
            }
            if p.position.x < 0 {
                p.position.x = 0;
            } else if p.position.x > width {
                p.position.x = width;
            }
            if p.position.y < 0 {
                p.position.y = 0;
            } else if p.position.y > height {
                p.position.y = height;
            }
            self.pixels[i] = p;
            i += 1;
        }
        assert(self.pixels@ =~= old(self).pixels@.map_values(
            |p: Pixel| bounced(p, width as int, height as int),
        ));
    }

    /// When pixels pass one edge, they are moved to the opposite one, as in
    /// Snake on an unbounded arena.
    pub fn snake_bounds(&mut self, width: i64, height: i64)
        requires
            old(self).wf(),
            surface_fits(width, height),
        ensures
            final(self).wf(),
            final(self).pixels@ == old(self).pixels@.map_values(
                |p: Pixel| wrapped(p, width as int, height as int),
            ),
            final(self).gravity_fields == old(self).gravity_fields,
            final(self).rng == old(self).rng,
            final(self).is_paused == old(self).is_paused,
            final(self).config == old(self).config,
    {
        let n = self.pixels.len();
        let mut i: usize = 0;
        while i < n
            invariant
                n == self.pixels.len(),
                0 <= i <= n,
                old(self).pixels@.len() == n,
                surface_fits(width, height),
                self.gravity_fields == old(self).gravity_fields,
                self.rng == old(self).rng,
                self.is_paused == old(self).is_paused,
                self.config == old(self).config,
                forall|k: int| 0 <= k < n ==> #[trigger] self.pixels@[k].wf(),
                forall|k: int|
                    0 <= k < i ==> #[trigger] self.pixels@[k] == wrapped(
                        old(self).pixels@[k],
                        width as int,
                        height as int,
                    ),
                forall|k: int| i <= k < n ==> #[trigger] self.pixels@[k] == old(self).pixels@[k],
            decreases n - i,
        {
            assert(self.pixels@[i as int].wf());
            let mut p = self.pixels[i];
            if p.position.x > width {
                p.position.x = 0;
            } else if p.position.x < 0 {
                p.position.x = width;
            }
            if p.position.y > height {
                p.position.y = 0;
            } else if p.position.y < 0 {
                p.position.y = height;
            }
            self.pixels[i] = p;
            i += 1;
        }
        assert(self.pixels@ =~= old(self).pixels@.map_values(
            |p: Pixel| wrapped(p, width as int, height as int),
        ));
    }

    /// Applies the boundary policy to every pixel.
    pub fn apply_bounds(&mut self, policy: BoundaryPolicy, width: i64, height: i64)
        requires
            old(self).wf(),
            surface_fits(width, height),
        ensures
            final(self).wf(),
            final(self).pixels@ == match policy {
                BoundaryPolicy::Wrap => old(self).pixels@.map_values(
                    |p: Pixel| wrapped(p, width as int, height as int),
                ),
                BoundaryPolicy::Bounce => old(self).pixels@.map_values(
                    |p: Pixel| bounced(p, width as int, height as int),
                ),
            },
            final(self).gravity_fields == old(self).gravity_fields,
            final(self).rng == old(self).rng,
            final(self).is_paused == old(self).is_paused,
            final(self).config == old(self).config,
    {
        match policy {
            BoundaryPolicy::Wrap => self.snake_bounds(width, height),
            BoundaryPolicy::Bounce => self.keep_within_bounds(width, height),
        }
    }
}

} // verus!
