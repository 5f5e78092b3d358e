//! The render-pass state machine.
//!
//! Each frame the orchestrator decides which passes run, from plain state:
//! the blend pass always runs while geometry is present; the max-weight
//! pass runs once per dataset, while the max-weight state is `Empty`; the
//! colormap pass runs only once the maximum is `Completed`; the export copy
//! runs once per dataset after the colormap has drawn into the export
//! texture.  The decisions come back as a [`FramePlan`] of plain values —
//! the device work itself lives with the caller.
//!
//! Asynchronous completions are tagged with a generation counter: a new
//! dataset bumps the generation, and a completion carrying a stale tag is
//! ignored, so a readback started against old geometry can never be applied
//! to new geometry.

use vstd::prelude::*;

use crate::camera::{
    camera_after, camera_wf, entire_view_camera, screen_to_world, tdiv, Camera, CameraEvent,
    MAX_DIM,
};
use crate::input::{input_wf, InputState};
use crate::mesh::BufferStorage;
use crate::readback::{
    decode_max_weight, max_word, red_words, uniform_payload, word_at, ReadbackError,
};

verus! {

/// Set-up progress, used for the per-dataset export image.
#[derive(Clone, Copy, Debug, PartialEq, Eq, Structural)]
pub enum InitStage {
    Incomplete,
    InProgress,
    Complete,
}

impl Default for InitStage {
    fn default() -> (r: Self)
        ensures
            r == InitStage::Incomplete,
    {
        InitStage::Incomplete
    }
}

/// Progress of the per-dataset maximum-weight readback.
#[derive(Clone, Copy, Debug, PartialEq, Eq, Structural)]
pub enum MaxWeightState {
    Empty,
    InProgress,
    Completed,
}

/// The meshes of one dataset: heatmap layers and outline layers, one per
/// level of detail.
pub struct Geometry {
    pub lod_layers: Vec<BufferStorage>,
    pub outline_layers: Vec<BufferStorage>,
}

pub open spec fn geometry_wf(g: Geometry) -> bool {
    g.lod_layers@.len() == 3 && g.outline_layers@.len() == 3
}

/// The zoom thresholds that select a level of detail, checked in order:
/// below the first cut the coarsest mesh draws, below the second the middle
/// one, above it the finest.
pub const LOD_CUT_LOW: i64 = 15_000_000;

pub const LOD_CUT_HIGH: i64 = 30_000_000;

/// Which level of detail a zoom factor selects; lower index means finer.
pub open spec fn lod_for_zoom(zoom: int) -> int {
    if zoom < LOD_CUT_LOW {
        2
    } else if zoom < LOD_CUT_HIGH {
        1
    } else {
        0
    }
}

/// Monotonicity of the selection: a higher zoom never selects a more
/// simplified mesh.
pub proof fn lemma_lod_selection_monotone(z1: int, z2: int)
    requires
        z1 <= z2,
    ensures
        lod_for_zoom(z2) <= lod_for_zoom(z1),
{
}

/// Executable LOD selection over the ordered threshold list.
pub fn select_lod(zoom: i64) -> (lod: usize)
    ensures
        lod == lod_for_zoom(zoom as int),
        lod < 3,
{
    if zoom < LOD_CUT_LOW {
        2
    } else if zoom < LOD_CUT_HIGH {
        1
    } else {
        0
    }
}

/// What the caller must do for one frame, as plain values.  `None` and
/// `false` mean the pass does not run.
pub struct FramePlan {
    /// Reconfigure the surface to this size before drawing (export start).
    pub resize_to: Option<(u32, u32)>,
    /// Restore the surface to this saved size (export finished).
    pub restore_to: Option<(u32, u32)>,
    /// Run the blend pass with this heatmap level of detail.
    pub blend_lod: Option<usize>,
    /// Run the max-weight pass and begin the asynchronous readback, tagged
    /// with this generation.
    pub begin_max_weight: Option<u64>,
    /// Run the colormap pass with this outline level of detail.
    pub colormap_outline_lod: Option<usize>,
    /// The colormap pass draws into the export texture instead of the
    /// surface.
    pub colormap_to_export: bool,
    /// Copy the export texture out and begin its readback, tagged with
    /// this generation.
    pub begin_export_copy: Option<u64>,
    /// Present the surface after drawing.
    pub present: bool,
}

/// The top-level render state: pass progress, the current dataset's
/// geometry, the camera with its saved interactive framing, and the
/// accumulated input.
pub struct State {
    pub max_weight_state: MaxWeightState,
    pub max_weight_bits: Option<u32>,
    pub export_stage: InitStage,
    pub buffer_mapped: bool,
    pub generation: u64,
    pub geometry: Option<Geometry>,
    pub camera: Camera,
    pub input_state: InputState,
    pub camera_storage: Option<Camera>,
    pub size_storage: Option<(u32, u32)>,
}

pub open spec fn state_wf(s: State) -> bool {
    &&& camera_wf(s.camera)
    &&& input_wf(s.input_state)
    &&& s.geometry matches Some(g) ==> geometry_wf(g)
    &&& s.camera_storage matches Some(c) ==> camera_wf(c)
}

/// The zoom delta one frame's scroll produces: scroll times the current
/// zoom, scaled by a thousandth.
pub open spec fn scroll_zoom_delta(scroll: int, zoom: int) -> int {
    tdiv(scroll * zoom, 1_000_000_000)
}

/// What one frame's camera logic computes: a zoom by the scroll-scaled
/// delta about the cursor, then a pan by the drag delta converted to world
/// coordinates at the new zoom.
pub open spec fn camera_logic_after(c: Camera, s: InputState) -> Camera {
    let dz = scroll_zoom_delta(s.mouse_scroll_delta as int, c.zoom as int);
    let c1 = camera_after(c, CameraEvent::Zoom(dz as i64, s.cursor_position));
    let w = screen_to_world(c1.zoom as int, s.mouse_drag_delta);
    camera_after(c1, CameraEvent::Translate((w.0 as i64, w.1 as i64)))
}

impl State {
    /// A fresh state: no dataset, nothing computed, the default camera.
    pub fn new() -> (s: State)
        ensures
            s.max_weight_state == MaxWeightState::Empty,
            s.max_weight_bits is None,
            s.export_stage == InitStage::Incomplete,
            !s.buffer_mapped,
            s.generation == 0,
            s.geometry is None,
            s.camera == (Camera {
                aspect: (800u32, 800u32),
                width: 800u32,
                height: 800u32,
                zoom: 1_000_000i64,
                position: (0i64, 0i64),
            }),
            s.camera_storage is None,
            s.size_storage is None,
            state_wf(s),
    {
        State {
            max_weight_state: MaxWeightState::Empty,
            max_weight_bits: None,
            export_stage: InitStage::Incomplete,
            buffer_mapped: false,
            generation: 0,
            geometry: None,
            camera: Camera {
                aspect: (800, 800),
                width: 800,
                height: 800,
                zoom: 1_000_000,
                position: (0, 0),
            },
            input_state: InputState::new(),
            camera_storage: None,
            size_storage: None,
        }
    }

    /// Forwards a window event to the input accumulator.
    pub fn handle_input_event(&mut self, event: crate::input::WindowEvent)
        requires
            state_wf(*old(self)),
        ensures
            state_wf(*final(self)),
            final(self).max_weight_state == old(self).max_weight_state,
            final(self).export_stage == old(self).export_stage,
            final(self).generation == old(self).generation,
            final(self).camera == old(self).camera,
    {
        self.input_state.eat_event(event);
    }

    /// Installs a freshly meshed dataset: geometry is replaced wholesale,
    /// the max-weight computation restarts from `Empty`, any outstanding
    /// export is discarded, and the generation moves on so completions of
    /// readbacks begun against the old dataset are ignored.
    pub fn on_incoming_data(&mut self, geometry: Geometry)
        requires
            state_wf(*old(self)),
            geometry_wf(geometry),
        ensures
            state_wf(*final(self)),
            final(self).geometry is Some,
            final(self).max_weight_state == MaxWeightState::Empty,
            final(self).export_stage == InitStage::Incomplete,
            final(self).generation == if old(self).generation < 0xFFFF_FFFF_FFFF_FFFF {
                old(self).generation + 1
            } else {
                old(self).generation as int
            },
            final(self).camera == old(self).camera,
            final(self).buffer_mapped == old(self).buffer_mapped,
            final(self).camera_storage == old(self).camera_storage,
            final(self).size_storage == old(self).size_storage,
    {
        self.geometry = Some(geometry);
        self.max_weight_state = MaxWeightState::Empty;
        self.export_stage = InitStage::Incomplete;
        if self.generation < 0xFFFF_FFFF_FFFF_FFFF {
            self.generation = self.generation + 1;
        }
    }

    /// Handles the completion of a max-weight readback: a stale generation
    /// is ignored; a misaligned buffer is the fatal layout fault; otherwise
    /// the maximum is decoded, the state moves to `Completed`, and the
    /// 16-byte uniform payload to write is returned.
    pub fn on_max_weight_mapped(&mut self, generation: u64, bytes: &Vec<u8>) -> (r: Result<
        Option<Vec<u8>>,
        ReadbackError,
    >)
        requires
            state_wf(*old(self)),
        ensures
            state_wf(*final(self)),
            generation != old(self).generation ==> r == Ok::<Option<Vec<u8>>, ReadbackError>(None)
                && *final(self) == *old(self),
            generation == old(self).generation && bytes@.len() % 16 != 0 ==> r == Err::<
                Option<Vec<u8>>,
                ReadbackError,
            >(ReadbackError::MisalignedBuffer) && *final(self) == *old(self),
            generation == old(self).generation && bytes@.len() % 16 == 0 ==> {
                &&& (r matches Ok(Some(p)) && p@.len() == 16 && word_at(p@, 0) == max_word(
                    red_words(bytes@),
                ) && (forall|t: int| 4 <= t < 16 ==> p@[t] == 0u8))
                &&& final(self).max_weight_state == MaxWeightState::Completed
                &&& final(self).max_weight_bits == Some(max_word(red_words(bytes@)))
                &&& final(self).export_stage == old(self).export_stage
                &&& final(self).buffer_mapped == old(self).buffer_mapped
                &&& final(self).generation == old(self).generation
                &&& final(self).geometry == old(self).geometry
                &&& final(self).camera == old(self).camera
                &&& final(self).camera_storage == old(self).camera_storage
                &&& final(self).size_storage == old(self).size_storage
            },
    {
        if generation != self.generation {
            return Ok(None);
        }
        match decode_max_weight(bytes) {
            Err(e) => Err(e),
            Ok(m) => {
                self.max_weight_state = MaxWeightState::Completed;
                self.max_weight_bits = Some(m);
                Ok(Some(uniform_payload(m)))
            },
        }
    }

    /// Consumes an export readback completion.  The mapping has finished
    /// whatever its generation, so the copy buffer is released either way
    /// — a later export may begin — but the image is composed only when
    /// the completion carries the current generation and this dataset's
    /// export copy was actually begun.
    pub fn on_export_mapped(&mut self, generation: u64) -> (r: bool)
        requires
            state_wf(*old(self)),
        ensures
            state_wf(*final(self)),
            r == (generation == old(self).generation && old(self).export_stage
                == InitStage::Complete),
            !final(self).buffer_mapped,
            *final(self) == (State { buffer_mapped: false, ..*old(self) }),
    {
        self.buffer_mapped = false;
        generation == self.generation && self.export_stage == InitStage::Complete
    }

    /// Reconfigures for a new surface size.  A zero dimension is ignored.
    /// As in the event loop this models, the camera takes the new size as
    /// reported (capped only at the machine limit the camera supports),
    /// while the returned surface size — for the surface and the textures
    /// the caller recreates — is capped per axis at the largest texture
    /// dimension the device reports.  The copy buffer is recreated with
    /// the surface, so it comes back unmapped.
    pub fn resize(&mut self, width: u32, height: u32, max_texture_dim: u32) -> (surface: (
        u32,
        u32,
    ))
        requires
            state_wf(*old(self)),
            1 <= max_texture_dim <= 65536,
        ensures
            state_wf(*final(self)),
            width == 0 || height == 0 ==> *final(self) == *old(self) && surface == (
                old(self).camera.width,
                old(self).camera.height,
            ),
            width > 0 && height > 0 ==> {
                let cw = if width <= MAX_DIM {
                    width
                } else {
                    MAX_DIM
                };
                let ch = if height <= MAX_DIM {
                    height
                } else {
                    MAX_DIM
                };
                &&& final(self).camera == crate::camera::camera_after(
                    old(self).camera,
                    CameraEvent::Resize(cw, ch),
                )
                &&& surface.0 == (if width <= max_texture_dim {
                    width as int
                } else {
                    max_texture_dim as int
                })
                &&& surface.1 == (if height <= max_texture_dim {
                    height as int
                } else {
                    max_texture_dim as int
                })
                &&& !final(self).buffer_mapped
                &&& final(self).max_weight_state == old(self).max_weight_state
                &&& final(self).export_stage == old(self).export_stage
                &&& final(self).generation == old(self).generation
                &&& final(self).geometry == old(self).geometry
            },
    {
        if width == 0 || height == 0 {
            return (self.camera.width, self.camera.height);
        }
        let cw = if width <= MAX_DIM {
            width
        } else {
            MAX_DIM
        };
        let ch = if height <= MAX_DIM {
            height
        } else {
            MAX_DIM
        };
        self.camera.update_camera(CameraEvent::Resize(cw, ch));
        self.buffer_mapped = false;
        let sw = if width <= max_texture_dim {
            width
        } else {
            max_texture_dim
        };
        let sh = if height <= max_texture_dim {
            height
        } else {
            max_texture_dim
        };
        (sw, sh)
    }

    /// Plans one frame and advances the state machine.
    ///
    /// `max_texture_dim` is the largest texture dimension the device
    /// reports; an export draws at that width to maximise resolution.
    pub fn plan_frame(&mut self, max_texture_dim: u32) -> (plan: FramePlan)
        requires
            state_wf(*old(self)),
            16 <= max_texture_dim <= 65536,
        ensures
            state_wf(*final(self)),
            final(self).generation == old(self).generation,
            final(self).geometry == old(self).geometry,
            old(self).geometry is None ==> *final(self) == *old(self) && plan.resize_to is None
                && plan.restore_to is None && plan.blend_lod is None && plan.begin_max_weight
                is None && plan.colormap_outline_lod is None && !plan.colormap_to_export
                && plan.begin_export_copy is None && !plan.present,
            old(self).geometry is Some ==> {
                // Export start: a dataset whose image was not yet produced
                // resizes to export resolution and saves the current size.
                &&& plan.resize_to is Some <==> old(self).export_stage == InitStage::Incomplete
                &&& plan.resize_to matches Some(d) ==> d.0 == max_texture_dim && d.1
                    == (max_texture_dim * 9) / 16 && final(self).size_storage == Some(
                    (old(self).camera.width, old(self).camera.height),
                )
                // Blend pass: always runs, at the level of detail the
                // camera's final zoom selects.
                &&& plan.blend_lod == Some(lod_for_zoom(final(self).camera.zoom as int) as usize)
                // Max-weight pass: exactly while the state is `Empty`, and
                // the readback carries the current generation.
                &&& plan.begin_max_weight is Some <==> old(self).max_weight_state
                    == MaxWeightState::Empty
                &&& plan.begin_max_weight matches Some(g) ==> g == old(self).generation
                &&& final(self).max_weight_state == (if old(self).max_weight_state
                    == MaxWeightState::Empty {
                    MaxWeightState::InProgress
                } else {
                    old(self).max_weight_state
                })
                // Colormap pass: exactly once the maximum is known.
                &&& plan.colormap_outline_lod is Some <==> old(self).max_weight_state
                    == MaxWeightState::Completed
                &&& plan.colormap_outline_lod matches Some(l) ==> l == lod_for_zoom(
                    final(self).camera.zoom as int,
                )
                // It draws into the export texture while an export is in
                // flight for this dataset.
                &&& plan.colormap_to_export <==> old(self).max_weight_state
                    == MaxWeightState::Completed && (old(self).export_stage
                    == InitStage::Incomplete || old(self).export_stage == InitStage::InProgress)
                // Export copy: once per dataset, only after the colormap
                // drew the export image and while the buffer is free.
                &&& plan.begin_export_copy is Some <==> plan.colormap_to_export && !old(self).buffer_mapped
                &&& plan.begin_export_copy matches Some(g) ==> g == old(self).generation
                // The export stage on every path: an unstarted export
                // starts; a started one completes the moment its copy
                // begins; otherwise it stays put.
                &&& final(self).export_stage == (if plan.begin_export_copy is Some {
                    InitStage::Complete
                } else if old(self).export_stage == InitStage::Incomplete {
                    InitStage::InProgress
                } else {
                    old(self).export_stage
                })
                // The copy buffer is busy afterwards exactly if it already
                // was or an export copy just began.
                &&& final(self).buffer_mapped == (old(self).buffer_mapped
                    || plan.begin_export_copy is Some)
                // Present: only when the colormap drew to the surface.
                &&& plan.present <==> plan.colormap_outline_lod is Some
                    && !plan.colormap_to_export
                // Camera override: while the maximum or an export image is
                // still owed, the frame draws the canonical full-world
                // framing and the interactive camera is parked.
                &&& (old(self).max_weight_state == MaxWeightState::Empty || (old(self).export_stage == InitStage::Incomplete || old(self).export_stage
                    == InitStage::InProgress)) ==> final(self).camera == entire_view_camera()
                    && final(self).camera_storage is Some
                // Once neither is owed, the parked interactive camera and
                // surface size come back.
                &&& old(self).max_weight_state != MaxWeightState::Empty && old(self).export_stage
                    == InitStage::Complete ==> (old(self).camera_storage matches Some(c)
                    ==> final(self).camera == c && final(self).camera_storage is None
                    && plan.restore_to == old(self).size_storage && final(self).size_storage
                    is None)
                // On an ordinary interactive frame — nothing owed, nothing
                // parked — the frame draws exactly the camera the drained
                // input produces.
                &&& old(self).max_weight_state != MaxWeightState::Empty && old(self).export_stage
                    == InitStage::Complete && old(self).camera_storage is None
                    ==> final(self).camera == camera_logic_after(
                    old(self).camera,
                    old(self).input_state,
                )
                // When the frame parks the camera, it parks that same
                // camera (after the export resize, if this frame began the
                // export).
                &&& (old(self).max_weight_state == MaxWeightState::Empty || old(self).export_stage
                    == InitStage::Incomplete || old(self).export_stage == InitStage::InProgress)
                    && old(self).camera_storage is None ==> final(self).camera_storage == Some(
                    camera_logic_after(
                        if old(self).export_stage == InitStage::Incomplete {
                            camera_after(
                                old(self).camera,
                                CameraEvent::Resize(
                                    max_texture_dim,
                                    ((max_texture_dim * 9) / 16) as u32,
                                ),
                            )
                        } else {
                            old(self).camera
                        },
                        old(self).input_state,
                    ),
                )
                // The frame drains the accumulated input.
                &&& final(self).input_state.mouse_scroll_delta == 0
                &&& final(self).input_state.mouse_drag_delta == (0i64, 0i64)
            },
    {
        let mut plan = FramePlan {
            resize_to: None,
            restore_to: None,
            blend_lod: None,
            begin_max_weight: None,
            colormap_outline_lod: None,
            colormap_to_export: false,
            begin_export_copy: None,
            present: false,
        };
        if self.geometry.is_none() {
            return plan;
        }

        // Export start: raise the resolution to the device maximum for the
        // duration of the export.
        if self.export_stage == InitStage::Incomplete {
            let w = max_texture_dim;
            let h = (max_texture_dim * 9) / 16;
            self.size_storage = Some((self.camera.width, self.camera.height));
            proof {
                vstd::arithmetic::div_mod::lemma_div_pos_is_pos((w * 9) as int, 16);
                vstd::arithmetic::div_mod::lemma_div_nonincreasing((w * 9) as int, 16);
                assert(1 <= (w * 9) as int / 16 <= 65536) by {
                    assert((w * 9) as int / 16 >= 144int / 16) by {
                        vstd::arithmetic::div_mod::lemma_div_is_ordered(
                            144,
                            (w * 9) as int,
                            16,
                        );
                    }
                    assert((w * 9) as int / 16 <= 589824int / 16) by {
                        vstd::arithmetic::div_mod::lemma_div_is_ordered(
                            (w * 9) as int,
                            589824,
                            16,
                        );
                    }
                }
            }
            self.camera.update_camera(CameraEvent::Resize(w, h));
            plan.resize_to = Some((w, h));
            self.export_stage = InitStage::InProgress;
        }

        // Interactive camera motion from the drained input deltas.
        run_camera_logic(&mut self.camera, &mut self.input_state);

        // While weight statistics or the export image are owed, draw the
        // canonical full-world framing instead of the interactive camera.
        if self.max_weight_state == MaxWeightState::Empty || self.export_stage
            == InitStage::InProgress {
            if self.camera_storage.is_none() {
                self.camera_storage = Some(self.camera);
            }
            self.camera.update_camera(CameraEvent::EntireView);
        } else if self.camera_storage.is_some() {
            let saved = self.camera_storage;
            self.camera_storage = None;
            match saved {
                Some(c) => {
                    self.camera = c;
                },
                None => {},
            }
            plan.restore_to = self.size_storage;
            self.size_storage = None;
        }

        // Blend pass, always; level of detail from the zoom in effect.
        plan.blend_lod = Some(select_lod(self.camera.zoom));

        if self.max_weight_state == MaxWeightState::Empty {
            // Max-weight pass: render the blend texture into the copy
            // texture and begin the tagged readback.
            plan.begin_max_weight = Some(self.generation);
            self.max_weight_state = MaxWeightState::InProgress;
        } else if self.max_weight_state == MaxWeightState::Completed {
            // Colormap pass: outline first, then the ramp-mapped heatmap.
            plan.colormap_outline_lod = Some(select_lod(self.camera.zoom));
            plan.colormap_to_export = self.export_stage == InitStage::InProgress;
            if plan.colormap_to_export && !self.buffer_mapped {
                plan.begin_export_copy = Some(self.generation);
                self.export_stage = InitStage::Complete;
                self.buffer_mapped = true;
            }
            plan.present = !plan.colormap_to_export;
        }
        plan
    }
}

/// The full-viewport quad the full-screen passes draw: the whole world
/// extent as two triangles.
pub fn rectangle_layer() -> (r: (Vec<(i64, i64)>, Vec<u16>))
    ensures
        r.0@ == seq![
            (-180_000_000i64, -90_000_000i64),
            (180_000_000i64, -90_000_000i64),
            (180_000_000i64, 90_000_000i64),
            (-180_000_000i64, 90_000_000i64),
        ],
        r.1@ == seq![0u16, 2u16, 3u16, 0u16, 2u16, 1u16],
{
    let mut vertices: Vec<(i64, i64)> = Vec::new();
    vertices.push((-180_000_000, -90_000_000));
    vertices.push((180_000_000, -90_000_000));
    vertices.push((180_000_000, 90_000_000));
    vertices.push((-180_000_000, 90_000_000));
    let mut indices: Vec<u16> = Vec::new();
    indices.push(0);
    indices.push(2);
    indices.push(3);
    indices.push(0);
    indices.push(2);
    indices.push(1);
    proof {
        assert(vertices@ =~= seq![
            (-180_000_000i64, -90_000_000i64),
            (180_000_000i64, -90_000_000i64),
            (180_000_000i64, 90_000_000i64),
            (-180_000_000i64, 90_000_000i64),
        ]);
        assert(indices@ =~= seq![0u16, 2u16, 3u16, 0u16, 2u16, 1u16]);
    }
    (vertices, indices)
}

/// The typed completion messages the asynchronous work enqueues back onto
/// the event loop: a freshly meshed dataset, or a finished buffer mapping
/// tagged with the generation it was begun under.
pub enum UserMessage {
    IncomingData(Vec<BufferStorage>, Vec<BufferStorage>),
    MaxWeightMapped(u64, Vec<u8>),
    ExportMapped(u64),
}

/// What the caller must do after an event was dispatched.
pub enum EventOutcome {
    /// Nothing further; the state machine absorbed the event.
    Handled,
    /// Write this payload into the max-weight uniform buffer and unmap the
    /// copy buffer.
    WriteMaxWeight(Vec<u8>),
    /// Decode the mapped export buffer and hand the pixels to the image
    /// compositor.
    ComposeExport,
    /// A completion for a superseded dataset; do nothing.
    Ignored,
}

impl State {
    /// Dispatches one completion message.
    pub fn user_event(&mut self, message: UserMessage) -> (r: Result<EventOutcome, ReadbackError>)
        requires
            state_wf(*old(self)),
            message matches UserMessage::IncomingData(d, o) ==> d@.len() == 3 && o@.len() == 3,
        ensures
            state_wf(*final(self)),
            message matches UserMessage::IncomingData(d, o) ==> {
                &&& r matches Ok(EventOutcome::Handled)
                &&& final(self).geometry is Some
                &&& final(self).max_weight_state == MaxWeightState::Empty
                &&& final(self).export_stage == InitStage::Incomplete
                &&& final(self).generation == if old(self).generation < 0xFFFF_FFFF_FFFF_FFFF {
                    old(self).generation + 1
                } else {
                    old(self).generation as int
                }
            },
            message matches UserMessage::MaxWeightMapped(g, bytes) ==> {
                &&& g != old(self).generation ==> (r matches Ok(EventOutcome::Ignored))
                    && *final(self) == *old(self)
                &&& g == old(self).generation && bytes@.len() % 16 != 0 ==> (r matches Err(e)
                    && e == ReadbackError::MisalignedBuffer) && *final(self) == *old(self)
                &&& g == old(self).generation && bytes@.len() % 16 == 0 ==> {
                    &&& (r matches Ok(EventOutcome::WriteMaxWeight(p)) && p@.len() == 16
                        && word_at(p@, 0) == max_word(red_words(bytes@)) && (forall|t: int|
                        4 <= t < 16 ==> p@[t] == 0u8))
                    &&& final(self).max_weight_state == MaxWeightState::Completed
                    &&& final(self).max_weight_bits == Some(max_word(red_words(bytes@)))
                }
            },
            // An export completion always frees the copy buffer; its image
            // is composed only when it is the current dataset's.
            message matches UserMessage::ExportMapped(g) ==> *final(self) == (State {
                buffer_mapped: false,
                ..*old(self)
            }) && (
            if g == old(self).generation && old(self).export_stage == InitStage::Complete {
                r matches Ok(EventOutcome::ComposeExport)
            } else {
                r matches Ok(EventOutcome::Ignored)
            }),
    {
        match message {
            UserMessage::IncomingData(lod_layers, outline_layers) => {
                self.on_incoming_data(Geometry { lod_layers, outline_layers });
                Ok(EventOutcome::Handled)
            },
            UserMessage::MaxWeightMapped(g, bytes) => {
                match self.on_max_weight_mapped(g, &bytes) {
                    Err(e) => Err(e),
                    Ok(None) => Ok(EventOutcome::Ignored),
                    Ok(Some(p)) => Ok(EventOutcome::WriteMaxWeight(p)),
                }
            },
            UserMessage::ExportMapped(g) => {
                if self.on_export_mapped(g) {
                    Ok(EventOutcome::ComposeExport)
                } else {
                    Ok(EventOutcome::Ignored)
                }
            },
        }
    }
}

/// Applies one frame's accumulated input to the camera: the drained
/// scroll becomes a zoom about the cursor, and the drained drag becomes a
/// pan in world coordinates.  Whatever the camera was before, it comes out
/// with its viewport inside the world.
pub fn run_camera_logic(camera: &mut crate::camera::Camera, input_state: &mut InputState)
    requires
        camera_wf(*old(camera)),
        input_wf(*old(input_state)),
    ensures
        camera_wf(*final(camera)),
        crate::camera::clamped(*final(camera)),
        *final(camera) == camera_logic_after(*old(camera), *old(input_state)),
        input_wf(*final(input_state)),
        *final(input_state) == (InputState {
            mouse_scroll_delta: 0i64,
            mouse_drag_delta: (0i64, 0i64),
            ..*old(input_state)
        }),
{
    let scroll = input_state.consume_scroll_delta();
    let dz = scroll_zoom_delta_exec(scroll, camera.zoom);
    let anchor = input_state.cursor_position;
    proof {
        assert(dz as int == scroll_zoom_delta(
            old(input_state).mouse_scroll_delta as int,
            old(camera).zoom as int,
        ));
        crate::camera::lemma_camera_clamp_invariant(
            *camera,
            CameraEvent::Zoom(dz, anchor),
        );
    }
    camera.update_camera(CameraEvent::Zoom(dz, anchor));
    let drag = input_state.consume_drag_delta();
    let world = camera.mouse_coordinate_convert(drag);
    proof {
        let w = screen_to_world(camera.zoom as int, drag);
        assert(world.0 == w.0 as i64 && world.1 == w.1 as i64);
        crate::camera::lemma_camera_clamp_invariant(
            *camera,
            CameraEvent::Translate(world),
        );
    }
    camera.update_camera(CameraEvent::Translate(world));
}

/// Executable form of [`scroll_zoom_delta`].
fn scroll_zoom_delta_exec(scroll: i64, zoom: i64) -> (r: i64)
    requires
        -1_000_000_000_000_000 <= scroll <= 1_000_000_000_000_000,
        0 < zoom <= 1_000_000_000_000,
    ensures
        r as int == scroll_zoom_delta(scroll as int, zoom as int),
{
    proof {
        crate::geom::lemma_mul_bound(
            scroll as int,
            zoom as int,
            1_000_000_000_000_000,
            1_000_000_000_000,
        );
    }
    let p: i128 = (scroll as i128) * (zoom as i128);
    if p >= 0 {
        let q = (p as u128) / 1_000_000_000;
        proof {
            vstd::arithmetic::div_mod::lemma_div_pos_is_pos(p as int, 1_000_000_000);
            vstd::arithmetic::div_mod::lemma_div_is_ordered(
                p as int,
                1_000_000_000_000_000_000_000_000_000,
                1_000_000_000,
            );
        }
        q as i64
    } else {
        let m = -p;
        let q = (m as u128) / 1_000_000_000;
        proof {
            vstd::arithmetic::div_mod::lemma_div_pos_is_pos(m as int, 1_000_000_000);
            vstd::arithmetic::div_mod::lemma_div_is_ordered(
                m as int,
                1_000_000_000_000_000_000_000_000_000,
                1_000_000_000,
            );
        }
        -(q as i64)
    }
}

} // verus!
