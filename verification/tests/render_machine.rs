//! The readback decoding and the render-pass state machine, including the
//! end-to-end scenario: two overlapping rectangles blended additively.

use heatmap::machine::{EventOutcome, Geometry, InitStage, MaxWeightState, State, UserMessage};
use heatmap::mesh::MeshBuilder;
use heatmap::machine::rectangle_layer;
use heatmap::readback::{
    aligned_copy_width, copy_buffer_size, decode_max_weight, decode_pixels, uniform_payload,
    ReadbackError,
};

/// A readback buffer of 16-byte pixels whose red channels hold the given
/// values; the other channels hold junk the decoder must skip.
fn pixels_with_reds(reds: &[f32]) -> Vec<u8> {
    let mut bytes = Vec::new();
    for (i, r) in reds.iter().enumerate() {
        bytes.extend_from_slice(&r.to_le_bytes());
        bytes.extend_from_slice(&(i as f32 + 100.0).to_le_bytes());
        bytes.extend_from_slice(&(-3.5f32).to_le_bytes());
        bytes.extend_from_slice(&1.0f32.to_le_bytes());
    }
    bytes
}

#[test]
fn max_weight_decodes_largest_red_value() {
    let bytes = pixels_with_reds(&[0.0, 3.0, 7.0, 2.0]);
    let bits = decode_max_weight(&bytes).unwrap();
    assert_eq!(f32::from_bits(bits), 7.0);

    let payload = uniform_payload(bits);
    assert_eq!(payload.len(), 16);
    assert_eq!(&payload[..4], &7.0f32.to_le_bytes());
    assert!(payload[4..].iter().all(|&b| b == 0));
}

#[test]
fn max_weight_is_clamped_to_zero() {
    let bytes = pixels_with_reds(&[-5.0, -1.25]);
    let bits = decode_max_weight(&bytes).unwrap();
    assert_eq!(f32::from_bits(bits), 0.0);
}

#[test]
fn misaligned_buffer_is_a_fatal_layout_fault() {
    let bytes = vec![0u8; 24];
    assert_eq!(
        decode_max_weight(&bytes),
        Err(ReadbackError::MisalignedBuffer)
    );
    assert!(decode_max_weight(&Vec::new()).is_ok());
}

#[test]
fn export_decode_reads_every_channel() {
    let bytes = pixels_with_reds(&[1.0, 2.0]);
    let words = decode_pixels(&bytes);
    assert_eq!(words.len(), 8);
    assert_eq!(f32::from_bits(words[0]), 1.0);
    assert_eq!(f32::from_bits(words[4]), 2.0);
    assert_eq!(f32::from_bits(words[2]), -3.5);
}

fn square(x: i64, y: i64, side: i64) -> Vec<(i64, i64)> {
    vec![(x, y), (x + side, y), (x + side, y + side), (x, y + side), (x, y)]
}

fn two_rectangles() -> Geometry {
    let positions = vec![square(0, 0, 10_000_000), square(5_000_000, 5_000_000, 10_000_000)];
    let weights: Vec<u64> = vec![2, 5];
    Geometry {
        lod_layers: MeshBuilder::build(&positions, &weights),
        outline_layers: MeshBuilder::build_outline(&positions),
    }
}

#[test]
fn completion_event_moves_empty_to_completed() {
    let mut st = State::new();
    st.on_incoming_data(two_rectangles());
    assert_eq!(st.max_weight_state, MaxWeightState::Empty);
    let generation = st.generation;
    let bytes = pixels_with_reds(&[1.0]);
    let payload = st.on_max_weight_mapped(generation, &bytes).unwrap();
    assert!(payload.is_some());
    assert_eq!(st.max_weight_state, MaxWeightState::Completed);
}

#[test]
fn new_dataset_resets_state_and_discards_export() {
    let mut st = State::new();
    st.on_incoming_data(two_rectangles());
    let g1 = st.generation;
    let _ = st.plan_frame(3200);
    let bytes = pixels_with_reds(&[4.0]);
    let _ = st.on_max_weight_mapped(g1, &bytes).unwrap();
    let _ = st.plan_frame(3200);
    assert_eq!(st.export_stage, InitStage::Complete);
    // A new dataset load, whatever the state, resets the max-weight
    // computation and discards the outstanding export.
    st.on_incoming_data(two_rectangles());
    assert_eq!(st.max_weight_state, MaxWeightState::Empty);
    assert_eq!(st.export_stage, InitStage::Incomplete);
    assert_eq!(st.generation, g1 + 1);
}

#[test]
fn stale_completions_are_ignored() {
    let mut st = State::new();
    st.on_incoming_data(two_rectangles());
    let old_generation = st.generation;
    let _ = st.plan_frame(3200);
    st.on_incoming_data(two_rectangles());
    let bytes = pixels_with_reds(&[9.0]);
    // The readback begun against the old dataset completes now: ignored.
    let r = st.on_max_weight_mapped(old_generation, &bytes).unwrap();
    assert!(r.is_none());
    assert_eq!(st.max_weight_state, MaxWeightState::Empty);
    assert!(!st.on_export_mapped(old_generation));
}

#[test]
fn overlapping_rectangles_blend_to_seven() {
    // Two overlapping rectangles with weights 2 and 5: additive blending
    // gives the overlap 7, which the readback reports as the maximum, and
    // an export at 3200x1600 decodes to exactly 3200*1600*4 values.
    let mut st = State::new();
    let geometry = two_rectangles();
    for lod in &geometry.lod_layers {
        assert!(lod.vertices[..4].iter().all(|v| v.weight == 2));
        assert!(lod.vertices[4..].iter().all(|v| v.weight == 5));
    }
    st.on_incoming_data(geometry);
    let generation = st.generation;

    // First frame: export starts, blend runs, max-weight readback begins.
    let plan = st.plan_frame(3200);
    assert_eq!(plan.resize_to, Some((3200, 1800)));
    // The full-world framing zooms far out, selecting the coarsest mesh.
    assert_eq!(plan.blend_lod, Some(2));
    assert_eq!(plan.begin_max_weight, Some(generation));
    assert!(plan.colormap_outline_lod.is_none());
    assert_eq!(st.max_weight_state, MaxWeightState::InProgress);

    // The blend texture: weight 2 alone, weight 5 alone, 2+5 where the
    // rectangles overlap, and empty background.
    let blend = pixels_with_reds(&[2.0, 5.0, 7.0, 0.0]);
    let payload = st.on_max_weight_mapped(generation, &blend).unwrap().unwrap();
    assert_eq!(&payload[..4], &7.0f32.to_le_bytes());
    assert!(payload[4..].iter().all(|&b| b == 0));
    assert_eq!(st.max_weight_bits, Some(7.0f32.to_bits()));
    assert_eq!(st.max_weight_state, MaxWeightState::Completed);

    // Next frame: the colormap draws into the export texture and the
    // export copy begins.
    let plan = st.plan_frame(3200);
    assert!(plan.colormap_outline_lod.is_some());
    assert!(plan.colormap_to_export);
    assert_eq!(plan.begin_export_copy, Some(generation));
    assert!(!plan.present);
    assert!(st.on_export_mapped(generation));

    // The export readback: 3200x1600 pixels, 16 bytes each, decode to
    // exactly 3200*1600*4 channel values.
    let export_bytes = vec![0u8; 3200 * 1600 * 16];
    let words = decode_pixels(&export_bytes);
    assert_eq!(words.len(), 3200 * 1600 * 4);
}

#[test]
fn frames_without_geometry_do_nothing() {
    let mut st = State::new();
    let plan = st.plan_frame(3200);
    assert!(plan.blend_lod.is_none());
    assert!(plan.begin_max_weight.is_none());
    assert!(plan.colormap_outline_lod.is_none());
    assert!(!plan.present);
}

#[test]
fn surface_presents_once_export_is_done() {
    let mut st = State::new();
    st.on_incoming_data(two_rectangles());
    let generation = st.generation;
    let _ = st.plan_frame(3200);
    let blend = pixels_with_reds(&[1.0]);
    let _ = st.on_max_weight_mapped(generation, &blend).unwrap();
    let _ = st.plan_frame(3200);
    // Export finished: the next frame restores the camera and presents.
    let plan = st.plan_frame(3200);
    assert!(plan.colormap_outline_lod.is_some());
    assert!(!plan.colormap_to_export);
    assert!(plan.present);
}

#[test]
fn user_event_dispatches_typed_messages() {
    let mut st = State::new();
    let positions = vec![square(0, 0, 10_000_000)];
    let weights: Vec<u64> = vec![4];
    let r = st.user_event(UserMessage::IncomingData(
        MeshBuilder::build(&positions, &weights),
        MeshBuilder::build_outline(&positions),
    ));
    assert!(matches!(r, Ok(EventOutcome::Handled)));
    let generation = st.generation;

    let blend = pixels_with_reds(&[4.0]);
    match st.user_event(UserMessage::MaxWeightMapped(generation, blend)) {
        Ok(EventOutcome::WriteMaxWeight(p)) => assert_eq!(&p[..4], &4.0f32.to_le_bytes()),
        other => panic!("unexpected outcome: {:?}", other.is_ok()),
    }
    assert_eq!(st.max_weight_state, MaxWeightState::Completed);

    // Completions tagged with a superseded generation are ignored.
    let stale = st.user_event(UserMessage::MaxWeightMapped(generation + 1, Vec::new()));
    assert!(matches!(stale, Ok(EventOutcome::Ignored)));
    let export = st.user_event(UserMessage::ExportMapped(generation));
    assert!(matches!(export, Ok(EventOutcome::Ignored)));
}

#[test]
fn resize_caps_the_surface_not_the_camera() {
    let mut st = State::new();
    // The camera takes the size as reported; only the returned surface
    // size is capped at the device limit.
    let surface = st.resize(4000, 3000, 2048);
    assert_eq!((st.camera.width, st.camera.height), (4000, 3000));
    assert_eq!(surface, (2048, 2048));
    assert!(!st.buffer_mapped);
    // A zero dimension is ignored.
    let surface = st.resize(0, 100, 2048);
    assert_eq!(st.camera.width, 4000);
    assert_eq!(surface, (4000, 3000));
    let surface = st.resize(640, 480, 2048);
    assert_eq!((st.camera.width, st.camera.height), (640, 480));
    assert_eq!(surface, (640, 480));
}

#[test]
fn export_completion_frees_the_copy_buffer() {
    // A full export cycle for a first dataset, then a second dataset:
    // consuming the export completion releases the copy buffer, so the
    // second dataset's export runs and the surface presents again.
    let mut st = State::new();
    st.on_incoming_data(two_rectangles());
    let g1 = st.generation;
    let _ = st.plan_frame(3200);
    let _ = st.on_max_weight_mapped(g1, &pixels_with_reds(&[1.0])).unwrap();
    let plan = st.plan_frame(3200);
    assert_eq!(plan.begin_export_copy, Some(g1));
    assert!(st.buffer_mapped);
    assert!(st.on_export_mapped(g1));
    assert!(!st.buffer_mapped);

    // Second dataset: the whole flow repeats.
    st.on_incoming_data(two_rectangles());
    let g2 = st.generation;
    let _ = st.plan_frame(3200);
    let _ = st.on_max_weight_mapped(g2, &pixels_with_reds(&[2.0])).unwrap();
    let plan = st.plan_frame(3200);
    assert_eq!(plan.begin_export_copy, Some(g2));
    assert!(st.on_export_mapped(g2));
    let plan = st.plan_frame(3200);
    assert!(plan.present);
}

#[test]
fn stale_export_completion_frees_the_buffer_without_composing() {
    // A new dataset arrives while the first dataset's export readback is
    // still in flight.  When the stale completion lands, the buffer is
    // released — the mapping did finish — but no image is composed, and
    // the new dataset's export can then proceed.
    let mut st = State::new();
    st.on_incoming_data(two_rectangles());
    let g1 = st.generation;
    let _ = st.plan_frame(3200);
    let _ = st.on_max_weight_mapped(g1, &pixels_with_reds(&[1.0])).unwrap();
    let plan = st.plan_frame(3200);
    assert_eq!(plan.begin_export_copy, Some(g1));

    st.on_incoming_data(two_rectangles());
    let g2 = st.generation;
    let _ = st.plan_frame(3200);
    let _ = st.on_max_weight_mapped(g2, &pixels_with_reds(&[2.0])).unwrap();
    // The new export waits while the buffer is still mapped.
    let plan = st.plan_frame(3200);
    assert!(plan.colormap_to_export);
    assert_eq!(plan.begin_export_copy, None);
    // The first dataset's completion lands: ignored, but the buffer frees.
    assert!(!st.on_export_mapped(g1));
    assert!(!st.buffer_mapped);
    let plan = st.plan_frame(3200);
    assert_eq!(plan.begin_export_copy, Some(g2));
}

#[test]
fn copy_rows_are_256_byte_aligned() {
    assert_eq!(aligned_copy_width(800), 1024);
    assert_eq!(aligned_copy_width(1024), 1024);
    assert_eq!(aligned_copy_width(1), 256);
    let size = copy_buffer_size(800, 600);
    assert_eq!(size, 16 * 1024 * 600);
    assert_eq!(size % 16, 0);
}

#[test]
fn full_world_quad_spans_the_world() {
    let (vertices, indices) = rectangle_layer();
    assert_eq!(
        vertices,
        vec![
            (-180_000_000, -90_000_000),
            (180_000_000, -90_000_000),
            (180_000_000, 90_000_000),
            (-180_000_000, 90_000_000),
        ]
    );
    assert_eq!(indices, vec![0, 2, 3, 0, 2, 1]);
}
