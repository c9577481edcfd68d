use ray_tracer::anti_aliasing::{AntiAliasing, AntiAliasingTechnique};
use ray_tracer::code_profiler::CodeProfiler;
use ray_tracer::renderer::{assemble_frame, Renderer};

#[test]
fn supersampling_traces_every_sample_with_jitter() {
    let aa = AntiAliasing::new(10, AntiAliasingTechnique::SuperSampling);
    assert!(aa.is_jittered());
    assert_eq!(aa.sample_count(), 10);
}

#[test]
fn other_techniques_trace_one_ray_without_jitter() {
    let techniques = [
        AntiAliasingTechnique::MonteCarlo,
        AntiAliasingTechnique::Spatial,
        AntiAliasingTechnique::Temporal,
        AntiAliasingTechnique::Disabled,
    ];
    for technique in techniques {
        let aa = AntiAliasing::new(100, technique);
        assert!(!aa.is_jittered());
        assert_eq!(aa.sample_count(), 1);
    }
}

#[test]
fn renderer_keeps_its_sample_count() {
    let renderer = Renderer::new(100);
    assert_eq!(renderer.samples_per_pixel(), 100);
}

#[test]
fn profiler_starts_empty() {
    let _profiler = CodeProfiler::new();
}

#[test]
fn frame_is_row_major_rgb_from_the_top() {
    let width: usize = 4;
    let height: usize = 3;
    let frame = assemble_frame(width, height, &|x: usize, y: usize| {
        [x as u8, y as u8, (10 * y + x) as u8]
    });
    assert_eq!(frame.len(), 3 * width * height);
    for y in 0..height {
        for x in 0..width {
            let o = 3 * (y * width + x);
            assert_eq!(frame[o], x as u8);
            assert_eq!(frame[o + 1], y as u8);
            assert_eq!(frame[o + 2], (10 * y + x) as u8);
        }
    }
    // pixel (2, 1) sits at offset 3 * (1 * 4 + 2)
    assert_eq!(&frame[18..21], &[2, 1, 12]);
}

#[test]
fn empty_frame_has_no_bytes() {
    let frame = assemble_frame(0, 5, &|_x: usize, _y: usize| [255, 255, 255]);
    assert!(frame.is_empty());
    let frame = assemble_frame(5, 0, &|_x: usize, _y: usize| [255, 255, 255]);
    assert!(frame.is_empty());
}

#[test]
fn single_pixel_frame() {
    let frame = assemble_frame(1, 1, &|_x: usize, _y: usize| [7, 8, 9]);
    assert_eq!(frame, vec![7, 8, 9]);
}
