use raytrace::directlighting::DirectLightingIntegrator;
use raytrace::directlighting::LightStrategy;
use raytrace::film::Extent;
use raytrace::film::pixel_index;
use raytrace::path::PathIntegrator;
use raytrace::path::SAMPLE_DEPTH;
use raytrace::path::adds_emitted;
use raytrace::path::roulette_active;
use raytrace::path::uses_stratified;
use raytrace::rng::RNG;
use raytrace::sample::SampleLayout;
use raytrace::sampler::RandomSampler;
use raytrace::sampler::SamplerWindow;
use raytrace::texture::ConstantTexture;
use raytrace::whitted::WhittedIntegrator;

#[test]
fn direct_lighting_new_and_default() {
    let d = DirectLightingIntegrator::new(LightStrategy::SampleOneUniform, 3);
    assert!(matches!(d.strategy, LightStrategy::SampleOneUniform));
    assert_eq!(d.max_depth, 3);
    assert!(d.light_num_offset.is_none());
    let d = DirectLightingIntegrator::default();
    assert!(matches!(d.strategy, LightStrategy::SampleAllUniform));
    assert_eq!(d.max_depth, 5);
}

#[test]
fn direct_lighting_requests_per_light_groups() {
    let mut layout = SampleLayout::new();
    let mut integrator = DirectLightingIntegrator::new(LightStrategy::SampleAllUniform, 5);
    let sampler = RandomSampler::new(SamplerWindow::from_dimensions(8, 8), 1);
    let light_counts = vec![1u32, 4u32];
    integrator.request_samples(Some(&sampler), &mut layout, &light_counts);

    assert_eq!(integrator.light_sample_offsets.len(), 2);
    assert_eq!(integrator.bsdf_sample_offsets.len(), 2);
    assert!(integrator.light_num_offset.is_none());
    assert_eq!(integrator.light_sample_offsets[0].n_samples, 1);
    assert_eq!(integrator.light_sample_offsets[1].n_samples, 4);
    assert_eq!(integrator.bsdf_sample_offsets[1].n_samples, 4);

    layout.allocate_sample_memory();
    // 1D groups [1, 1, 4, 4], 2D groups [1, 1, 4, 4]: 10 + 2 * 10 cells.
    assert_eq!(layout.mem_size(), 30);
    let light1 = &integrator.light_sample_offsets[1];
    assert_eq!(layout.range_1d(light1.component_offset), (2, 4));
    assert_eq!(layout.range_2d(light1.pos_offset), (14, 8));
    let bsdf1 = &integrator.bsdf_sample_offsets[1];
    assert_eq!(layout.range_1d(bsdf1.component_offset), (6, 4));
    assert_eq!(layout.range_2d(bsdf1.dir_offset), (22, 8));
}

#[test]
fn direct_lighting_requests_single_light_groups() {
    let mut layout = SampleLayout::new();
    let mut integrator = DirectLightingIntegrator::new(LightStrategy::SampleOneUniform, 5);
    let light_counts = vec![1u32, 4u32, 9u32];
    integrator.request_samples(None, &mut layout, &light_counts);

    assert_eq!(integrator.light_sample_offsets.len(), 1);
    assert_eq!(integrator.light_sample_offsets[0].n_samples, 1);
    assert_eq!(integrator.light_num_offset.unwrap().0, 1);
    assert_eq!(integrator.bsdf_sample_offsets.len(), 1);
    assert_eq!(integrator.bsdf_sample_offsets[0].component_offset.0, 2);

    layout.allocate_sample_memory();
    // 1D groups [1, 1, 1], 2D groups [1, 1]: 3 + 2 * 2 cells.
    assert_eq!(layout.mem_size(), 7);
}

#[test]
fn whitted_depth_bound() {
    let w = WhittedIntegrator::new(5);
    assert_eq!(w.max_depth, 5);
    assert!(w.traces_specular(0));
    assert!(w.traces_specular(3));
    assert!(!w.traces_specular(4));
    assert!(!w.traces_specular(7));
    assert!(!WhittedIntegrator::new(0).traces_specular(0));
}

#[test]
fn direct_lighting_depth_bound() {
    let d = DirectLightingIntegrator::default();
    assert!(d.traces_specular(3));
    assert!(!d.traces_specular(4));
}

#[test]
fn path_requests_per_bounce_groups() {
    let mut layout = SampleLayout::new();
    let mut integrator = PathIntegrator::new(5);
    integrator.request_samples(&mut layout);

    assert_eq!(integrator.light_sample_offsets.len(), SAMPLE_DEPTH);
    assert_eq!(integrator.light_num_offset.len(), SAMPLE_DEPTH);
    assert_eq!(integrator.bsdf_sample_offsets.len(), SAMPLE_DEPTH);
    assert_eq!(integrator.path_sample_offsets.len(), SAMPLE_DEPTH);
    for b in 0..SAMPLE_DEPTH {
        assert_eq!(integrator.light_sample_offsets[b].n_samples, 1);
        assert_eq!(integrator.light_sample_offsets[b].component_offset.0, 4 * b);
        assert_eq!(integrator.light_num_offset[b].0, 4 * b + 1);
        assert_eq!(integrator.bsdf_sample_offsets[b].component_offset.0, 4 * b + 2);
        assert_eq!(integrator.path_sample_offsets[b].component_offset.0, 4 * b + 3);
        assert_eq!(integrator.light_sample_offsets[b].pos_offset.0, 3 * b);
        assert_eq!(integrator.bsdf_sample_offsets[b].dir_offset.0, 3 * b + 1);
        assert_eq!(integrator.path_sample_offsets[b].dir_offset.0, 3 * b + 2);
    }

    layout.allocate_sample_memory();
    // Per bounce: four 1D values and three 2D pairs.
    assert_eq!(layout.mem_size(), 4 * SAMPLE_DEPTH + 2 * 3 * SAMPLE_DEPTH);
}

#[test]
fn path_vertex_decisions() {
    assert!(adds_emitted(0, false));
    assert!(adds_emitted(0, true));
    assert!(!adds_emitted(1, false));
    assert!(adds_emitted(4, true));

    assert!(uses_stratified(0));
    assert!(uses_stratified(2));
    assert!(!uses_stratified(3));

    assert!(!roulette_active(3));
    assert!(roulette_active(4));

    let p = PathIntegrator::new(5);
    assert!(!p.reached_max_depth(4));
    assert!(p.reached_max_depth(5));
    assert_eq!(PathIntegrator::default().max_depth, 5);
}

#[test]
fn constant_texture_evaluates_to_its_value() {
    let t = ConstantTexture::new(7u32);
    assert_eq!(t.evaluate(), 7);
    let s = ConstantTexture::new(0.25f32);
    assert_eq!(s.evaluate(), 0.25);
}

#[test]
fn film_pixel_index_row_major() {
    assert_eq!(pixel_index(0, 0, 0, 0, 10), 0);
    assert_eq!(pixel_index(3, 2, 0, 0, 10), 23);
    assert_eq!(pixel_index(5, 4, 2, 1, 8), 27);
}

#[test]
fn extent_round_trip() {
    let e = Extent::new(2, 10, 3, 7);
    assert_eq!(e.xstart(), 2);
    assert_eq!(e.xend(), 10);
    assert_eq!(e.ystart(), 3);
    assert_eq!(e.yend(), 7);
}

#[test]
fn rng_handles_construct() {
    let _ = RNG::new();
    let _ = RNG::from_seed(42);
}
