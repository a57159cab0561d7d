use raytrace::sampler::RandomSampler;
use raytrace::sampler::SamplerWindow;

#[test]
fn window_from_dimensions() {
    let w = SamplerWindow::from_dimensions(800, 400);
    assert_eq!(w.x_start, 0);
    assert_eq!(w.x_end, 800);
    assert_eq!(w.y_start, 0);
    assert_eq!(w.y_end, 400);
    assert!(!w.is_empty());
}

#[test]
fn window_empty() {
    assert!(SamplerWindow::from_dimensions(0, 5).is_empty());
    assert!(SamplerWindow::from_dimensions(5, 0).is_empty());
    assert!(SamplerWindow::new(3, 3, 0, 5).is_empty());
    assert!(!SamplerWindow::new(3, 4, 0, 5).is_empty());
}

#[test]
fn sub_window_quadrants() {
    let w = SamplerWindow::from_dimensions(100, 100);
    let t0 = w.compute_sub_window(0, 4);
    assert_eq!((t0.x_start, t0.x_end, t0.y_start, t0.y_end), (0, 50, 0, 50));
    let t1 = w.compute_sub_window(1, 4);
    assert_eq!((t1.x_start, t1.x_end, t1.y_start, t1.y_end), (50, 100, 0, 50));
    let t2 = w.compute_sub_window(2, 4);
    assert_eq!((t2.x_start, t2.x_end, t2.y_start, t2.y_end), (0, 50, 50, 100));
    let t3 = w.compute_sub_window(3, 4);
    assert_eq!((t3.x_start, t3.x_end, t3.y_start, t3.y_end), (50, 100, 50, 100));
}

#[test]
fn sub_window_wide_image_splits_horizontally() {
    let w = SamplerWindow::from_dimensions(200, 100);
    let t0 = w.compute_sub_window(0, 2);
    assert_eq!((t0.x_start, t0.x_end, t0.y_start, t0.y_end), (0, 100, 0, 100));
    let t1 = w.compute_sub_window(1, 2);
    assert_eq!((t1.x_start, t1.x_end, t1.y_start, t1.y_end), (100, 200, 0, 100));
}

#[test]
fn sub_window_tall_image_splits_vertically() {
    let w = SamplerWindow::from_dimensions(100, 400);
    let t0 = w.compute_sub_window(0, 2);
    assert_eq!((t0.x_start, t0.x_end, t0.y_start, t0.y_end), (0, 100, 0, 200));
    let t1 = w.compute_sub_window(1, 2);
    assert_eq!((t1.x_start, t1.x_end, t1.y_start, t1.y_end), (0, 100, 200, 400));
}

#[test]
fn sub_windows_tile_the_window_exactly() {
    let w = SamplerWindow::new(3, 40, 7, 30);
    let count = 6;
    let mut area: u64 = 0;
    for num in 0..count {
        let t = w.compute_sub_window(num, count);
        assert!(w.x_start <= t.x_start && t.x_start <= t.x_end && t.x_end <= w.x_end);
        assert!(w.y_start <= t.y_start && t.y_start <= t.y_end && t.y_end <= w.y_end);
        area += ((t.x_end - t.x_start) as u64) * ((t.y_end - t.y_start) as u64);
    }
    assert_eq!(area, 37 * 23);
}

#[test]
fn random_sampler_walks_row_major() {
    let window = SamplerWindow::from_dimensions(2, 2);
    let mut sampler = RandomSampler::new(window, 2);
    let mut seen = Vec::new();
    while let Some(pixel) = sampler.next_sample() {
        seen.push(pixel);
    }
    assert_eq!(
        seen,
        vec![(0, 0), (0, 0), (1, 0), (1, 0), (0, 1), (0, 1), (1, 1), (1, 1)],
    );
    // Exhausted for good.
    assert_eq!(sampler.next_sample(), None);
    assert_eq!(sampler.next_sample(), None);
}

#[test]
fn random_sampler_empty_window_yields_nothing() {
    let mut sampler = RandomSampler::new(SamplerWindow::from_dimensions(0, 7), 4);
    assert_eq!(sampler.next_sample(), None);
}

#[test]
fn random_sampler_constants() {
    let sampler = RandomSampler::new(SamplerWindow::from_dimensions(4, 4), 1);
    assert_eq!(sampler.maximum_sample_count(), 1);
    assert_eq!(sampler.round_size(9), 9);
}

#[test]
fn sub_sampler_gets_its_tile() {
    let sampler = RandomSampler::new(SamplerWindow::from_dimensions(4, 4), 1);
    let sub = sampler.get_sub_sampler(0, 4).unwrap();
    assert_eq!((sub.window.x_start, sub.window.x_end), (0, 2));
    assert_eq!((sub.window.y_start, sub.window.y_end), (0, 2));
    assert_eq!(sub.samples_per_pixel, 1);
}

#[test]
fn sub_sampler_of_empty_tile_is_none() {
    let sampler = RandomSampler::new(SamplerWindow::from_dimensions(1, 1), 1);
    assert!(sampler.get_sub_sampler(0, 2).is_none());
}
