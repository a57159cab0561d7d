use raytrace::reflection::BSDF_ALL;
use raytrace::reflection::BSDF_ALL_REFLECTION;
use raytrace::reflection::BSDF_ALL_TRANSMISSION;
use raytrace::reflection::BSDF_ALL_TYPES;
use raytrace::reflection::BSDF_DIFFUSE;
use raytrace::reflection::BSDF_GLOSSY;
use raytrace::reflection::BSDF_REFLECTION;
use raytrace::reflection::BSDF_SPECULAR;
use raytrace::reflection::BSDF_TRANSMISSION;
use raytrace::reflection::BSDFSampleOffsets;
use raytrace::reflection::hemisphere_flags;
use raytrace::reflection::is_specular;
use raytrace::reflection::matches_flags;
use raytrace::reflection::nth_matching;
use raytrace::reflection::num_matching;
use raytrace::sample::SampleLayout;

#[test]
fn flag_constants() {
    assert_eq!(BSDF_ALL_TYPES, BSDF_DIFFUSE | BSDF_GLOSSY | BSDF_SPECULAR);
    assert_eq!(BSDF_ALL_REFLECTION, 0x1d);
    assert_eq!(BSDF_ALL_TRANSMISSION, 0x1e);
    assert_eq!(BSDF_ALL, 0x1f);
}

#[test]
fn matching_against_masks() {
    let lambertian = BSDF_REFLECTION | BSDF_DIFFUSE;
    assert!(matches_flags(lambertian, BSDF_ALL));
    assert!(matches_flags(lambertian, BSDF_ALL_REFLECTION));
    assert!(!matches_flags(lambertian, BSDF_ALL_TRANSMISSION));
    let transmission = BSDF_TRANSMISSION | BSDF_SPECULAR;
    assert!(matches_flags(transmission, BSDF_ALL_TRANSMISSION));
    assert!(!matches_flags(transmission, BSDF_ALL & !BSDF_SPECULAR));
}

#[test]
fn hemisphere_masking() {
    // Same hemisphere: transmission dropped, reflection kept.
    let same = hemisphere_flags(BSDF_ALL, true);
    assert!(matches_flags(BSDF_REFLECTION | BSDF_DIFFUSE, same));
    assert!(!matches_flags(BSDF_TRANSMISSION | BSDF_DIFFUSE, same));
    // Opposite hemispheres: reflection dropped, transmission kept.
    let opposite = hemisphere_flags(BSDF_ALL, false);
    assert!(!matches_flags(BSDF_REFLECTION | BSDF_DIFFUSE, opposite));
    assert!(matches_flags(BSDF_TRANSMISSION | BSDF_DIFFUSE, opposite));
}

#[test]
fn specular_bit() {
    assert!(is_specular(BSDF_REFLECTION | BSDF_SPECULAR));
    assert!(!is_specular(BSDF_REFLECTION | BSDF_DIFFUSE));
}

#[test]
fn counting_and_selecting_terms() {
    let types = vec![
        BSDF_REFLECTION | BSDF_DIFFUSE,
        BSDF_REFLECTION | BSDF_SPECULAR,
        BSDF_TRANSMISSION | BSDF_SPECULAR,
    ];
    assert_eq!(num_matching(&types, BSDF_ALL), 3);
    assert_eq!(num_matching(&types, BSDF_ALL & !BSDF_SPECULAR), 1);
    assert_eq!(num_matching(&types, BSDF_ALL_TRANSMISSION), 1);

    assert_eq!(nth_matching(&types, BSDF_ALL, 1), Some(1));
    assert_eq!(nth_matching(&types, BSDF_ALL, 2), Some(2));
    assert_eq!(nth_matching(&types, BSDF_ALL, 3), None);
    assert_eq!(nth_matching(&types, BSDF_ALL & !BSDF_SPECULAR, 0), Some(0));
    assert_eq!(nth_matching(&types, BSDF_ALL & !BSDF_SPECULAR, 1), None);
    assert_eq!(nth_matching(&types, BSDF_ALL_TRANSMISSION, 0), Some(2));
}

#[test]
fn bsdf_sample_offsets_registration() {
    let mut layout = SampleLayout::new();
    let offsets = BSDFSampleOffsets::new(4, &mut layout);
    assert_eq!(offsets.n_samples, 4);
    assert_eq!(offsets.component_offset.0, 0);
    assert_eq!(offsets.dir_offset.0, 0);
    layout.allocate_sample_memory();
    assert_eq!(layout.range_1d(offsets.component_offset), (0, 4));
    assert_eq!(layout.range_2d(offsets.dir_offset), (4, 8));
    assert_eq!(layout.mem_size(), 12);
}
