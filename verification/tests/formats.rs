use bevy::render::render_resource::WgpuFeatures;
use bevy::render::texture::CompressedImageFormats;
use scene_viewer::formats::{
    CompressedFormat, FormatSet, ASTC_LDR_BIT, BC_BIT, ETC2_BIT, FEATURE_ASTC_LDR, FEATURE_BC,
    FEATURE_ETC2, KNOWN_BITS,
};

#[test]
fn bits_match_the_engine() {
    assert_eq!(ASTC_LDR_BIT, CompressedImageFormats::ASTC_LDR.bits());
    assert_eq!(BC_BIT, CompressedImageFormats::BC.bits());
    assert_eq!(ETC2_BIT, CompressedImageFormats::ETC2.bits());
    assert_eq!(KNOWN_BITS, CompressedImageFormats::all().bits());
    assert_eq!(FormatSet::none().bits(), CompressedImageFormats::NONE.bits());
}

#[test]
fn feature_bits_match_the_device_api() {
    assert_eq!(FEATURE_ASTC_LDR, WgpuFeatures::TEXTURE_COMPRESSION_ASTC_LDR.bits());
    assert_eq!(FEATURE_BC, WgpuFeatures::TEXTURE_COMPRESSION_BC.bits());
    assert_eq!(FEATURE_ETC2, WgpuFeatures::TEXTURE_COMPRESSION_ETC2.bits());
}

#[test]
fn constructors_give_the_expected_bits() {
    assert_eq!(FormatSet::none().bits(), 0);
    assert_eq!(FormatSet::only(CompressedFormat::AstcLdr).bits(), 1);
    assert_eq!(FormatSet::only(CompressedFormat::Bc).bits(), 2);
    assert_eq!(FormatSet::only(CompressedFormat::Etc2).bits(), 4);
    assert_eq!(FormatSet::all().bits(), 7);
}

#[test]
fn from_bits_truncate_drops_unknown_bits() {
    assert_eq!(FormatSet::from_bits_truncate(0).bits(), 0);
    assert_eq!(FormatSet::from_bits_truncate(5).bits(), 5);
    assert_eq!(FormatSet::from_bits_truncate(8).bits(), 0);
    assert_eq!(FormatSet::from_bits_truncate(0xffff_fffa).bits(), 2);
    assert_eq!(FormatSet::from_bits_truncate(u32::MAX), FormatSet::all());
}

#[test]
fn has_tells_the_members() {
    let set = FormatSet::from_bits_truncate(BC_BIT | ETC2_BIT);
    assert!(!set.has(CompressedFormat::AstcLdr));
    assert!(set.has(CompressedFormat::Bc));
    assert!(set.has(CompressedFormat::Etc2));
    assert!(!FormatSet::none().has(CompressedFormat::Bc));
    assert!(FormatSet::all().has(CompressedFormat::AstcLdr));
}

#[test]
fn empty_set_is_contained_in_every_set() {
    for bits in 0..8u32 {
        assert!(FormatSet::from_bits_truncate(bits).contains(FormatSet::none()));
    }
    assert!(FormatSet::none().contains(FormatSet::none()));
}

#[test]
fn contains_is_the_subset_test() {
    let bc = FormatSet::only(CompressedFormat::Bc);
    let etc2 = FormatSet::only(CompressedFormat::Etc2);
    let both = FormatSet::from_bits_truncate(BC_BIT | ETC2_BIT);
    assert!(both.contains(bc));
    assert!(both.contains(etc2));
    assert!(both.contains(both));
    assert!(!bc.contains(both));
    assert!(!bc.contains(etc2));
    assert!(!FormatSet::none().contains(bc));
    assert!(FormatSet::all().contains(both));
}

#[test]
fn contains_agrees_with_the_engine_on_every_pair() {
    for a in 0..8u32 {
        for b in 0..8u32 {
            let ours = FormatSet::from_bits_truncate(a).contains(FormatSet::from_bits_truncate(b));
            let theirs = CompressedImageFormats::from_bits_truncate(a)
                .contains(CompressedImageFormats::from_bits_truncate(b));
            assert_eq!(ours, theirs, "a = {a}, b = {b}");
        }
    }
}

#[test]
fn device_features_without_compression_give_the_empty_set() {
    assert_eq!(FormatSet::from_device_features(0), FormatSet::none());
    // Feature bits other than the three compression bits do not count.
    assert_eq!(FormatSet::from_device_features(0b111), FormatSet::none());
    assert_eq!(FormatSet::from_device_features(1 << 6), FormatSet::none());
}

#[test]
fn device_features_map_to_their_families() {
    assert_eq!(FormatSet::from_device_features(0x08), FormatSet::only(CompressedFormat::Bc));
    assert_eq!(FormatSet::from_device_features(0x08).bits(), 2);
    assert_eq!(FormatSet::from_device_features(0x10), FormatSet::only(CompressedFormat::Etc2));
    assert_eq!(FormatSet::from_device_features(0x20), FormatSet::only(CompressedFormat::AstcLdr));
    assert_eq!(FormatSet::from_device_features(0x38), FormatSet::all());
    assert_eq!(FormatSet::from_device_features(0x18).bits(), 6);
    assert_eq!(FormatSet::from_device_features(u64::MAX), FormatSet::all());
}

#[test]
fn device_features_agree_with_the_engine() {
    for low in 0..64u64 {
        let features = low | (1 << 40);
        let theirs =
            CompressedImageFormats::from_features(WgpuFeatures::from_bits_truncate(features));
        assert_eq!(FormatSet::from_device_features(features).bits(), theirs.bits());
    }
}

#[test]
fn each_family_has_its_own_bit() {
    assert_eq!(CompressedFormat::AstcLdr.mask(), ASTC_LDR_BIT);
    assert_eq!(CompressedFormat::Bc.mask(), BC_BIT);
    assert_eq!(CompressedFormat::Etc2.mask(), ETC2_BIT);
}
