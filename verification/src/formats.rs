//! Sets of compressed texture formats, as a graphics device reports them and
//! as a texture asset requires them.

use bevy::render::render_resource::WgpuFeatures;
use bevy::render::texture::CompressedImageFormats;
use vstd::prelude::*;

verus! {

/// Bit of a [`FormatSet`] that stands for the ASTC LDR family.
pub const ASTC_LDR_BIT: u32 = 0x1;

/// Bit of a [`FormatSet`] that stands for the BC family.
pub const BC_BIT: u32 = 0x2;

/// Bit of a [`FormatSet`] that stands for the ETC2 family.
pub const ETC2_BIT: u32 = 0x4;

/// All bits that stand for a format family.
pub const KNOWN_BITS: u32 = 0x7;

/// Device feature bit for BC texture compression.
pub const FEATURE_BC: u64 = 0x08;

/// Device feature bit for ETC2 texture compression.
pub const FEATURE_ETC2: u64 = 0x10;

/// Device feature bit for ASTC LDR texture compression.
pub const FEATURE_ASTC_LDR: u64 = 0x20;

/// A family of compressed texture formats.
#[derive(Clone, Copy, Debug, PartialEq, Eq, Structural)]
pub enum CompressedFormat {
    AstcLdr,
    Bc,
    Etc2,
}

impl CompressedFormat {
    /// The bit that stands for this family in a [`FormatSet`].
    pub open spec fn bit(self) -> u32 {
        match self {
            CompressedFormat::AstcLdr => ASTC_LDR_BIT,
            CompressedFormat::Bc => BC_BIT,
            CompressedFormat::Etc2 => ETC2_BIT,
        }
    }

    /// The device feature bit that announces support for this family.
    pub open spec fn feature(self) -> u64 {
        match self {
            CompressedFormat::AstcLdr => FEATURE_ASTC_LDR,
            CompressedFormat::Bc => FEATURE_BC,
            CompressedFormat::Etc2 => FEATURE_ETC2,
        }
    }

    /// Computes [`Self::bit`].
    pub fn mask(self) -> (r: u32)
        ensures
            r == self.bit(),
    {
        match self {
            CompressedFormat::AstcLdr => ASTC_LDR_BIT,
            CompressedFormat::Bc => BC_BIT,
            CompressedFormat::Etc2 => ETC2_BIT,
        }
    }
}

/// The families whose bit is set in `bits`.
pub open spec fn families_of_bits(bits: u32) -> Set<CompressedFormat> {
    Set::new(|f: CompressedFormat| bits & f.bit() != 0)
}

/// The families that a device with the feature bits `features` supports.
pub open spec fn device_formats(features: u64) -> Set<CompressedFormat> {
    Set::new(|f: CompressedFormat| features & f.feature() != 0)
}

/// A set of compressed texture format families, held as a bit set.
///
/// The empty set is what an uncompressed texture requires.
#[derive(Clone, Copy, Debug, PartialEq, Eq, Structural)]
pub struct FormatSet {
    bits: u32,
}

impl View for FormatSet {
    type V = Set<CompressedFormat>;

    closed spec fn view(&self) -> Set<CompressedFormat> {
        families_of_bits(self.bits)
    }
}

/// On words without stray bits, bitwise containment is containment of families.
proof fn lemma_contains_bits(a: u32, b: u32)
    requires
        a <= KNOWN_BITS,
        b <= KNOWN_BITS,
    ensures
        (a & b == b) <==> families_of_bits(b).subset_of(families_of_bits(a)),
{
    let sa = families_of_bits(a);
    let sb = families_of_bits(b);
    assert(a <= 7 && b <= 7 ==> ((a & b == b) <==> ((b & 1 != 0 ==> a & 1 != 0) && (b & 2 != 0 ==> a
        & 2 != 0) && (b & 4 != 0 ==> a & 4 != 0)))) by (bit_vector);
    if a & b == b {
        assert forall|f: CompressedFormat| sb.contains(f) implies sa.contains(f) by {
            match f {
                CompressedFormat::AstcLdr => {},
                CompressedFormat::Bc => {},
                CompressedFormat::Etc2 => {},
            }
        }
    }
    if sb.subset_of(sa) {
        assert(sb.contains(CompressedFormat::AstcLdr) ==> sa.contains(CompressedFormat::AstcLdr));
        assert(sb.contains(CompressedFormat::Bc) ==> sa.contains(CompressedFormat::Bc));
        assert(sb.contains(CompressedFormat::Etc2) ==> sa.contains(CompressedFormat::Etc2));
    }
}

impl FormatSet {
    #[verifier::type_invariant]
    spec fn known_bits_only(self) -> bool {
        self.bits <= KNOWN_BITS
    }

    /// The raw bits of the set.
    pub closed spec fn spec_bits(&self) -> u32 {
        self.bits
    }

    /// The empty set: no compressed format at all.
    pub fn none() -> (r: FormatSet)
        ensures
            r@ == Set::<CompressedFormat>::empty(),
            r.spec_bits() == 0,
    {
        let r = FormatSet { bits: 0 };
        proof {
            assert forall|f: CompressedFormat| !families_of_bits(0).contains(f) by {
                assert(0u32 & 1 == 0 && 0u32 & 2 == 0 && 0u32 & 4 == 0) by (bit_vector);
            }
            assert(r@ =~= Set::<CompressedFormat>::empty());
        }
        r
    }

    /// The set that holds the one family `format`.
    pub fn only(format: CompressedFormat) -> (r: FormatSet)
        ensures
            r@ == set![format],
            r.spec_bits() == format.bit(),
    {
        let r = FormatSet { bits: format.mask() };
        proof {
            assert(1u32 & 1 != 0 && 1u32 & 2 == 0 && 1u32 & 4 == 0) by (bit_vector);
            assert(2u32 & 1 == 0 && 2u32 & 2 != 0 && 2u32 & 4 == 0) by (bit_vector);
            assert(4u32 & 1 == 0 && 4u32 & 2 == 0 && 4u32 & 4 != 0) by (bit_vector);
            assert forall|f: CompressedFormat| r@.contains(f) <==> f == format by {
                match f {
                    CompressedFormat::AstcLdr => {},
                    CompressedFormat::Bc => {},
                    CompressedFormat::Etc2 => {},
                }
            }
            assert(r@ =~= set![format]);
        }
        r
    }

    /// The set of every family.
    pub fn all() -> (r: FormatSet)
        ensures
            r@ == Set::<CompressedFormat>::full(),
            r.spec_bits() == KNOWN_BITS,
    {
        let r = FormatSet { bits: KNOWN_BITS };
        proof {
            assert(7u32 & 1 != 0 && 7u32 & 2 != 0 && 7u32 & 4 != 0) by (bit_vector);
            assert forall|f: CompressedFormat| r@.contains(f) by {
                match f {
                    CompressedFormat::AstcLdr => {},
                    CompressedFormat::Bc => {},
                    CompressedFormat::Etc2 => {},
                }
            }
            assert(r@ =~= Set::<CompressedFormat>::full());
        }
        r
    }

    /// The set whose bits are those of `bits` that stand for a family; the
    /// other bits of `bits` are dropped.
    pub fn from_bits_truncate(bits: u32) -> (r: FormatSet)
        ensures
            r@ == families_of_bits(bits),
            r.spec_bits() == bits & KNOWN_BITS,
    {
        let kept: u32 = bits & KNOWN_BITS;
        proof {
            assert((bits & 7) <= 7 && ((bits & 7) & 1 != 0 <==> bits & 1 != 0) && ((bits & 7) & 2
                != 0 <==> bits & 2 != 0) && ((bits & 7) & 4 != 0 <==> bits & 4 != 0))
                by (bit_vector);
        }
        let r = FormatSet { bits: kept };
        proof {
            assert forall|f: CompressedFormat|
                families_of_bits(kept).contains(f) <==> families_of_bits(bits).contains(f) by {
                match f {
                    CompressedFormat::AstcLdr => {},
                    CompressedFormat::Bc => {},
                    CompressedFormat::Etc2 => {},
                }
            }
            assert(r@ =~= families_of_bits(bits));
        }
        r
    }

    /// The raw bits of the set: never more than [`KNOWN_BITS`].
    #[verifier::when_used_as_spec(spec_bits)]
    pub fn bits(&self) -> (bits: u32)
        ensures
            bits == self.spec_bits(),
            bits <= KNOWN_BITS,
            families_of_bits(bits) == self@,
    {
        proof {
            use_type_invariant(self);
        }
        self.bits
    }

    /// Whether `format` is in the set.
    pub fn has(&self, format: CompressedFormat) -> (r: bool)
        ensures
            r == self@.contains(format),
    {
        self.bits & format.mask() != 0
    }

    /// Whether every family of `other` is in this set. The empty set is
    /// contained in every set.
    pub fn contains(&self, other: FormatSet) -> (r: bool)
        ensures
            r == other@.subset_of(self@),
    {
        proof {
            use_type_invariant(self);
            use_type_invariant(&other);
            lemma_contains_bits(self.bits, other.bits);
        }
        (self.bits & other.bits) == other.bits
    }

    /// The families that a graphics device supports, from the feature bits
    /// that the device reports.
    pub fn from_device_features(features: u64) -> (r: FormatSet)
        ensures
            r@ == device_formats(features),
    {
        let bits: u32 = device_format_bits(features);
        let r = FormatSet { bits };
        proof {
            assert forall|f: CompressedFormat|
                r@.contains(f) <==> device_formats(features).contains(f) by {
                match f {
                    CompressedFormat::AstcLdr => {},
                    CompressedFormat::Bc => {},
                    CompressedFormat::Etc2 => {},
                }
            }
            assert(r@ =~= device_formats(features));
        }
        r
    }
}

/// Calls bevy's `CompressedImageFormats::from_features`. The feature bits go
/// in through `Features::from_bits_truncate` of wgpu, which keeps every bit
/// that wgpu names, and the answer comes back through `bits`.
///
/// Trusted, not proved: bevy sets the ASTC LDR, BC and ETC2 bit of its result
/// exactly when `features` holds the matching texture compression feature of
/// wgpu, and sets no other bit.
#[verifier::external_body]
fn device_format_bits(features: u64) -> (bits: u32)
    ensures
        bits <= KNOWN_BITS,
        (bits & ASTC_LDR_BIT != 0) <==> (features & FEATURE_ASTC_LDR != 0),
        (bits & BC_BIT != 0) <==> (features & FEATURE_BC != 0),
        (bits & ETC2_BIT != 0) <==> (features & FEATURE_ETC2 != 0),
{
    CompressedImageFormats::from_features(WgpuFeatures::from_bits_truncate(features)).bits()
}

} // verus!
