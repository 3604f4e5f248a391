//! The two-tile pipeline: the large and the small descriptor kernel only,
//! with a threshold that suits a discrete GPU.

use crate::error::{outcome, refused_name, Error, ErrorView, Refusal};
use crate::pipeline::selection::prefers_small;
use crate::text::{ascii_lower, normalized, same_text, trimmed};
use vstd::prelude::*;

verus! {

/// Output-tile extents of the large kernel.
pub const TILE_M: u32 = 128;

pub const TILE_N: u32 = 128;

/// Output-tile extents of the small kernel.
pub const SMALL_TILE_M: u32 = 64;

pub const SMALL_TILE_N: u32 = 64;

/// The number of large tiles that keeps the device busy.
pub const MIN_LARGE_TILES: u64 = 256;

/// Which of the two kernels a pipeline uses.
#[derive(Copy, Clone, Debug, PartialEq, Eq, Structural)]
pub enum KernelSelection {
    Auto,
    Large,
    Small,
}

impl KernelSelection {
    /// The selection that a normalized name stands for.
    pub open spec fn named(name: Seq<char>) -> Option<KernelSelection> {
        if name == ""@ || name == "auto"@ {
            Some(KernelSelection::Auto)
        } else if name == "large"@ || name == "large_128"@ || name == "128"@ {
            Some(KernelSelection::Large)
        } else if name == "small"@ || name == "small_64"@ || name == "64"@ {
            Some(KernelSelection::Small)
        } else {
            None
        }
    }

    /// The selection that a text stands for.
    pub open spec fn parse_result(value: Seq<char>) -> Result<KernelSelection, ErrorView> {
        let name = ascii_lower(trimmed(value));
        match Self::named(name) {
            Some(selection) => Ok(selection),
            None => Err(refused_name(Refusal::UnknownTile, name)),
        }
    }

    /// The selection that a text stands for: white space around it and the
    /// case of its letters do not matter.
    pub fn parse(value: &str) -> (r: Result<Self, Error>)
        ensures
            outcome(r) == Self::parse_result(value@),
    {
        let name: String = normalized(value);
        let text: &str = name.as_str();
        if same_text(text, "") || same_text(text, "auto") {
            Ok(KernelSelection::Auto)
        } else if same_text(text, "large") || same_text(text, "large_128") || same_text(
            text,
            "128",
        ) {
            Ok(KernelSelection::Large)
        } else if same_text(text, "small") || same_text(text, "small_64") || same_text(
            text,
            "64",
        ) {
            Ok(KernelSelection::Small)
        } else {
            Err(Error::with_name(Refusal::UnknownTile, text))
        }
    }

    /// The kernel that a shape takes.
    pub fn select_kernel(self, m: u32, n: u32, k: u32) -> (r: KernelSelection)
        ensures
            r == (match self {
                KernelSelection::Auto => if prefers_small(m, n, k, MIN_LARGE_TILES) {
                    KernelSelection::Small
                } else {
                    KernelSelection::Large
                },
                fixed => fixed,
            }),
    {
        match self {
            KernelSelection::Auto => if auto_selects_small_kernel(m, n, k) {
                KernelSelection::Small
            } else {
                KernelSelection::Large
            },
            fixed => fixed,
        }
    }
}

/// Whether the small kernel is the better one: for outputs that large tiles
/// do not cover exactly, for a short K, and for fewer large tiles than keep
/// the device busy.
pub fn auto_selects_small_kernel(m: u32, n: u32, k: u32) -> (r: bool)
    ensures
        r == prefers_small(m, n, k, MIN_LARGE_TILES),
{
    crate::pipeline::selection::auto_selects_small_kernel(m, n, k, MIN_LARGE_TILES)
}

/// Per-call specialization of the two kernels.
#[derive(Copy, Clone, Debug, PartialEq, Eq, Structural, Hash)]
pub struct KernelVariant {
    /// `C += alpha*A@B` when true, `C = alpha*A@B` when false.
    pub accumulate: bool,
    /// alpha is one, so the shader skips the multiply.
    pub alpha_is_one: bool,
    /// M and N are multiples of the tile size, so the shader drops all
    /// bounds checks.
    pub interior_only: bool,
}

impl KernelVariant {
    /// Number of variants compiled per kernel.
    pub const COUNT: usize = 8;

    /// The flags as the digits of a binary number, `accumulate` lowest.
    pub open spec fn index_of(self) -> int {
        (if self.accumulate { 1int } else { 0 }) + (if self.alpha_is_one { 2int } else { 0 })
            + (if self.interior_only { 4int } else { 0 })
    }

    /// Position of this variant among the [`KernelVariant::COUNT`].
    pub fn index(self) -> (r: usize)
        ensures
            r == self.index_of(),
            r < KernelVariant::COUNT,
    {
        let a: usize = if self.accumulate { 1 } else { 0 };
        let b: usize = if self.alpha_is_one { 2 } else { 0 };
        let c: usize = if self.interior_only { 4 } else { 0 };
        a + b + c
    }

    /// The variant with the low three binary digits of `idx` as its flags.
    pub fn from_index(idx: usize) -> (r: Self)
        ensures
            r.accumulate == (idx % 2 == 1),
            r.alpha_is_one == (idx / 2 % 2 == 1),
            r.interior_only == (idx / 4 % 2 == 1),
            idx < KernelVariant::COUNT ==> r.index_of() == idx,
    {
        KernelVariant {
            accumulate: idx % 2 == 1,
            alpha_is_one: idx / 2 % 2 == 1,
            interior_only: idx / 4 % 2 == 1,
        }
    }
}

} // verus!
