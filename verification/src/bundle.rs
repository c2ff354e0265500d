//! Per-display native dynamic bundle planning and package naming.

use vstd::prelude::*;

use crate::dynamic::DynamicStillSet;
use crate::ids::{hyphenated, DisplayId, DynamicStillSetId};
use crate::text::{chars_of, decimal, decimal_text, push_char};

verus! {

/// Native container a backend can host without Easel polling frames.
#[derive(Clone, Copy, Debug, PartialEq, Eq, Structural)]
pub enum NativeDynamicFormat {
    /// Apple Dynamic Desktop HEIC (`apple_desktop` XMP).
    AppleHeic,
    /// Plasma dynamic wallpaper HEIC/AVIF package (same Apple XMP interchange today).
    PlasmaHeic,
}

/// Outcome of preferring a native dynamic HEIC host.
#[derive(Clone, Debug, PartialEq, Eq)]
pub enum NativeDynamicApply {
    /// Packages for this arrangement are already hosted by the OS.
    AlreadyHosting { fingerprint: String },
    /// Encoded and applied native packages, with a status message and the arrangement
    /// fingerprint to persist.
    Applied { message: String, fingerprint: String },
}

/// One planned native package for a single display.
#[derive(Clone, Debug)]
pub struct DynamicBundleTarget {
    /// Display receiving the package.
    pub display_id: DisplayId,
    /// Native format to encode.
    pub format: NativeDynamicFormat,
    /// Suggested file name stem (`{set}-{display}`).
    pub file_stem: String,
}

/// Full encode plan derived from a still set and active displays.
#[derive(Clone, Debug)]
pub struct DynamicBundlePlan {
    /// Still set being packaged.
    pub still_set_id: DynamicStillSetId,
    /// Number of frames that must be cropped into every package.
    pub frame_count: usize,
    /// Per-display outputs.
    pub targets: Vec<DynamicBundleTarget>,
}

/// Bundle planning failures.
#[derive(Clone, Copy, Debug, PartialEq, Eq, Structural)]
pub enum BundlePlanError {
    /// No displays were provided.
    NoDisplays,
    /// Still set has no keyed frames.
    NoFrames,
}

/// File stem of the package for a still set on a display.
pub open spec fn bundle_stem(set: DynamicStillSetId, display: DisplayId) -> Seq<char> {
    hyphenated(set.0) + "-"@ + hyphenated(display.0)
}

/// Plans one native dynamic package per display, in display order.
pub fn plan_per_display_bundles(set: &DynamicStillSet, display_ids: &[DisplayId], format: NativeDynamicFormat) -> (r: Result<
    DynamicBundlePlan,
    BundlePlanError,
>)
    ensures
        display_ids@.len() == 0 ==> r == Err::<DynamicBundlePlan, BundlePlanError>(BundlePlanError::NoDisplays),
        display_ids@.len() > 0 && set.frames@.len() == 0 ==> r == Err::<DynamicBundlePlan, BundlePlanError>(
            BundlePlanError::NoFrames,
        ),
        display_ids@.len() > 0 && set.frames@.len() > 0 ==> (r matches Ok(plan) && {
            &&& plan.still_set_id == set.id
            &&& plan.frame_count == set.frames@.len()
            &&& plan.targets@.len() == display_ids@.len()
            &&& forall|i: int| 0 <= i < display_ids@.len() ==> {
                &&& (#[trigger] plan.targets@[i]).display_id == display_ids@[i]
                &&& plan.targets@[i].format == format
                &&& plan.targets@[i].file_stem@ == bundle_stem(set.id, display_ids@[i])
            }
        }),
{
    if display_ids.len() == 0 {
        return Err(BundlePlanError::NoDisplays);
    }
    if set.frames.len() == 0 {
        return Err(BundlePlanError::NoFrames);
    }
    let set_text = set.id.to_hyphenated_string();
    let mut targets: Vec<DynamicBundleTarget> = Vec::new();
    let mut i: usize = 0;
    while i < display_ids.len()
        invariant
            i <= display_ids@.len(),
            set_text@ == hyphenated(set.id.0),
            targets@.len() == i,
            forall|j: int| 0 <= j < i ==> {
                &&& (#[trigger] targets@[j]).display_id == display_ids@[j]
                &&& targets@[j].format == format
                &&& targets@[j].file_stem@ == bundle_stem(set.id, display_ids@[j])
            },
        decreases display_ids@.len() - i,
    {
        let display_id = display_ids[i];
        let mut file_stem = set_text.clone();
        file_stem.append("-");
        file_stem.append(display_id.to_hyphenated_string().as_str());
        targets.push(DynamicBundleTarget { display_id, format, file_stem });
        i = i + 1;
    }
    Ok(DynamicBundlePlan { still_set_id: set.id, frame_count: set.frames.len(), targets })
}

/// The characters of `s` without its hyphens.
pub open spec fn without_hyphens(s: Seq<char>) -> Seq<char> {
    s.filter(|c: char| c != '-')
}

/// File name of a cached package: `v{renderer_version}_{stem without hyphens}.heic`.
pub open spec fn bundle_file_name_text(stem: Seq<char>, renderer_version: nat) -> Seq<char> {
    "v"@ + decimal(renderer_version) + "_"@ + without_hyphens(stem) + ".heic"@
}

/// File name of a cached package for the given stem and renderer version.
pub fn bundle_file_name(stem: &str, renderer_version: u64) -> (r: String)
    ensures
        r@ == bundle_file_name_text(stem@, renderer_version as nat),
{
    let chars = chars_of(stem);
    let mut name = String::from_str("v");
    name.append(decimal_text(renderer_version).as_str());
    name.append("_");
    let ghost head = name@;
    let mut i: usize = 0;
    while i < chars.len()
        invariant
            chars@ == stem@,
            i <= chars@.len(),
            name@ == head + without_hyphens(chars@.subrange(0, i as int)),
        decreases chars@.len() - i,
    {
        let c = chars[i];
        proof {
            reveal(Seq::filter);
            assert(chars@.subrange(0, i + 1).drop_last() =~= chars@.subrange(0, i as int));
        }
        if c != '-' {
            push_char(&mut name, c);
        }
        i = i + 1;
    }
    assert(chars@.subrange(0, chars@.len() as int) =~= chars@);
    name.append(".heic");
    name
}

} // verus!
