use vstd::prelude::*;

verus! {

/// The step by which a fade moves the volume.
pub const FADE_STEP: u16 = 3;

/// Whether a fade-in toward `target` goes on after the speaker reported the
/// volume `reported` (`None` where it reported nothing, which counts as
/// having reached the target): it goes on while the volume is more than one
/// step below the target.
pub fn fade_in_continues(reported: Option<u16>, target: u16) -> (r: bool)
    ensures
        r == (match reported {
            Some(v) => v as int,
            None => target as int,
        } < target as int - FADE_STEP as int),
{
    let v: u16 = match reported {
        Some(v) => v,
        None => target,
    };
    (v as u32) + (FADE_STEP as u32) < target as u32
}

/// Whether a fade-out goes on after the speaker reported the volume
/// `reported` (`None` where it reported nothing, which counts as nearly
/// silent): it goes on while the volume is above one step.
pub fn fade_out_continues(reported: Option<u16>) -> (r: bool)
    ensures
        r == (match reported {
            Some(v) => v,
            None => 1,
        } > FADE_STEP),
{
    let v: u16 = match reported {
        Some(v) => v,
        None => 1,
    };
    v > FADE_STEP
}

} // verus!
