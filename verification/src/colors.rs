use vstd::prelude::*;

verus! {

/// An RGB colour, one byte per channel.
#[derive(Clone, Copy, Debug, PartialEq, Eq, Structural)]
pub struct Color {
    pub r: u8,
    pub g: u8,
    pub b: u8,
}

/// A colour looked for on the screen, with the tolerance allowed on each channel.
#[derive(Clone, Copy, Debug, PartialEq, Eq, Structural)]
pub struct ColorTarget {
    pub color: Color,
    pub variation: u8,
}

/// `a` and `b` differ by at most `tolerance`.
pub open spec fn channel_close(a: u8, b: u8, tolerance: u8) -> bool {
    if a >= b {
        a - b <= tolerance
    } else {
        b - a <= tolerance
    }
}

fn channel_close_exec(a: u8, b: u8, tolerance: u8) -> (close: bool)
    ensures
        close == channel_close(a, b, tolerance),
{
    if a >= b {
        a - b <= tolerance
    } else {
        b - a <= tolerance
    }
}

impl ColorTarget {
    /// Every channel of `pixel` is within `variation` of the target colour.
    pub open spec fn matches_spec(self, pixel: Color) -> bool {
        &&& channel_close(pixel.r, self.color.r, self.variation)
        &&& channel_close(pixel.g, self.color.g, self.variation)
        &&& channel_close(pixel.b, self.color.b, self.variation)
    }

    /// Whether `pixel` has this target's colour, up to the tolerance.
    pub fn matches(&self, pixel: Color) -> (m: bool)
        ensures
            m == self.matches_spec(pixel),
    {
        channel_close_exec(pixel.r, self.color.r, self.variation) && channel_close_exec(
            pixel.g,
            self.color.g,
            self.variation,
        ) && channel_close_exec(pixel.b, self.color.b, self.variation)
    }
}

/// Some target of `targets` matches `pixel`.
pub open spec fn any_target_matches(targets: Seq<ColorTarget>, pixel: Color) -> bool {
    exists|k: int| 0 <= k < targets.len() && #[trigger] targets[k].matches_spec(pixel)
}

/// Whether some target of `targets` matches `pixel`, tried in order.
pub fn matches_any(targets: &[ColorTarget], pixel: Color) -> (m: bool)
    ensures
        m == any_target_matches(targets@, pixel),
{
    let mut k: usize = 0;
    while k < targets.len()
        invariant
            k <= targets.len(),
            forall|i: int| 0 <= i < k ==> !(#[trigger] targets@[i].matches_spec(pixel)),
        decreases targets.len() - k,
    {
        if targets[k].matches(pixel) {
            return true;
        }
        k += 1;
    }
    false
}

/// A target always matches its own colour, and a colour matches a target
/// exactly when the target with the same tolerance centred on that colour
/// matches the target's colour.
pub proof fn lemma_match_reflexive_symmetric(target: ColorTarget, pixel: Color)
    ensures
        target.matches_spec(target.color),
        target.matches_spec(pixel) == (ColorTarget { color: pixel, variation: target.variation }).matches_spec(
            target.color,
        ),
{
}

} // verus!
