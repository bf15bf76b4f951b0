//! Mixer channel kinds and the choice of which channels are heard.
use vstd::prelude::*;

verus! {

/// Kind of mixer channel.
#[derive(Debug, Clone, Copy, PartialEq, Eq, Structural)]
pub enum ChannelType {
    /// One signal.
    Mono,
    /// Left and right signals.
    Stereo,
}

/// Whether some channel is soloed.
pub open spec fn any_solo(solo: Seq<bool>) -> bool {
    exists|i: int| 0 <= i < solo.len() && #[trigger] solo[i]
}

/// A channel is heard when it is not muted and, while some channel is
/// soloed, when it is soloed itself.
pub open spec fn is_audible(mute: bool, solo: bool, some_solo: bool) -> bool {
    !mute && (!some_solo || solo)
}

/// Which channels are heard, given each channel's mute and solo switches.
pub fn audible_channels(mute: &[bool], solo: &[bool]) -> (r: Vec<bool>)
    requires
        mute@.len() == solo@.len(),
    ensures
        r@.len() == mute@.len(),
        forall|i: int|
            0 <= i < r@.len() ==> #[trigger] r@[i] == is_audible(mute@[i], solo@[i], any_solo(solo@)),
{
    let mut some_solo = false;
    let mut k: usize = 0;
    while k < solo.len()
        invariant
            k <= solo@.len(),
            some_solo == exists|i: int| 0 <= i < k && #[trigger] solo@[i],
        decreases solo@.len() - k,
    {
        if solo[k] {
            some_solo = true;
        }
        k = k + 1;
    }
    let mut r: Vec<bool> = Vec::new();
    let mut i: usize = 0;
    while i < mute.len()
        invariant
            i <= mute@.len(),
            mute@.len() == solo@.len(),
            some_solo == any_solo(solo@),
            r@.len() == i,
            forall|j: int| 0 <= j < i ==> #[trigger] r@[j] == is_audible(mute@[j], solo@[j], some_solo),
        decreases mute@.len() - i,
    {
        r.push(!mute[i] && (!some_solo || solo[i]));
        i = i + 1;
    }
    r
}

/// Solo isolates: while some channel is soloed, only soloed channels are
/// heard, and a muted channel is never heard, soloed or not.
pub proof fn law_solo_isolates(mute: Seq<bool>, solo: Seq<bool>, i: int)
    requires
        mute.len() == solo.len(),
        0 <= i < solo.len(),
    ensures
        any_solo(solo) && is_audible(mute[i], solo[i], any_solo(solo)) ==> solo[i],
        mute[i] ==> !is_audible(mute[i], solo[i], any_solo(solo)),
        !any_solo(solo) ==> (is_audible(mute[i], solo[i], any_solo(solo)) == !mute[i]),
{
}

} // verus!
