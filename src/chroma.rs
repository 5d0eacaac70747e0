//! Colour-channel tags carried by rays.

use vstd::prelude::*;

verus! {

/// The channels a ray carries: all three (`White`, the tag of a camera ray),
/// or one, after a dispersive material has split it.
#[derive(Clone, Copy, Debug, PartialEq, Eq, Structural)]
pub enum Chroma {
    Red,
    Green,
    Blue,
    White,
}

/// The tag of a single colour channel: 0 is red, 1 green, 2 blue.
pub open spec fn chroma_of_channel(c: nat) -> Chroma
    recommends
        c < 3,
{
    if c == 0 {
        Chroma::Red
    } else if c == 1 {
        Chroma::Green
    } else {
        Chroma::Blue
    }
}

/// The channels that a ray with tag `chroma` is evaluated on.
pub open spec fn channels_of(chroma: Chroma) -> Seq<usize> {
    match chroma {
        Chroma::Red => seq![0usize],
        Chroma::Green => seq![1usize],
        Chroma::Blue => seq![2usize],
        Chroma::White => seq![0usize, 1usize, 2usize],
    }
}

impl Chroma {
    /// The tag of colour channel `c`.
    pub fn from_channel(c: usize) -> (r: Chroma)
        requires
            c < 3,
        ensures
            r == chroma_of_channel(c as nat),
    {
        if c == 0 {
            Chroma::Red
        } else if c == 1 {
            Chroma::Green
        } else {
            Chroma::Blue
        }
    }

    /// The channels to evaluate for a ray with this tag, in channel order:
    /// all three for `White`, otherwise only the ray's own channel, so that
    /// a ray is never split twice.
    pub fn channels(self) -> (r: Vec<usize>)
        ensures
            r@ == channels_of(self),
    {
        match self {
            Chroma::Red => vec![0],
            Chroma::Green => vec![1],
            Chroma::Blue => vec![2],
            Chroma::White => vec![0, 1, 2],
        }
    }
}

/// The attenuation carried by the ray split off on channel `c`: the
/// material's colour on that channel and `zero` on the other two.
pub fn channel_attenuation<T: Copy>(colour: [T; 3], zero: T, c: usize) -> (r: [T; 3])
    requires
        c < 3,
    ensures
        r@[c as int] == colour@[c as int],
        forall|i: int| 0 <= i < 3 && i != c ==> r@[i] == zero,
{
    let mut r = [zero, zero, zero];
    r[c] = colour[c];
    r
}

/// A ray tagged `White` is evaluated on exactly three channels, red, green
/// and blue in that order, each continuing under its own channel's tag; a ray
/// already tagged with one channel is evaluated on exactly one channel, whose
/// tag is the ray's own.
pub proof fn lemma_split_arity(chroma: Chroma)
    ensures
        chroma == Chroma::White ==> {
            &&& channels_of(chroma).len() == 3
            &&& forall|i: int| 0 <= i < 3 ==> channels_of(chroma)[i] == i
            &&& chroma_of_channel(channels_of(chroma)[0] as nat) == Chroma::Red
            &&& chroma_of_channel(channels_of(chroma)[1] as nat) == Chroma::Green
            &&& chroma_of_channel(channels_of(chroma)[2] as nat) == Chroma::Blue
        },
        chroma != Chroma::White ==> {
            &&& channels_of(chroma).len() == 1
            &&& chroma_of_channel(channels_of(chroma)[0] as nat) == chroma
        },
{
}

} // verus!
