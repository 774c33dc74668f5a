use vstd::prelude::*;
use vstd::arithmetic::div_mod::lemma_fundamental_div_mod_converse;

verus! {

/// The samples of a list of channels, one sequence per channel.
pub open spec fn channel_samples<A>(channels: Seq<Vec<A>>) -> Seq<Seq<A>> {
    channels.map_values(|channel: Vec<A>| channel@)
}

/// A channel sample set: every channel is as long as the first one.
pub open spec fn is_channel_set<A>(x: Seq<Seq<A>>) -> bool {
    forall|c: int| 0 <= c < x.len() ==> (#[trigger] x[c]).len() == x[0].len()
}

/// The number of frames of a channel sample set: the length of its first
/// channel, and zero when it has no channel.
pub open spec fn frame_count<A>(x: Seq<Seq<A>>) -> nat {
    if x.len() == 0 {
        0
    } else {
        x[0].len()
    }
}

/// `len` samples of silence.
pub open spec fn silence(len: nat) -> Seq<i32> {
    Seq::new(len, |i: int| 0i32)
}

/// The interleaved buffer of a channel sample set: sample `i` belongs to
/// channel `i mod C` of frame `i / C`.
pub open spec fn interleave<A>(x: Seq<Seq<A>>) -> Seq<A> {
    Seq::new(frame_count(x) * x.len(), |i: int| x[i % (x.len() as int)][i / (x.len() as int)])
}

/// The channel sample set held by an interleaved buffer of `channels`
/// channels. Samples after the last whole frame are left out, and a buffer
/// of no channels holds none.
pub open spec fn deinterleave<A>(flat: Seq<A>, channels: nat) -> Seq<Seq<A>> {
    if channels == 0 {
        Seq::empty()
    } else {
        Seq::new(
            channels,
            |c: int| Seq::new(flat.len() / channels, |f: int| flat[f * channels + c]),
        )
    }
}

/// Sample `c` of frame `f` sits at index `f * channels + c`, and that index
/// names no other pair.
pub proof fn lemma_slot(f: int, c: int, channels: int)
    requires
        0 <= c < channels,
        0 <= f,
    ensures
        (f * channels + c) % channels == c,
        (f * channels + c) / channels == f,
        0 <= f * channels + c,
{
    lemma_fundamental_div_mod_converse(f * channels + c, channels, f, c);
    assert(0 <= f * channels) by (nonlinear_arith)
        requires
            0 <= f,
            0 <= channels,
    ;
}

/// A slot of a frame below `frames` lies inside a buffer of `frames` whole
/// frames.
pub proof fn lemma_slot_in_range(f: int, c: int, frames: int, channels: int)
    requires
        0 <= c < channels,
        0 <= f < frames,
    ensures
        0 <= f * channels + c < frames * channels,
{
    assert(f * channels + c < frames * channels && 0 <= f * channels + c) by (nonlinear_arith)
        requires
            0 <= c < channels,
            0 <= f < frames,
    ;
}

/// `frames` whole frames of `channels` samples hold `frames` frames.
pub proof fn lemma_whole_frames(frames: int, channels: int)
    requires
        0 < channels,
        0 <= frames,
    ensures
        (frames * channels) / channels == frames,
{
    lemma_fundamental_div_mod_converse(frames * channels, channels, frames, 0);
}

/// Round trip: taking apart the interleaved buffer of a channel sample set
/// gives the set back.
pub proof fn lemma_deinterleave_interleave<A>(x: Seq<Seq<A>>)
    requires
        is_channel_set(x),
    ensures
        deinterleave(interleave(x), x.len()) == x,
{
    let channels = x.len() as int;
    let flat = interleave(x);
    let back = deinterleave(flat, x.len());
    if channels > 0 {
        let frames = x[0].len() as int;
        lemma_whole_frames(frames, channels);
        assert forall|c: int| 0 <= c < channels implies #[trigger] back[c] == x[c] by {
            assert(x[c].len() == frames);
            assert(back[c].len() == frames);
            assert forall|f: int| 0 <= f < frames implies back[c][f] == x[c][f] by {
                lemma_slot(f, c, channels);
                lemma_slot_in_range(f, c, frames, channels);
            }
            assert(back[c] =~= x[c]);
        }
    }
    assert(back =~= x);
}

/// Taking a buffer of whole frames apart gives `channels` channels of
/// `frames` samples each.
pub proof fn lemma_deinterleave_shape<A>(flat: Seq<A>, frames: nat, channels: nat)
    requires
        flat.len() == frames * channels,
    ensures
        deinterleave(flat, channels).len() == channels,
        forall|c: int|
            0 <= c < channels ==> (#[trigger] deinterleave(flat, channels)[c]).len() == frames,
{
    if channels > 0 {
        lemma_whole_frames(frames as int, channels as int);
    }
}

} // verus!
