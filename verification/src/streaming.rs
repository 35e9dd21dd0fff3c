//! The channel layout of callback buffers and the size bookkeeping of the
//! stereo pairing stream: which samples of an interleaved multi-channel
//! buffer form the crossfed stereo pair of each frame.
use vstd::prelude::*;
use vstd::arithmetic::div_mod::{lemma_fundamental_div_mod, lemma_fundamental_div_mod_converse};

verus! {

/// Errors returned by streaming adapters.
#[derive(Debug, Clone, PartialEq, Eq, Structural)]
pub enum StreamingError {
    /// Fewer than two channels.
    InvalidChannelCount(usize),
    /// The pair names a channel out of range, or the same channel twice.
    InvalidChannelPair { channels: usize, left: usize, right: usize },
    /// The buffer does not hold a whole number of frames.
    MisalignedCallbackBuffer { sample_count: usize, channels: usize },
}

/// True when `(left_channel, right_channel)` is a stereo pair of two distinct
/// channels of a buffer with `channels` channels, at least two.
pub open spec fn valid_channel_pair(channels: usize, left_channel: usize, right_channel: usize) -> bool {
    &&& channels >= 2
    &&& left_channel < channels
    &&& right_channel < channels
    &&& left_channel != right_channel
}

/// What `validate_channel_pair` returns: the channel count is checked first.
pub open spec fn channel_pair_check(channels: usize, left_channel: usize, right_channel: usize) -> Result<(), StreamingError> {
    if channels < 2 {
        Err(StreamingError::InvalidChannelCount(channels))
    } else if left_channel >= channels || right_channel >= channels || left_channel == right_channel {
        Err(StreamingError::InvalidChannelPair { channels, left: left_channel, right: right_channel })
    } else {
        Ok(())
    }
}

/// Checks a stereo channel pair against a channel count.
pub fn validate_channel_pair(channels: usize, left_channel: usize, right_channel: usize) -> (result: Result<(), StreamingError>)
    ensures
        result == channel_pair_check(channels, left_channel, right_channel),
        result is Ok <==> valid_channel_pair(channels, left_channel, right_channel),
{
    if channels < 2 {
        return Err(StreamingError::InvalidChannelCount(channels));
    }
    if left_channel >= channels || right_channel >= channels || left_channel == right_channel {
        return Err(StreamingError::InvalidChannelPair { channels, left: left_channel, right: right_channel });
    }
    Ok(())
}

/// Position in an interleaved buffer of `channels` channels of the sample of
/// channel `channel` in frame `frame`.
pub open spec fn sample_position(channels: int, channel: int, frame: int) -> int {
    frame * channels + channel
}

/// The stereo pair that a callback adapter crossfeeds within each frame of an
/// interleaved buffer; all other channels are left untouched.
#[derive(Debug, Clone, Copy)]
pub struct ChannelPair {
    channels: usize,
    left_channel: usize,
    right_channel: usize,
}

impl ChannelPair {
    /// The pair is always valid for the channel count.
    #[verifier::type_invariant]
    pub closed spec fn well_formed(self) -> bool {
        valid_channel_pair(self.channels, self.left_channel, self.right_channel)
    }

    /// Total channel count of the buffers.
    pub closed spec fn channel_count(self) -> usize {
        self.channels
    }

    /// Left channel of the pair.
    pub closed spec fn left(self) -> usize {
        self.left_channel
    }

    /// Right channel of the pair.
    pub closed spec fn right(self) -> usize {
        self.right_channel
    }

    /// The pair `(0, 1)` of an interleaved stereo buffer `L, R, L, R, ...`.
    pub fn stereo() -> (pair: Self)
        ensures
            pair.channel_count() == 2 && pair.left() == 0 && pair.right() == 1,
    {
        ChannelPair { channels: 2, left_channel: 0, right_channel: 1 }
    }

    /// The pair `(0, 1)` of a buffer with `channels` channels.
    pub fn new(channels: usize) -> (result: Result<Self, StreamingError>)
        ensures
            result is Ok <==> channels >= 2,
            result matches Ok(pair) ==> pair.channel_count() == channels && pair.left() == 0 && pair.right() == 1,
            result matches Err(e) ==> e == StreamingError::InvalidChannelCount(channels),
    {
        Self::with_channel_pair(channels, 0, 1)
    }

    /// The pair `(left_channel, right_channel)` of a buffer with `channels`
    /// channels.
    pub fn with_channel_pair(channels: usize, left_channel: usize, right_channel: usize) -> (result: Result<Self, StreamingError>)
        ensures
            result is Ok <==> valid_channel_pair(channels, left_channel, right_channel),
            result matches Ok(pair) ==> pair.channel_count() == channels && pair.left() == left_channel
                && pair.right() == right_channel,
            result matches Err(e) ==> channel_pair_check(channels, left_channel, right_channel) == Err::<(), StreamingError>(e),
    {
        validate_channel_pair(channels, left_channel, right_channel)?;
        Ok(ChannelPair { channels, left_channel, right_channel })
    }

    /// Returns total channel count expected in callback buffers.
    pub fn channels(&self) -> (channels: usize)
        ensures
            channels == self.channel_count(),
            channels >= 2,
    {
        proof { use_type_invariant(self); }
        self.channels
    }

    /// Returns left channel index used for crossfeed.
    pub fn left_channel(&self) -> (left: usize)
        ensures
            left == self.left(),
            left < self.channel_count(),
    {
        proof { use_type_invariant(self); }
        self.left_channel
    }

    /// Returns right channel index used for crossfeed.
    pub fn right_channel(&self) -> (right: usize)
        ensures
            right == self.right(),
            right < self.channel_count(),
            right != self.left(),
    {
        proof { use_type_invariant(self); }
        self.right_channel
    }

    /// Number of frames in a callback buffer of `sample_count` samples, which
    /// must be a whole number of frames.
    pub fn frame_count(&self, sample_count: usize) -> (result: Result<usize, StreamingError>)
        ensures
            result is Ok <==> sample_count % self.channel_count() == 0,
            result matches Ok(frames) ==> frames * self.channel_count() == sample_count,
            result matches Err(e) ==> e == (StreamingError::MisalignedCallbackBuffer {
                sample_count,
                channels: self.channel_count(),
            }),
    {
        proof { use_type_invariant(self); }
        if sample_count % self.channels != 0 {
            return Err(StreamingError::MisalignedCallbackBuffer { sample_count, channels: self.channels });
        }
        proof {
            let n = sample_count as int;
            let c = self.channels as int;
            lemma_fundamental_div_mod(n, c);
            assert((n / c) * c == n) by (nonlinear_arith)
                requires
                    n == c * (n / c) + n % c,
                    n % c == 0,
            {
            }
        }
        Ok(sample_count / self.channels)
    }

    /// Positions of the left and right samples of frame `frame` in a buffer
    /// of `frames` frames.
    pub fn sample_positions(&self, frame: usize, frames: usize) -> (positions: (usize, usize))
        requires
            frame < frames,
            frames * self.channel_count() <= usize::MAX,
        ensures
            positions.0 == sample_position(self.channel_count() as int, self.left() as int, frame as int),
            positions.1 == sample_position(self.channel_count() as int, self.right() as int, frame as int),
            positions.0 < frames * self.channel_count(),
            positions.1 < frames * self.channel_count(),
    {
        proof {
            use_type_invariant(self);
            lemma_position_in_bounds(self.channels as int, self.left_channel as int, frame as int, frames as int);
            lemma_position_in_bounds(self.channels as int, self.right_channel as int, frame as int, frames as int);
        }
        let base = frame * self.channels;
        (base + self.left_channel, base + self.right_channel)
    }

    /// Reads the left and right samples of frame `frame` of a callback
    /// buffer of `frames` frames.
    pub fn read_frame<T: Copy>(&self, data: &[T], frame: usize, frames: usize) -> (samples: (T, T))
        requires
            frame < frames,
            data@.len() == frames * self.channel_count(),
        ensures
            samples.0 == data@[sample_position(self.channel_count() as int, self.left() as int, frame as int)],
            samples.1 == data@[sample_position(self.channel_count() as int, self.right() as int, frame as int)],
    {
        proof { assert(data@.len() == data.len()); }
        let (left, right) = self.sample_positions(frame, frames);
        (data[left], data[right])
    }

    /// Writes the crossfed left and right samples of frame `frame` back into
    /// a callback buffer of `frames` frames. Every sample of another frame or
    /// of another channel keeps its value.
    pub fn write_frame<T>(&self, data: &mut [T], frame: usize, frames: usize, left: T, right: T)
        requires
            frame < frames,
            old(data)@.len() == frames * self.channel_count(),
        ensures
            final(data)@ == with_frame(*self, old(data)@, frame as int, (left, right)),
            forall|i: int| 0 <= i < old(data)@.len() && i % (self.channel_count() as int) != self.left()
                && i % (self.channel_count() as int) != self.right()
                ==> final(data)@[i] == old(data)@[i],
    {
        proof {
            use_type_invariant(self);
            assert(data@.len() == data.len());
        }
        let (left_at, right_at) = self.sample_positions(frame, frames);
        data[left_at] = left;
        data[right_at] = right;
        proof {
            let c = self.channels as int;
            lemma_position_decomposes(c, self.left_channel as int, frame as int);
            lemma_position_decomposes(c, self.right_channel as int, frame as int);
        }
    }
}

/// The buffer `data` with the two samples of frame `frame` of the pair
/// replaced by `samples`.
pub open spec fn with_frame<T>(pair: ChannelPair, data: Seq<T>, frame: int, samples: (T, T)) -> Seq<T> {
    let c = pair.channel_count() as int;
    data.update(sample_position(c, pair.left() as int, frame), samples.0).update(
        sample_position(c, pair.right() as int, frame),
        samples.1,
    )
}

/// The buffer `data` after its frames `0..frames` have been crossfed, in
/// order, into `processed[0]`, ..., `processed[frames - 1]`.
pub open spec fn crossfed_buffer<T>(pair: ChannelPair, data: Seq<T>, processed: Seq<(T, T)>, frames: nat) -> Seq<T>
    decreases frames,
{
    if frames == 0 {
        data
    } else {
        with_frame(
            pair,
            crossfed_buffer(pair, data, processed, (frames - 1) as nat),
            frames - 1,
            processed[frames - 1],
        )
    }
}

/// What sample `i` of `data` holds once frames `0..frames` are crossfed: the
/// crossfed left or right output of its frame when it belongs to a crossfed
/// frame of the pair, otherwise its original value.
pub open spec fn crossfed_sample<T>(pair: ChannelPair, data: Seq<T>, processed: Seq<(T, T)>, frames: nat, i: int) -> T {
    let c = pair.channel_count() as int;
    if i / c < frames && i % c == pair.left() {
        processed[i / c].0
    } else if i / c < frames && i % c == pair.right() {
        processed[i / c].1
    } else {
        data[i]
    }
}

/// Frames not yet crossfed keep their samples, given the closed form of the buffer.
proof fn lemma_crossfed_untouched_frames<T>(pair: ChannelPair, data: Seq<T>, processed: Seq<(T, T)>, done: nat, frames: nat)
    requires
        pair.well_formed(),
        data.len() == frames * pair.channel_count(),
        done <= frames,
        forall|i: int| 0 <= i < data.len() ==> #[trigger] crossfed_buffer(pair, data, processed, done)[i]
            == crossfed_sample(pair, data, processed, done, i),
    ensures
        forall|k: int| done <= k < frames ==> crossfed_buffer(pair, data, processed, done)[#[trigger] sample_position(pair.channel_count() as int, pair.left() as int, k)]
            == data[sample_position(pair.channel_count() as int, pair.left() as int, k)],
        forall|k: int| done <= k < frames ==> crossfed_buffer(pair, data, processed, done)[#[trigger] sample_position(pair.channel_count() as int, pair.right() as int, k)]
            == data[sample_position(pair.channel_count() as int, pair.right() as int, k)],
{
    let c = pair.channel_count() as int;
    assert forall|k: int| done <= k < frames implies crossfed_buffer(pair, data, processed, done)[
        #[trigger] sample_position(c, pair.left() as int, k)
    ] == data[sample_position(c, pair.left() as int, k)] by {
        let pl = sample_position(c, pair.left() as int, k);
        lemma_position_in_bounds(c, pair.left() as int, k, frames as int);
        lemma_position_decomposes(c, pair.left() as int, k);
        assert(crossfed_buffer(pair, data, processed, done)[pl] == crossfed_sample(pair, data, processed, done, pl));
    }
    assert forall|k: int| done <= k < frames implies crossfed_buffer(pair, data, processed, done)[
        #[trigger] sample_position(c, pair.right() as int, k)
    ] == data[sample_position(c, pair.right() as int, k)] by {
        let pr = sample_position(c, pair.right() as int, k);
        lemma_position_in_bounds(c, pair.right() as int, k, frames as int);
        lemma_position_decomposes(c, pair.right() as int, k);
        assert(crossfed_buffer(pair, data, processed, done)[pr] == crossfed_sample(pair, data, processed, done, pr));
    }
}

/// Law: writing back the crossfed frames `0..done` of a callback buffer of
/// `frames` frames, one after the other, crossfeeds each of these frames
/// exactly once: every sample of the pair in them holds its frame's output,
/// and every other sample, of another channel or a later frame, keeps its
/// value. A later frame is therefore still read with its original samples.
pub proof fn lemma_crossfed_buffer<T>(pair: ChannelPair, data: Seq<T>, processed: Seq<(T, T)>, done: nat, frames: nat)
    requires
        pair.well_formed(),
        data.len() == frames * pair.channel_count(),
        done <= frames,
    ensures
        crossfed_buffer(pair, data, processed, done).len() == data.len(),
        forall|i: int| 0 <= i < data.len() ==> #[trigger] crossfed_buffer(pair, data, processed, done)[i]
            == crossfed_sample(pair, data, processed, done, i),
        forall|k: int| done <= k < frames ==> crossfed_buffer(pair, data, processed, done)[#[trigger] sample_position(pair.channel_count() as int, pair.left() as int, k)]
            == data[sample_position(pair.channel_count() as int, pair.left() as int, k)],
        forall|k: int| done <= k < frames ==> crossfed_buffer(pair, data, processed, done)[#[trigger] sample_position(pair.channel_count() as int, pair.right() as int, k)]
            == data[sample_position(pair.channel_count() as int, pair.right() as int, k)],
    decreases done,
{
    let c = pair.channel_count() as int;
    let l = pair.left() as int;
    let r = pair.right() as int;
    if done > 0 {
        let n = (done - 1) as nat;
        lemma_crossfed_buffer(pair, data, processed, n, frames);
        let prev = crossfed_buffer(pair, data, processed, n);
        let pl = sample_position(c, l, n as int);
        let pr = sample_position(c, r, n as int);
        lemma_position_in_bounds(c, l, n as int, frames as int);
        lemma_position_in_bounds(c, r, n as int, frames as int);
        lemma_position_decomposes(c, l, n as int);
        lemma_position_decomposes(c, r, n as int);
        assert forall|i: int| 0 <= i < data.len() implies #[trigger] crossfed_buffer(pair, data, processed, done)[i]
            == crossfed_sample(pair, data, processed, done, i) by {
            lemma_fundamental_div_mod(i, c);
            assert(0 <= i % c < c);
            assert(0 <= i / c) by (nonlinear_arith)
                requires
                    c > 0,
                    0 <= i,
            {
            }
            assert(i == sample_position(c, i % c, i / c)) by (nonlinear_arith)
                requires
                    i == c * (i / c) + i % c,
            {
            }
            if i == pr {
            } else if i == pl {
            } else {
                assert(prev[i] == crossfed_sample(pair, data, processed, n, i));
                if i / c == n as int && i % c == l {
                    assert(i == pl);
                }
                if i / c == n as int && i % c == r {
                    assert(i == pr);
                }
            }
        }
    }
    lemma_crossfed_untouched_frames(pair, data, processed, done, frames);
}

/// Law: writing frame `frame` of the pair puts the left sample at the frame's
/// left-channel position and the right sample at its right-channel position,
/// and leaves every sample of another channel as it was.
pub proof fn lemma_with_frame_answers<T>(pair: ChannelPair, data: Seq<T>, frame: int, left: T, right: T)
    requires
        pair.well_formed(),
        0 <= frame,
        (frame + 1) * pair.channel_count() <= data.len(),
    ensures
        with_frame(pair, data, frame, (left, right)).len() == data.len(),
        with_frame(pair, data, frame, (left, right))[frame * pair.channel_count() + pair.left()] == left,
        with_frame(pair, data, frame, (left, right))[frame * pair.channel_count() + pair.right()] == right,
        forall|i: int| 0 <= i < data.len() && i % (pair.channel_count() as int) != pair.left()
            && i % (pair.channel_count() as int) != pair.right()
            ==> #[trigger] with_frame(pair, data, frame, (left, right))[i] == data[i],
{
    let c = pair.channel_count() as int;
    lemma_position_decomposes(c, pair.left() as int, frame);
    lemma_position_decomposes(c, pair.right() as int, frame);
    lemma_position_in_bounds(c, pair.left() as int, frame, frame + 1);
    lemma_position_in_bounds(c, pair.right() as int, frame, frame + 1);
}

/// Law: once frames `0..done` of a callback buffer are written back, frame
/// `k < done` holds `processed[k]` at its left and right positions, and every
/// sample of another channel keeps its original value.
pub proof fn lemma_crossfed_frames_answer<T>(pair: ChannelPair, data: Seq<T>, processed: Seq<(T, T)>, done: nat, frames: nat)
    requires
        pair.well_formed(),
        data.len() == frames * pair.channel_count(),
        done <= frames,
    ensures
        forall|k: int| 0 <= k < done ==> #[trigger] crossfed_buffer(pair, data, processed, done)[
            k * pair.channel_count() + pair.left()] == processed[k].0,
        forall|k: int| 0 <= k < done ==> #[trigger] crossfed_buffer(pair, data, processed, done)[
            k * pair.channel_count() + pair.right()] == processed[k].1,
        forall|i: int| 0 <= i < data.len() && i % (pair.channel_count() as int) != pair.left()
            && i % (pair.channel_count() as int) != pair.right()
            ==> #[trigger] crossfed_buffer(pair, data, processed, done)[i] == data[i],
{
    let c = pair.channel_count() as int;
    lemma_crossfed_buffer(pair, data, processed, done, frames);
    assert forall|k: int| 0 <= k < done implies #[trigger] crossfed_buffer(pair, data, processed, done)[
        k * pair.channel_count() + pair.left()] == processed[k].0 by {
        lemma_position_decomposes(c, pair.left() as int, k);
        lemma_position_in_bounds(c, pair.left() as int, k, frames as int);
    }
    assert forall|k: int| 0 <= k < done implies #[trigger] crossfed_buffer(pair, data, processed, done)[
        k * pair.channel_count() + pair.right()] == processed[k].1 by {
        lemma_position_decomposes(c, pair.right() as int, k);
        lemma_position_in_bounds(c, pair.right() as int, k, frames as int);
    }
}

/// A sample position within a buffer of `frames` frames lies inside it.
proof fn lemma_position_in_bounds(channels: int, channel: int, frame: int, frames: int)
    by (nonlinear_arith)
    requires
        0 <= channel < channels,
        0 <= frame < frames,
    ensures
        0 <= sample_position(channels, channel, frame) < frames * channels,
        frame * channels <= sample_position(channels, channel, frame),
{
}

/// Frame and channel of a sample position: the position divided by the channel count
/// and its remainder.
proof fn lemma_position_decomposes(channels: int, channel: int, frame: int)
    requires
        0 <= channel < channels,
        0 <= frame,
    ensures
        sample_position(channels, channel, frame) / channels == frame,
        sample_position(channels, channel, frame) % channels == channel,
{
    lemma_fundamental_div_mod_converse(sample_position(channels, channel, frame), channels, frame, channel);
}

/// Law: no sample is visited twice, whether by two frames or by the two
/// channels of one frame.
pub proof fn lemma_positions_distinct(pair: ChannelPair, frame1: int, frame2: int, left_side1: bool, left_side2: bool)
    requires
        pair.well_formed(),
        0 <= frame1,
        0 <= frame2,
    ensures
        ({
            let c = pair.channel_count() as int;
            let ch1 = if left_side1 { pair.left() as int } else { pair.right() as int };
            let ch2 = if left_side2 { pair.left() as int } else { pair.right() as int };
            sample_position(c, ch1, frame1) == sample_position(c, ch2, frame2)
                ==> frame1 == frame2 && left_side1 == left_side2
        }),
{
    let c = pair.channel_count() as int;
    let ch1 = if left_side1 { pair.left() as int } else { pair.right() as int };
    let ch2 = if left_side2 { pair.left() as int } else { pair.right() as int };
    lemma_position_decomposes(c, ch1, frame1);
    lemma_position_decomposes(c, ch2, frame2);
}

/// Law: each sample of a buffer of `frames` frames belongs to exactly one
/// frame and one channel, the quotient and remainder of its position by the
/// channel count. So a sample is visited exactly when its channel is one of
/// the pair, and every other channel is left untouched.
pub proof fn lemma_visited_positions(pair: ChannelPair, frames: int, position: int)
    requires
        pair.well_formed(),
        0 <= position < frames * pair.channel_count(),
    ensures
        ({
            let c = pair.channel_count() as int;
            &&& 0 <= position / c < frames
            &&& position == sample_position(c, position % c, position / c)
            &&& forall|frame: int, channel: int| 0 <= frame && 0 <= channel < c
                && #[trigger] sample_position(c, channel, frame) == position
                ==> frame == position / c && channel == position % c
        }),
{
    let c = pair.channel_count() as int;
    let f = position / c;
    lemma_fundamental_div_mod(position, c);
    assert(0 <= f < frames) by (nonlinear_arith)
        requires
            c > 0,
            0 <= position < frames * c,
            f == position / c,
    {
    }
    assert(sample_position(c, position % c, f) == position) by (nonlinear_arith)
        requires
            position == c * (position / c) + position % c,
            f == position / c,
    {
    }
    assert forall|frame: int, channel: int| 0 <= frame && 0 <= channel < c
        && #[trigger] sample_position(c, channel, frame) == position
        implies frame == position / c && channel == position % c by {
        lemma_position_decomposes(c, channel, frame);
    }
}

/// Law: the plain stereo pair `(0, 1)` of two-channel buffers visits the
/// samples of an interleaved `L, R, L, R, ...` buffer in order.
pub proof fn lemma_stereo_pair_is_interleaved(pair: ChannelPair, frame: int)
    requires
        pair.channel_count() == 2,
        pair.left() == 0,
        pair.right() == 1,
    ensures
        sample_position(2, pair.left() as int, frame) == 2 * frame,
        sample_position(2, pair.right() as int, frame) == 2 * frame + 1,
{
}

/// Law: a channel pair is accepted exactly when it is valid; too few channels
/// are reported first, with their count, and otherwise the pair is reported
/// with the channel count and both channels.
pub proof fn lemma_channel_pair_check_answers(channels: usize, left_channel: usize, right_channel: usize)
    ensures
        channel_pair_check(channels, left_channel, right_channel) is Ok <==> (channels >= 2 && left_channel < channels
            && right_channel < channels && left_channel != right_channel),
        channels < 2 ==> channel_pair_check(channels, left_channel, right_channel)
            == Err::<(), StreamingError>(StreamingError::InvalidChannelCount(channels)),
        channels >= 2 && !(left_channel < channels && right_channel < channels && left_channel != right_channel)
            ==> channel_pair_check(channels, left_channel, right_channel) == Err::<(), StreamingError>(
            StreamingError::InvalidChannelPair { channels, left: left_channel, right: right_channel },
        ),
{
}

/// Law: the size bounds of the pairing stream add exactly the held sample to
/// those of the inner stream. Without a held sample they are the inner
/// bounds. The lower bound grows by the held sample, saturating at the
/// largest `usize`. A known upper bound is the inner one plus the held sample
/// whenever that fits, and unknown only when it does not. So when the inner
/// bounds are ordered, so are the new ones.
pub proof fn lemma_pending_size_hint_answers(low: usize, high: Option<usize>, pending: bool)
    ensures
        !pending ==> spec_pending_size_hint(low, high, pending) == (low, high),
        pending && low < usize::MAX ==> spec_pending_size_hint(low, high, pending).0 == low + 1,
        pending && low == usize::MAX ==> spec_pending_size_hint(low, high, pending).0 == usize::MAX,
        high is None ==> spec_pending_size_hint(low, high, pending).1 is None,
        high is Some && pending && high->0 < usize::MAX
            ==> spec_pending_size_hint(low, high, pending).1 == Some((high->0 + 1) as usize),
        high is Some && pending && high->0 == usize::MAX
            ==> spec_pending_size_hint(low, high, pending).1 is None,
        high is Some && low <= high->0 && spec_pending_size_hint(low, high, pending).1 is Some
            ==> spec_pending_size_hint(low, high, pending).0 <= spec_pending_size_hint(low, high, pending).1->0,
{
}

/// Size bounds of a stereo pairing stream that holds back `pending` samples
/// on top of an inner stream bounded by `(low, high)`.
pub open spec fn spec_pending_size_hint(low: usize, high: Option<usize>, pending: bool) -> (usize, Option<usize>) {
    let extra: int = if pending { 1 } else { 0 };
    (
        if low + extra > usize::MAX { usize::MAX } else { (low + extra) as usize },
        match high {
            None => None,
            Some(h) => if h + extra > usize::MAX { None } else { Some((h + extra) as usize) },
        },
    )
}

/// Adds a held-back sample to the size bounds of an inner stream: the lower
/// bound saturates, an upper bound that overflows becomes unknown.
pub fn pending_size_hint(low: usize, high: Option<usize>, pending: bool) -> (hint: (usize, Option<usize>))
    ensures
        hint == spec_pending_size_hint(low, high, pending),
        high is None ==> hint.1 is None,
        hint.1 is Some ==> high is Some && hint.1->0 == high->0 + (if pending { 1int } else { 0int }),
        hint.0 == (if pending && low < usize::MAX { low + 1 } else { low as int }),
{
    let extra: usize = if pending { 1 } else { 0 };
    let upper = match high {
        None => None,
        Some(value) => value.checked_add(extra),
    };
    (low.saturating_add(extra), upper)
}

/// The next thing the stereo pairing stream has to do. The stream reads an
/// interleaved sample stream in `(left, right)` pairs, crossfeeds each pair,
/// hands out the left output and holds the right one back for the next call.
/// A single trailing sample passes through unchanged.
#[derive(Debug, Clone, Copy, PartialEq, Eq)]
pub enum PairingAction<T> {
    /// Hand out this sample.
    Yield(T),
    /// Pull the next sample of the inner stream as a left sample.
    PullLeft,
    /// Pull the next sample of the inner stream as the right sample for this left one.
    PullRight(T),
    /// Crossfeed this `(left, right)` frame.
    Process(T, T),
    /// The stream has ended.
    End,
}

/// The first step of a call: what to hold afterwards and what to do.
pub open spec fn begin_step<T>(pending: Option<T>) -> (Option<T>, PairingAction<T>) {
    (None, match pending {
        Some(sample) => PairingAction::Yield(sample),
        None => PairingAction::PullLeft,
    })
}

/// What to do with the sample pulled as a left sample.
pub open spec fn left_step<T>(left: Option<T>) -> PairingAction<T> {
    match left {
        None => PairingAction::End,
        Some(l) => PairingAction::PullRight(l),
    }
}

/// What to do with the sample pulled as a right sample.
pub open spec fn right_step<T>(left: T, right: Option<T>) -> PairingAction<T> {
    match right {
        None => PairingAction::Yield(left),
        Some(r) => PairingAction::Process(left, r),
    }
}

/// What to hold and do once a frame is crossfed into `(left, right)`.
pub open spec fn process_step<T>(left: T, right: T) -> (Option<T>, PairingAction<T>) {
    (Some(right), PairingAction::Yield(left))
}

/// Starts a call of the pairing stream: a held-back sample is handed out
/// first; otherwise a left sample is pulled. Nothing is held afterwards.
pub fn pairing_begin<T>(pending: Option<T>) -> (step: (Option<T>, PairingAction<T>))
    ensures
        step == begin_step(pending),
        step.0 is None,
        pending is None ==> step.1 == PairingAction::<T>::PullLeft,
{
    match pending {
        Some(sample) => (None, PairingAction::Yield(sample)),
        None => (None, PairingAction::PullLeft),
    }
}

/// Goes on after pulling a left sample: the stream ends when there was none,
/// otherwise a right sample is pulled.
pub fn pairing_after_left<T>(left: Option<T>) -> (action: PairingAction<T>)
    ensures
        action == left_step(left),
{
    match left {
        None => PairingAction::End,
        Some(l) => PairingAction::PullRight(l),
    }
}

/// Goes on after pulling a right sample: a left sample without a partner
/// passes through unchanged, otherwise the frame is crossfed.
pub fn pairing_after_right<T>(left: T, right: Option<T>) -> (action: PairingAction<T>)
    ensures
        action == right_step(left, right),
        right matches Some(r) ==> action == PairingAction::Process(left, r),
        right is None ==> action == PairingAction::Yield(left),
{
    match right {
        None => PairingAction::Yield(left),
        Some(r) => PairingAction::Process(left, r),
    }
}

/// Goes on after crossfeeding a frame into `(left, right)`: the left output
/// is handed out and the right one held back.
pub fn pairing_after_process<T>(left: T, right: T) -> (step: (Option<T>, PairingAction<T>))
    ensures
        step == process_step(left, right),
{
    (Some(right), PairingAction::Yield(left))
}

/// Law: the four pairing steps do what the adapter promises, for every
/// input. With nothing held a call pulls a left sample; a held sample is
/// handed out first and dropped from the hold; a missing left sample ends the
/// stream; a left sample goes on to pull its right partner; a left sample
/// without a partner is handed out unchanged; a full pair is crossfed as
/// `(left, right)` in that order; after the crossfeed the left output is
/// handed out and the right output held.
pub proof fn lemma_pairing_steps<T>(sample: T, left: T, right: T)
    ensures
        begin_step::<T>(None) == (None::<T>, PairingAction::<T>::PullLeft),
        begin_step(Some(sample)) == (None::<T>, PairingAction::Yield(sample)),
        left_step::<T>(None) == PairingAction::<T>::End,
        left_step(Some(left)) == PairingAction::PullRight(left),
        right_step(left, None) == PairingAction::Yield(left),
        right_step(left, Some(right)) == PairingAction::Process(left, right),
        process_step(left, right) == (Some(right), PairingAction::Yield(left)),
{
}

/// The frames `(input[0], input[1])`, `(input[2], input[3])`, ... of an
/// interleaved stream, without an odd trailing sample.
pub open spec fn input_frames<T>(input: Seq<T>) -> Seq<(T, T)> {
    Seq::new(input.len() / 2, |k: int| (input[2 * k], input[2 * k + 1]))
}

/// What remains of `input` after pulling one sample, if there is one.
pub open spec fn after_pull<T>(input: Seq<T>) -> Seq<T> {
    if input.len() == 0 { input } else { input.skip(1) }
}

/// The sample that a pull from `input` gives, if there is one.
pub open spec fn pulled<T>(input: Seq<T>) -> Option<T> {
    if input.len() == 0 { None } else { Some(input[0]) }
}

/// One call of the pairing stream, run by its steps over the rest `input` of
/// a finite inner stream, where the k-th crossfed frame gives `processed[k]`.
/// Gives the sample handed out (none at the end of the stream), the sample
/// held afterwards, what remains of `input` and of `processed`, and the frame
/// handed to the crossfeed, if any. An `End` ends the stream.
pub open spec fn next_output<T>(pending: Option<T>, input: Seq<T>, processed: Seq<(T, T)>)
    -> (Option<T>, Option<T>, Seq<T>, Seq<(T, T)>, Option<(T, T)>)
{
    let (held, action) = begin_step(pending);
    match action {
        PairingAction::Yield(sample) => (Some(sample), held, input, processed, None),
        PairingAction::PullLeft => {
            let rest = after_pull(input);
            match left_step(pulled(input)) {
                PairingAction::PullRight(l) => {
                    let rest2 = after_pull(rest);
                    match right_step(l, pulled(rest)) {
                        PairingAction::Yield(sample) => (Some(sample), held, rest2, processed, None),
                        PairingAction::Process(a, b) => {
                            let (held2, action2) = process_step(processed[0].0, processed[0].1);
                            match action2 {
                                PairingAction::Yield(sample) => (Some(sample), held2, rest2, processed.skip(1), Some((a, b))),
                                _ => (None, held2, rest2, processed.skip(1), Some((a, b))),
                            }
                        },
                        _ => (None, held, rest2, processed, None),
                    }
                },
                _ => (None, held, rest, processed, None),
            }
        },
        _ => (None, held, input, processed, None),
    }
}

/// Size of a pairing stream state: twice the samples left plus the one held.
pub open spec fn pairing_measure<T>(pending: Option<T>, input: Seq<T>) -> int {
    2 * input.len() + if pending is Some { 1int } else { 0int }
}

/// Everything the pairing stream hands out, call after call, until the first
/// call that hands out nothing (or, defensively, until a call makes no progress).
pub open spec fn drain_output<T>(pending: Option<T>, input: Seq<T>, processed: Seq<(T, T)>) -> Seq<T>
    decreases pairing_measure(pending, input),
{
    let (out, held, rest, processed_rest, _frame) = next_output(pending, input, processed);
    match out {
        None => Seq::empty(),
        Some(sample) => if pairing_measure(held, rest) < pairing_measure(pending, input) {
            seq![sample].add(drain_output(held, rest, processed_rest))
        } else {
            seq![sample]
        },
    }
}

/// Every frame that the pairing stream hands to the crossfeed, in order, over
/// the same calls as `drain_output`.
pub open spec fn drain_frames<T>(pending: Option<T>, input: Seq<T>, processed: Seq<(T, T)>) -> Seq<(T, T)>
    decreases pairing_measure(pending, input),
{
    let (out, held, rest, processed_rest, frame) = next_output(pending, input, processed);
    let here = match frame {
        Some(f) => seq![f],
        None => Seq::empty(),
    };
    match out {
        None => here,
        Some(_) => if pairing_measure(held, rest) < pairing_measure(pending, input) {
            here.add(drain_frames(held, rest, processed_rest))
        } else {
            here
        },
    }
}

/// What the pairing stream should hand out for an inner stream `input`: the
/// crossfed frames `processed[0]`, `processed[1]`, ... in order, left before
/// right, then an odd trailing sample unchanged.
pub open spec fn paired_output<T>(input: Seq<T>, processed: Seq<(T, T)>) -> Seq<T>
    decreases input.len(),
{
    if input.len() == 0 {
        Seq::empty()
    } else if input.len() == 1 {
        seq![input[0]]
    } else {
        seq![processed[0].0, processed[0].1].add(paired_output(input.skip(2), processed.skip(1)))
    }
}

/// Law: `paired_output` hands out, for each frame `k`, the crossfed left
/// output at `2k` and the crossfed right output at `2k + 1`, and an odd
/// trailing sample unchanged at the end; nothing else.
pub proof fn lemma_paired_output_closed_form<T>(input: Seq<T>, processed: Seq<(T, T)>)
    requires
        processed.len() >= input.len() / 2,
    ensures
        paired_output(input, processed).len() == input.len(),
        forall|k: int| 0 <= k < input.len() / 2 ==> #[trigger] paired_output(input, processed)[2 * k] == processed[k].0,
        forall|k: int| 0 <= k < input.len() / 2 ==> #[trigger] paired_output(input, processed)[2 * k + 1] == processed[k].1,
        input.len() % 2 == 1 ==> paired_output(input, processed)[input.len() - 1] == input[input.len() - 1],
    decreases input.len(),
{
    if input.len() >= 2 {
        let rest = input.skip(2);
        let prest = processed.skip(1);
        lemma_paired_output_closed_form(rest, prest);
        let out = paired_output(input, processed);
        let tail = paired_output(rest, prest);
        assert(out =~= seq![processed[0].0, processed[0].1].add(tail));
        assert(rest.len() / 2 == input.len() / 2 - 1);
        assert forall|k: int| 0 <= k < input.len() / 2 implies #[trigger] out[2 * k] == processed[k].0 by {
            if k > 0 {
                assert(out[2 * k] == tail[2 * (k - 1)]);
                assert(prest[k - 1] == processed[k]);
            }
        }
        assert forall|k: int| 0 <= k < input.len() / 2 implies #[trigger] out[2 * k + 1] == processed[k].1 by {
            if k > 0 {
                assert(out[2 * k + 1] == tail[2 * (k - 1) + 1]);
                assert(prest[k - 1] == processed[k]);
            }
        }
        if input.len() % 2 == 1 {
            assert(rest[rest.len() - 1] == input[input.len() - 1]);
        }
    }
}

/// Law: run call after call on a finite inner stream, the pairing steps hand
/// the frames `(input[0], input[1])`, `(input[2], input[3])`, ... to the
/// crossfeed in order, hand out every crossfed frame in order, left before
/// right, then an odd trailing sample unchanged, and then end.
pub proof fn lemma_pairing_stream<T>(input: Seq<T>, processed: Seq<(T, T)>)
    requires
        processed.len() >= input.len() / 2,
    ensures
        drain_output(None, input, processed) == paired_output(input, processed),
        drain_frames(None, input, processed) == input_frames(input),
    decreases input.len(),
{
    if input.len() == 0 {
        assert(drain_output(None, input, processed) =~= Seq::<T>::empty());
        assert(drain_frames(None, input, processed) =~= input_frames(input));
    } else if input.len() == 1 {
        let rest = input.skip(1);
        assert(rest.len() == 0);
        assert(next_output(None, input, processed) == (Some(input[0]), None::<T>, rest, processed, None::<(T, T)>));
        assert(next_output(None::<T>, rest, processed) == (None::<T>, None::<T>, rest, processed, None::<(T, T)>));
        assert(drain_output(None::<T>, rest, processed) =~= Seq::<T>::empty());
        assert(drain_output(None, input, processed) =~= seq![input[0]]);
        assert(drain_frames(None::<T>, rest, processed) =~= Seq::<(T, T)>::empty());
        assert(drain_frames(None, input, processed) =~= input_frames(input));
    } else {
        let p = processed[0];
        let f = (input[0], input[1]);
        let rest2 = input.skip(2);
        let prest = processed.skip(1);
        assert(input.skip(1).skip(1) =~= rest2);
        assert(input.skip(1)[0] == input[1]);
        assert(next_output(None, input, processed) == (Some(p.0), Some(p.1), rest2, prest, Some(f)));
        assert(next_output(Some(p.1), rest2, prest) == (Some(p.1), None::<T>, rest2, prest, None::<(T, T)>));
        lemma_pairing_stream(rest2, prest);
        assert(drain_output(Some(p.1), rest2, prest)
            =~= seq![p.1].add(drain_output(None, rest2, prest)));
        assert(drain_output(None, input, processed)
            =~= seq![p.0].add(drain_output(Some(p.1), rest2, prest)));
        assert(paired_output(input, processed)
            =~= seq![p.0, p.1].add(paired_output(rest2, prest)));
        assert(seq![p.0].add(seq![p.1].add(paired_output(rest2, prest)))
            =~= seq![p.0, p.1].add(paired_output(rest2, prest)));
        assert(drain_frames(Some(p.1), rest2, prest) =~= drain_frames(None, rest2, prest));
        assert(drain_frames(None, input, processed) =~= seq![f].add(drain_frames(Some(p.1), rest2, prest)));
        assert(input_frames(input) =~= seq![f].add(input_frames(rest2)));
    }
}

/// Law: a held-back sample is always handed out first, by itself, and a stream
/// with nothing held and nothing left ends.
pub proof fn lemma_pairing_pending_first<T>(sample: T, input: Seq<T>, processed: Seq<(T, T)>)
    ensures
        next_output(Some(sample), input, processed) == (Some(sample), None::<T>, input, processed, None::<(T, T)>),
        next_output(None::<T>, Seq::<T>::empty(), processed).0 is None,
{
}

} // verus!
