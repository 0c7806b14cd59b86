//! The rolling capture of the sound that the VDP generates.

use vstd::prelude::*;

verus! {

/// At most this many bytes of capture are kept unread, about four seconds at 16384 Hz, so the
/// buffer stays bounded when nothing drains it.
pub const CAPTURE_CAP: usize = 65536;

/// What was captured and not read yet: unsigned 8-bit PCM, mono, 16384 Hz, oldest sample first.
pub struct AudioCapture {
    /// The samples.
    pub samples: Vec<u8>,
    /// How many samples were dropped because nobody read them in time.
    pub dropped: u32,
}

/// The newest samples of `s`: all of them where they fit under the cap, else the last
/// `CAPTURE_CAP`.
pub open spec fn newest(s: Seq<u8>) -> Seq<u8> {
    s.skip(overflow(s.len()) as int)
}

/// How many of `n` samples do not fit under the cap.
pub open spec fn overflow(n: nat) -> nat {
    if n > CAPTURE_CAP {
        (n - CAPTURE_CAP) as nat
    } else {
        0
    }
}

/// The count of dropped samples once `more` were dropped; it stops at the largest count.
pub open spec fn dropped_count(dropped: u32, more: nat) -> u32 {
    if dropped + more > u32::MAX {
        u32::MAX
    } else {
        (dropped + more) as u32
    }
}

impl AudioCapture {
    /// A capture holds no more than the cap.
    pub open spec fn bounded(&self) -> bool {
        self.samples@.len() <= CAPTURE_CAP
    }

    /// An empty capture.
    pub fn new() -> (capture: AudioCapture)
        ensures
            capture.samples@ == Seq::<u8>::empty(),
            capture.dropped == 0,
            capture.bounded(),
    {
        AudioCapture { samples: Vec::new(), dropped: 0 }
    }

    /// Appends a block of samples, and drops the oldest ones beyond the cap, counting them.
    pub fn tee(&mut self, block: &[u8])
        ensures
            final(self).bounded(),
            final(self).samples@ == newest(old(self).samples@ + block@),
            final(self).dropped == dropped_count(
                old(self).dropped,
                overflow(old(self).samples@.len() + block@.len()),
            ),
            final(self).samples@.len() == (if old(self).samples@.len() + block@.len() > 65536 {
                65536
            } else {
                old(self).samples@.len() + block@.len()
            }),
            final(self).samples@ == (old(self).samples@ + block@).skip(
                old(self).samples@.len() + block@.len() - final(self).samples@.len(),
            ),
            final(self).dropped == u32::MAX || final(self).dropped == old(self).dropped + old(
                self,
            ).samples@.len() + block@.len() - final(self).samples@.len(),
            final(self).dropped <= old(self).dropped + old(self).samples@.len() + block@.len()
                - final(self).samples@.len(),
    {
        self.samples.extend_from_slice(block);
        assert(self.samples@ =~= old(self).samples@ + block@);
        let len = self.samples.len();
        if len > CAPTURE_CAP {
            let drop = len - CAPTURE_CAP;
            let kept = self.samples.split_off(drop);
            self.samples = kept;
            let count: u32 = if drop > u32::MAX as usize {
                u32::MAX
            } else {
                drop as u32
            };
            self.dropped = self.dropped.saturating_add(count);
        }
        assert(self.samples@ =~= newest(old(self).samples@ + block@));
    }

    /// Takes everything captured since the last call, and starts anew.
    pub fn drain(&mut self) -> (taken: AudioCapture)
        ensures
            taken == *old(self),
            final(self).samples@ == Seq::<u8>::empty(),
            final(self).dropped == 0,
    {
        let mut taken = AudioCapture::new();
        std::mem::swap(self, &mut taken);
        taken
    }
}

/// A capture keeps the last 65536 samples of what was there and what came, in order, and all of
/// them where they are no more. Each one that it does not keep is counted, and the count stops at
/// the largest 32-bit number.
pub proof fn law_tee_keeps_the_newest(samples: Seq<u8>, dropped: u32, block: Seq<u8>)
    ensures
        ({
            let all = samples + block;
            let kept = newest(all);
            let lost = all.len() - kept.len();
            let count = dropped_count(dropped, overflow(samples.len() + block.len()));
            &&& all.len() <= 65536 ==> kept == all
            &&& all.len() > 65536 ==> kept.len() == 65536
            &&& forall|i: int| 0 <= i < kept.len() ==> #[trigger] kept[i] == all[lost + i]
            &&& overflow(samples.len() + block.len()) == lost
            &&& dropped + lost <= 0xffff_ffff ==> count == dropped + lost
            &&& dropped + lost > 0xffff_ffff ==> count == 0xffff_ffff
        }),
        block.len() <= 65536 ==> newest(samples + block).skip(
            newest(samples + block).len() - block.len(),
        ) == block,
{
    let all = samples + block;
    if all.len() <= 65536 {
        assert(newest(all) =~= all);
    }
    if block.len() <= 65536 {
        assert(newest(all).skip(newest(all).len() - block.len()) =~= block);
    }
}

/// Two blocks appended one after the other leave the capture as their concatenation would, so how
/// the sound is cut into blocks makes no difference.
pub proof fn law_tee_blocks(samples: Seq<u8>, dropped: u32, a: Seq<u8>, b: Seq<u8>)
    ensures
        newest(newest(samples + a) + b) == newest(samples + (a + b)),
        dropped_count(
            dropped_count(dropped, overflow(samples.len() + a.len())),
            overflow(newest(samples + a).len() + b.len()),
        ) == dropped_count(dropped, overflow(samples.len() + (a + b).len())),
{
    assert(newest(newest(samples + a) + b) =~= newest(samples + (a + b)));
}

/// No sample is lost uncounted: what was there and what came is either kept or counted as
/// dropped, as long as the count has room.
pub proof fn law_tee_counts_what_it_drops(samples: Seq<u8>, dropped: u32, block: Seq<u8>)
    requires
        dropped + overflow(samples.len() + block.len()) <= u32::MAX,
    ensures
        newest(samples + block).len() + dropped_count(
            dropped,
            overflow(samples.len() + block.len()),
        ) == samples.len() + block.len() + dropped,
{
}

/// A capture that started empty holds, at any time, the end of everything appended since, and all
/// of it where it fits under the cap.
pub proof fn law_capture_is_the_end_of_the_stream(stream: Seq<u8>, block: Seq<u8>)
    ensures
        newest(newest(stream) + block) == newest(stream + block),
        stream.len() <= CAPTURE_CAP ==> newest(stream) == stream,
        stream.len() > CAPTURE_CAP ==> newest(stream) == stream.subrange(
            stream.len() - CAPTURE_CAP,
            stream.len() as int,
        ),
        newest(stream).len() <= CAPTURE_CAP,
{
    assert(newest(newest(stream) + block) =~= newest(stream + block));
    if stream.len() <= CAPTURE_CAP {
        assert(newest(stream) =~= stream);
    }
}

} // verus!
