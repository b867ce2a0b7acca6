//! The output side: when the device is opened and when its failure ends the
//! player, and what the audio callback plays next.

use crate::audio::{AudioFormat, Sample};
use vstd::prelude::*;

verus! {

/// The value of a 24-bit sample at full scale; the callback divides by it.
pub const FULL_SCALE: i32 = 8_388_607;

/// Buffers that may wait between the playback driver and the callback.
pub const CHANNEL_CAPACITY: usize = 10;

/// The place of the callback in the buffer that it plays.
#[derive(Debug)]
pub struct OutputCursor {
    current: Option<Vec<Sample>>,
    pos: usize,
}

impl View for OutputCursor {
    type V = Seq<Sample>;

    /// The samples of the buffer in hand that are still to play.
    closed spec fn view(&self) -> Seq<Sample> {
        match self.current {
            Some(buffer) => if self.pos <= buffer@.len() {
                buffer@.skip(self.pos as int)
            } else {
                Seq::empty()
            },
            None => Seq::empty(),
        }
    }
}

impl OutputCursor {
    /// A cursor that holds no buffer.
    pub fn new() -> (cursor: Self)
        ensures
            cursor@ == Seq::<Sample>::empty(),
    {
        OutputCursor { current: None, pos: 0 }
    }

    /// Whether the callback has to pull a buffer before the next sample:
    /// it holds none, or has played the one it holds to its end.
    pub fn wants_buffer(&self) -> (wants: bool)
        ensures
            wants == (self@.len() == 0),
    {
        match &self.current {
            Some(buffer) => self.pos >= buffer.len(),
            None => true,
        }
    }

    /// Takes a buffer in hand; what was left of the one before is given up.
    pub fn install(&mut self, buffer: Vec<Sample>)
        ensures
            final(self)@ == buffer@,
    {
        let ghost samples = buffer@;
        self.current = Some(buffer);
        self.pos = 0;
        assert(samples.skip(0) =~= samples);
    }

    /// The next sample to play, or `None` for silence where no sample is
    /// left. Silence changes nothing.
    pub fn next_sample(&mut self) -> (sample: Option<Sample>)
        ensures
            match sample {
                Some(s) => old(self)@.len() > 0 && s == old(self)@[0] && final(self)@ == old(
                    self,
                )@.skip(1),
                None => old(self)@.len() == 0 && final(self)@ == old(self)@,
            },
    {
        let found: Option<Sample> = match &self.current {
            Some(buffer) => if self.pos < buffer.len() {
                Some(buffer[self.pos])
            } else {
                None
            },
            None => None,
        };
        if found.is_some() {
            proof {
                let buffer = self.current->Some_0@;
                assert(buffer.skip(self.pos as int).skip(1) =~= buffer.skip(self.pos as int + 1));
            }
            self.pos = self.pos + 1;
        }
        found
    }
}

impl Default for OutputCursor {
    fn default() -> (cursor: Self)
        ensures
            cursor@ == Seq::<Sample>::empty(),
    {
        OutputCursor::new()
    }
}

/// A buffer taken in hand plays from its first sample to its last, and
/// then there is silence: after `k` samples the `k`-th is next.
pub proof fn lemma_plays_in_order(buffer: Seq<Sample>, k: int)
    requires
        0 <= k < buffer.len(),
    ensures
        buffer.skip(k).len() > 0,
        buffer.skip(k)[0] == buffer[k],
        buffer.skip(k).skip(1) == buffer.skip(k + 1),
        buffer.skip(buffer.len() as int).len() == 0,
{
    assert(buffer.skip(k).skip(1) =~= buffer.skip(k + 1));
}

/// What the playback driver does with a buffer that is due.
#[derive(Debug, Clone, Copy, PartialEq, Eq, Structural)]
pub enum OutputStep {
    /// Open the device for this format, then write the buffer.
    Open(AudioFormat),
    /// Write the buffer to the device that is open.
    Write,
}

/// What the playback driver knows of the device.
#[derive(Debug, Clone, Copy, PartialEq, Eq, Structural)]
pub struct OutputGuard {
    /// Format that the device is open for, if it is open.
    pub open_format: Option<AudioFormat>,
    /// Whether a buffer has been written to a device.
    pub played: bool,
}

impl OutputGuard {
    /// A guard over no device.
    pub fn new() -> (guard: Self)
        ensures
            guard == (OutputGuard { open_format: None, played: false }),
    {
        OutputGuard { open_format: None, played: false }
    }

    /// What to do with a buffer of a given format: the device is opened for
    /// the first buffer and again whenever the format changes.
    pub fn before_buffer(&self, format: AudioFormat) -> (step: OutputStep)
        ensures
            step == if self.open_format == Some(format) {
                OutputStep::Write
            } else {
                OutputStep::Open(format)
            },
    {
        match self.open_format {
            Some(open) => if open.codec == format.codec && open.sample_rate == format.sample_rate
                && open.channels == format.channels && open.bit_depth == format.bit_depth {
                OutputStep::Write
            } else {
                OutputStep::Open(format)
            },
            None => OutputStep::Open(format),
        }
    }

    /// The device was opened for a format.
    pub fn opened(&mut self, format: AudioFormat)
        ensures
            *final(self) == (OutputGuard { open_format: Some(format), played: old(self).played }),
    {
        self.open_format = Some(format);
    }

    /// The device could not be opened. Returns whether that ends the player:
    /// it does once a buffer has been played; before that the buffer is
    /// given up and the device is tried again with the next one.
    pub fn open_failed(&mut self) -> (fatal: bool)
        ensures
            fatal == old(self).played,
            *final(self) == (OutputGuard { open_format: None, played: old(self).played }),
    {
        self.open_format = None;
        self.played
    }

    /// A buffer was written to the device.
    pub fn written(&mut self)
        ensures
            *final(self) == (OutputGuard { open_format: old(self).open_format, played: true }),
    {
        self.played = true;
    }
}

impl Default for OutputGuard {
    fn default() -> (guard: Self)
        ensures
            guard == (OutputGuard { open_format: None, played: false }),
    {
        OutputGuard::new()
    }
}

} // verus!
