//! Decoding of DMX sound lumps: unsigned 8-bit mono samples.
use vstd::prelude::*;

verus! {

/// Sample rate of the sound effects.
pub const DMX_SAMPLE_RATE: u32 = 11025;

/// The signed 16-bit sample for the unsigned 8-bit sample `b`: centred on 128
/// and scaled by 256.
pub open spec fn dmx_sample(b: u8) -> i16 {
    ((b as int - 128) * 256) as i16
}

/// A stream of samples read one by one out of a sound lump.
pub struct DmxDecoder {
    data: Vec<u8>,
    pos: usize,
    sample_rate: u32,
}

impl DmxDecoder {
    /// The lump's bytes.
    pub closed spec fn spec_data(&self) -> Seq<u8> {
        self.data@
    }

    /// How many samples have been read.
    pub closed spec fn spec_pos(&self) -> int {
        self.pos as int
    }

    pub closed spec fn spec_sample_rate(&self) -> u32 {
        self.sample_rate
    }

    pub fn new(data: Vec<u8>, sample_rate: u32) -> (r: DmxDecoder)
        ensures
            r.spec_data() == data@,
            r.spec_pos() == 0,
            r.spec_sample_rate() == sample_rate,
    {
        DmxDecoder { data, pos: 0, sample_rate }
    }

    /// The next sample, or `None` once the data is used up.
    pub fn next_sample(&mut self) -> (r: Option<i16>)
        ensures
            final(self).spec_data() == old(self).spec_data(),
            final(self).spec_sample_rate() == old(self).spec_sample_rate(),
            old(self).spec_pos() < old(self).spec_data().len() ==> {
                &&& r == Some(dmx_sample(old(self).spec_data()[old(self).spec_pos()]))
                &&& final(self).spec_pos() == old(self).spec_pos() + 1
            },
            old(self).spec_pos() >= old(self).spec_data().len() ==> {
                &&& r is None
                &&& final(self).spec_pos() == old(self).spec_pos()
            },
    {
        if self.pos >= self.data.len() {
            return None;
        }
        let b = self.data[self.pos];
        self.pos = self.pos + 1;
        Some(((b as i16) - 128) * 256)
    }

    /// The sounds are mono.
    pub fn channels(&self) -> (r: u16)
        ensures
            r == 1,
    {
        1
    }

    pub fn sample_rate(&self) -> (r: u32)
        ensures
            r == self.spec_sample_rate(),
    {
        self.sample_rate
    }
}

} // verus!
