use vstd::prelude::*;

verus! {

/// A rewindable source of bytes. Trial parsing must never corrupt the
/// stream for a later attempt, so every attempt works on a fresh,
/// independently readable view of the same underlying content. The host
/// buffers a file or standard input once and hands the content over; from
/// then on each `get` replays the same bytes from the start.
pub struct MultipleReader {
    bytes: Vec<u8>,
}

impl View for MultipleReader {
    type V = Seq<u8>;

    closed spec fn view(&self) -> Seq<u8> {
        self.bytes@
    }
}

impl MultipleReader {
    /// Buffer the given content; all later views replay it.
    pub fn from_bytes(bytes: Vec<u8>) -> (r: MultipleReader)
        ensures
            r@ == bytes@,
    {
        MultipleReader { bytes }
    }

    /// A fresh view of the whole content, reading from the start.
    pub fn get(&self) -> (r: &[u8])
        ensures
            r@ == self@,
    {
        self.bytes.as_slice()
    }
}

} // verus!
