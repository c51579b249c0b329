//! The diagnostic channel: a secondary output sink, independent of the
//! console surface, whose byte stream the host machine can capture even when
//! the display cannot be seen. It is the canonical channel for automated
//! test reports and fault diagnostics.
//!
//! The channel records the exact text handed to the transmitter, in order;
//! transmission blocks until every byte is out and never reports an error,
//! matching bare transceiver semantics. The physical port lives outside the
//! library and replays this stream.

use vstd::prelude::*;
use vstd::string::StringExecFns;

verus! {

/// A serial output sink: everything ever transmitted, in order.
pub struct SerialChannel {
    transmitted: String,
}

impl View for SerialChannel {
    type V = Seq<char>;

    closed spec fn view(&self) -> Seq<char> {
        self.transmitted@
    }
}

impl SerialChannel {
    /// Opens the channel; nothing has been transmitted yet.
    pub fn new() -> (r: SerialChannel)
        ensures
            r@ == Seq::<char>::empty(),
    {
        SerialChannel { transmitted: String::new() }
    }

    /// Transmits every character of the string, in order, after everything
    /// sent before. There is no error return: the call always succeeds.
    pub fn write_str(&mut self, s: &str)
        ensures
            final(self)@ == old(self)@ + s@,
    {
        self.transmitted.append(s);
    }

    /// The full text transmitted so far.
    pub fn transcript(&self) -> (r: &str)
        ensures
            r@ == self@,
    {
        self.transmitted.as_str()
    }
}

/// Formatted diagnostics funnel here once rendered to text: the whole string
/// goes out the channel and the call always succeeds.
pub fn _print(channel: &mut SerialChannel, s: &str)
    ensures
        final(channel)@ == old(channel)@ + s@,
{
    channel.write_str(s);
}

} // verus!
