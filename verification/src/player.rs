//! The audio output side: playback state, output devices and streams, and
//! the reading of the status codes the audio system returns.
use vstd::prelude::*;
use crate::text::push_char;

verus! {

/// Whether sound is coming out.
#[derive(Debug, Clone, Copy, PartialEq, Eq, Structural)]
pub enum State {
    Playing,
    Paused,
}

/// An audio output device: its display name and its system id.
#[derive(Debug, Clone, PartialEq, Eq)]
pub struct Device {
    pub name: String,
    pub id: String,
}

/// The range of possible block sizes for an audio device.
#[derive(Debug, Clone, Copy, PartialEq, Eq, Structural)]
pub struct BlockSizeRange {
    /// The minimum buffer/block size that can be used (inclusive)
    pub min: u32,
    /// The maximum buffer/block size that can be used (inclusive)
    pub max: u32,
    /// The default buffer/block size for this device
    pub default: u32,
}

/// What an output device supports.
#[derive(Debug)]
pub struct OutputDeviceConfig {
    pub sample_rates: Vec<u32>,
    pub block_sizes: Option<BlockSizeRange>,
    pub num_out_channels: u16,
}

/// The audio buffer size of a stream.
#[derive(Debug, Clone, Copy, PartialEq, Eq, Structural)]
pub enum AudioBufferStreamInfo {
    FixedSized(u32),
    UnfixedWithMaxSize(u32),
}

/// What an open output stream runs with.
#[derive(Debug, Clone)]
pub struct StreamInfo {
    /// The id of the audio device.
    pub id: Device,
    /// If this is `false` then it means the app failed to connect to
    /// the system device and is using "fake/virtual" empty buffers
    /// instead which will only input and output silence.
    pub connected_to_system: bool,
    /// The sample rate of the stream.
    pub sample_rate: u32,
    /// The audio buffer size.
    pub buffer_size: AudioBufferStreamInfo,
    /// The number of audio output channels that will be passed into the
    /// process method.
    pub num_out_channels: u32,
}

/// The lower-case hexadecimal digit of `d`.
pub open spec fn hex_char(d: int) -> char {
    if d < 10 {
        ((48 + d) as u32) as char
    } else {
        ((87 + d) as u32) as char
    }
}

/// The lower-case hexadecimal digits of `n`, without leading zeros ("0"
/// for zero).
pub open spec fn hex(n: nat) -> Seq<char>
    decreases n,
{
    if n < 16 {
        seq![hex_char(n as int)]
    } else {
        hex(n / 16).push(hex_char((n % 16) as int))
    }
}

/// The hexadecimal digit of `d`.
fn hex_digit(d: u32) -> (c: char)
    requires
        d < 16,
    ensures
        c == hex_char(d as int),
{
    if d < 10 {
        ((48 + d) as u8) as char
    } else {
        ((87 + d) as u8) as char
    }
}

/// Append the hexadecimal digits of `n`.
fn push_hex(s: &mut String, n: u32)
    ensures
        final(s)@ == old(s)@ + hex(n as nat),
    decreases n,
{
    if n < 16 {
        push_char(s, hex_digit(n));
        proof {
            assert(old(s)@.push(hex_char(n as int)) =~= old(s)@ + hex(n as nat));
        }
    } else {
        push_hex(s, n / 16);
        push_char(s, hex_digit(n % 16));
        proof {
            assert(old(s)@ + hex((n / 16) as nat) + seq![hex_char((n % 16) as int)] =~= old(s)@ + hex(n as nat));
        }
    }
}

/// The bits of a status code read as an unsigned number.
pub open spec fn code_bits(result: i32) -> nat {
    if result >= 0 {
        result as nat
    } else {
        (result + 0x1_0000_0000) as nat
    }
}

/// A status code of the audio system: 0 is success; any other code is an
/// error, written `0x` and the code's bits in lower-case hexadecimal.
pub fn check(result: i32) -> (r: Result<(), String>)
    ensures
        result == 0 ==> r is Ok,
        result != 0 ==> (r matches Err(m) && m@ == seq!['0', 'x'] + hex(code_bits(result))),
{
    if result != 0 {
        let bits: u32 = if result >= 0 { result as u32 } else { (result as i64 + 0x1_0000_0000i64) as u32 };
        let mut m = String::new();
        push_char(&mut m, '0');
        push_char(&mut m, 'x');
        push_hex(&mut m, bits);
        proof {
            assert(m@ =~= seq!['0', 'x'] + hex(code_bits(result)));
        }
        Err(m)
    } else {
        Ok(())
    }
}

} // verus!
