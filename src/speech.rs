//! Pacing of text-to-speech messages.
use vstd::prelude::*;

verus! {

/// The shortest pause after a spoken message, in seconds.
pub const MIN_SPEECH_PAUSE: u64 = 5;

/// The longest pause after a spoken message, in seconds.
pub const MAX_SPEECH_PAUSE: u64 = 18;

/// Seven seconds for each whole hundred bytes of text, kept between
/// `MIN_SPEECH_PAUSE` and `MAX_SPEECH_PAUSE`.
pub open spec fn speech_pause(text_len: nat) -> nat {
    let raw = (text_len / 100) * 7;
    if raw < MIN_SPEECH_PAUSE {
        MIN_SPEECH_PAUSE as nat
    } else if raw > MAX_SPEECH_PAUSE {
        MAX_SPEECH_PAUSE as nat
    } else {
        raw
    }
}

/// How long to wait after speaking a text of `text_len` bytes before the
/// next one.
pub fn speech_pause_secs(text_len: usize) -> (r: u64)
    ensures
        r as nat == speech_pause(text_len as nat),
{
    let hundreds = text_len / 100;
    if hundreds >= 3 {
        MAX_SPEECH_PAUSE
    } else {
        let raw = (hundreds * 7) as u64;
        if raw < MIN_SPEECH_PAUSE {
            MIN_SPEECH_PAUSE
        } else {
            raw
        }
    }
}

} // verus!
