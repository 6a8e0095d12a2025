//! Logic of a 16-pad sampler: loop recording of pad hits, loop playback
//! scheduling, the keyboard layout of the pads and WAV framing of recorded
//! audio.
pub mod clock;
pub mod loop_recorder;
pub mod pads;
pub mod playback;
pub mod wav;
