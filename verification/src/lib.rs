//! Decision logic of a set of small ESP32-C3 demonstration programs: button
//! driven delay cycling, edge and pulse measurement, debounced presses, LED
//! matrix command frames, a reversible byte scrambler, line input for network
//! credentials, sentence selection, and a ping command's option handling and
//! statistics. The hardware and network access stays with the caller. The
//! few calls into the `debouncr`, `heapless`, `menu` and `embassy-time`
//! crates go through trusted items whose contracts state what the sources of
//! those crates show of each call; everything else is verified.

pub mod cipher;
pub mod cli;
pub mod counter;
pub mod credentials;
pub mod debounce;
pub mod delay;
pub mod device;
pub mod matrix;
pub mod number;
pub mod ping;
pub mod pulse;
pub mod sentences;
