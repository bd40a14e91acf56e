//! The playback engine of a gapless FLAC player: the track list and its
//! positions, the cells that a control surface reads and writes, the reader's
//! decisions and the output callback, each with a contract that Verus proves.

pub mod callback;
pub mod cells;
pub mod database;
pub mod display;
pub mod files;
pub mod log;
pub mod player;
pub mod queue;
pub mod reader;
pub mod search;
pub mod skip;
pub mod text;
pub mod track;
pub mod track_list;
pub mod volume;
