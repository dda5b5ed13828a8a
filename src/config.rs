//! The supervisor's configuration.
use vstd::prelude::*;
use crate::text::joined;

verus! {

pub struct Config {
    /// The daily restart time, `HH:MM` as written, `HH:MM:SS` once read.
    pub restart_time: String,
    pub global_data_file: String,
    pub server_folder: String,
    pub max_file_size: usize,
    pub max_crash_count: u8,
    pub crash_count_timer_len_in_millis: u64,
}

/// The restart time as the clock shows it, seconds included.
pub fn with_seconds(restart_time: &str) -> (r: String)
    ensures
        r@ == restart_time@ + ":00"@,
{
    joined(restart_time, ":00")
}

impl Config {
    /// The configuration as written, with its restart time brought to the
    /// clock's `HH:MM:SS`.
    pub fn normalized(self) -> (c: Config)
        ensures
            c.restart_time@ == self.restart_time@ + ":00"@,
            c.global_data_file == self.global_data_file,
            c.server_folder == self.server_folder,
            c.max_file_size == self.max_file_size,
            c.max_crash_count == self.max_crash_count,
            c.crash_count_timer_len_in_millis == self.crash_count_timer_len_in_millis,
    {
        let restart_time = with_seconds(self.restart_time.as_str());
        Config { restart_time, ..self }
    }
}

} // verus!
