//! What is known of a station and its jobs. Measured values are held as text,
//! already rounded to the places that the views show.

use crate::time::Timestamp;
use vstd::prelude::*;

verus! {

/// The state of a station in the network.
#[derive(Clone, Copy, Debug, PartialEq, Eq, Structural)]
pub enum StationStatus {
    Online,
    Offline,
    Testing,
}

/// Measurements of the machine that a station runs on.
#[derive(Clone, Debug)]
pub struct SysInfo {
    /// The load of the processor in percent, to one place.
    pub cpu_load: Option<String>,
    /// The temperature of the processor in degrees Celsius, to one place.
    pub cpu_temp: Option<String>,
    /// The memory in use in percent, to one place.
    pub mem: Option<String>,
    /// The seconds since the machine was started.
    pub uptime: Option<u64>,
}

/// Where a satellite is as seen from the station.
#[derive(Clone, Debug)]
pub struct Sat {
    /// The number of the orbit.
    pub orbit_nr: i64,
    /// Degrees, to three places.
    pub lat_deg: String,
    /// Degrees, to three places.
    pub lon_deg: String,
    /// Kilometres, to three places.
    pub alt_km: String,
    /// Kilometres per second, to three places.
    pub vel_km_s: String,
    /// Kilometres, to three places.
    pub range_km: String,
    /// Kilometres per second, to three places.
    pub range_rate_km_sec: String,
}

/// An observation that a station has to make.
#[derive(Clone, Debug)]
pub struct Job {
    pub id: u64,
    pub vessel_name: String,
    pub start: Timestamp,
    pub end: Timestamp,
    pub mode: String,
    /// Megahertz, to three places.
    pub frequency_mhz: String,
    /// Degrees, to three places.
    pub rise_azimuth: String,
    /// Degrees, to three places.
    pub max_altitude: String,
    /// Degrees, to three places.
    pub set_azimuth: String,
    pub sat: Sat,
    /// How many points the plotted ground track has.
    pub ground_track_len: usize,
    /// How many points the track of the pass across the sky has.
    pub polar_track_len: usize,
}

impl Job {
    /// Both ends lie within the calendar.
    pub open spec fn wf(self) -> bool {
        self.start.wf() && self.end.wf()
    }
}

/// A station with its jobs, the next one first.
#[derive(Clone, Debug)]
pub struct Station {
    pub status: StationStatus,
    pub sys_info: SysInfo,
    pub jobs: Vec<Job>,
}

impl Station {
    /// The jobs' times lie within the calendar.
    pub open spec fn wf(self) -> bool {
        forall|i: int| 0 <= i < self.jobs@.len() ==> (#[trigger] self.jobs@[i]).wf()
    }

    /// Whether the jobs' times lie within the calendar.
    pub fn valid(&self) -> (r: bool)
        ensures
            r == self.wf(),
    {
        let mut i: usize = 0;
        while i < self.jobs.len()
            invariant
                i <= self.jobs@.len(),
                forall|j: int| 0 <= j < i ==> (#[trigger] self.jobs@[j]).wf(),
            decreases self.jobs@.len() - i,
        {
            if !self.jobs[i].start.valid() || !self.jobs[i].end.valid() {
                assert(!self.jobs@[i as int].wf());
                return false;
            }
            i = i + 1;
        }
        true
    }
}

} // verus!
