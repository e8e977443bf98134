//! The settings of the monitor: what a configuration and the command line
//! arguments amount to together.

use crate::names::read_number;
use vstd::prelude::*;

verus! {

/// A monitored station.
#[derive(Clone, Copy, Debug, PartialEq, Eq, Structural)]
pub struct StationConfig {
    /// The station's id in the SatNOGS network.
    pub satnogs_id: u64,
    /// Whether the station runs on the same machine as the monitor.
    pub local: bool,
}

impl StationConfig {
    /// A station on some other machine.
    pub fn new(satnogs_id: u64) -> (r: StationConfig)
        ensures
            r == (StationConfig { satnogs_id, local: false }),
    {
        StationConfig { satnogs_id, local: false }
    }
}

/// The settings of the map.
#[derive(Clone, Copy, Debug, PartialEq, Eq, Structural)]
pub struct UiSettings {
    /// How many orbits the map shows.
    pub ground_track_num: u8,
    /// Whether the map shows the footprint of the satellite.
    pub sat_footprint: bool,
}

/// The settings of the monitor.
#[derive(Debug)]
pub struct Settings {
    /// The url of the network api.
    pub api_endpoint: String,
    /// The configured verbosity.
    pub log_level: Option<u64>,
    /// The monitored stations.
    pub stations: Vec<StationConfig>,
    pub ui: UiSettings,
    /// The zoom of the spectrum, as the bits of a single precision number.
    pub waterfall_zoom: u32,
}

/// What the command line asks for. A value that was not given, or that could
/// not be read, is `None`.
#[derive(Debug)]
pub struct Arguments {
    pub api_url: Option<String>,
    pub local_stations: Option<Vec<u64>>,
    pub stations: Option<Vec<u64>>,
    pub orbits: Option<u8>,
}

/// The numbers that `texts` write, if each of them writes one.
pub open spec fn numbers(texts: Seq<String>) -> Option<Seq<u64>> {
    if forall|i: int| 0 <= i < texts.len() ==> crate::names::number((#[trigger] texts[i])@) is Some {
        Some(texts.map_values(|text: String| crate::names::number(text@)->0))
    } else {
        None
    }
}

/// The numbers of a list that may be missing.
pub open spec fn list_view(list: Option<Vec<u64>>) -> Option<Seq<u64>> {
    match list {
        Some(v) => Some(v@),
        None => None,
    }
}

/// Reads a list of numbers. A list with anything else in it is not read at all.
fn read_numbers(texts: &Vec<String>) -> (r: Option<Vec<u64>>)
    ensures
        list_view(r) == numbers(texts@),
{
    let mut r: Vec<u64> = Vec::new();
    let mut i: usize = 0;
    while i < texts.len()
        invariant
            i <= texts@.len(),
            r@.len() == i,
            forall|j: int|
                0 <= j < i ==> crate::names::number((#[trigger] texts@[j])@) == Some(r@[j]),
        decreases texts@.len() - i,
    {
        match read_number(texts[i].as_str()) {
            Some(n) => {
                r.push(n);
            },
            None => {
                assert(crate::names::number(texts@[i as int]@) is None);
                return None;
            },
        }
        i = i + 1;
    }
    assert(r@ =~= texts@.map_values(|text: String| crate::names::number(text@)->0));
    Some(r)
}

/// The numbers of a list of texts that may be missing.
pub open spec fn read_list(texts: Option<Vec<String>>) -> Option<Seq<u64>> {
    match texts {
        Some(texts) => numbers(texts@),
        None => None,
    }
}

/// The number of orbits that a text writes, if it fits.
pub open spec fn read_orbits(text: Option<String>) -> Option<u8> {
    match text {
        Some(text) => match crate::names::number(text@) {
            Some(n) => if n <= u8::MAX {
                Some(n as u8)
            } else {
                None
            },
            None => None,
        },
        None => None,
    }
}

/// Reads what was given on the command line, in the words of it: the api url,
/// the ids of local and of other stations, and the number of orbits.
pub fn read_arguments(
    api_url: Option<String>,
    local_stations: Option<Vec<String>>,
    stations: Option<Vec<String>>,
    orbits: Option<String>,
) -> (r: Arguments)
    ensures
        r.api_url == api_url,
        list_view(r.local_stations) == read_list(local_stations),
        list_view(r.stations) == read_list(stations),
        r.orbits == read_orbits(orbits),
{
    let local_stations = match &local_stations {
        Some(texts) => read_numbers(texts),
        None => None,
    };
    let stations = match &stations {
        Some(texts) => read_numbers(texts),
        None => None,
    };
    let orbits: Option<u8> = match &orbits {
        Some(text) => match read_number(text.as_str()) {
            Some(n) => if n <= u8::MAX as u64 {
                Some(n as u8)
            } else {
                None
            },
            None => None,
        },
        None => None,
    };
    Arguments { api_url, local_stations, stations, orbits }
}

/// No station is configured and none was given.
#[derive(Clone, Copy, Debug, PartialEq, Eq, Structural)]
pub struct NoStationError;

impl NoStationError {
    /// The text of the error.
    pub fn message(&self) -> (r: String)
        ensures
            r@ == "No station provided"@,
    {
        "No station provided".to_owned()
    }
}

/// The least severe messages that are logged.
#[derive(Clone, Copy, Debug, PartialEq, Eq, Structural)]
pub enum LogFilter {
    Warn,
    Info,
    Debug,
    Trace,
}

/// The verbosity in force: what was given or what is configured, whichever asks
/// for more.
pub open spec fn verbosity(given: u64, configured: Option<u64>) -> u64 {
    match configured {
        Some(level) => if level > given {
            level
        } else {
            given
        },
        None => given,
    }
}

/// The filter of a verbosity: warnings at first, and one kind more each step.
pub open spec fn filter_of(level: u64) -> LogFilter {
    if level == 0 {
        LogFilter::Warn
    } else if level == 1 {
        LogFilter::Info
    } else if level == 2 {
        LogFilter::Debug
    } else {
        LogFilter::Trace
    }
}

/// The filter for `given` occurrences of the verbosity flag over the
/// `configured` level.
pub fn log_filter(given: u64, configured: Option<u64>) -> (r: LogFilter)
    ensures
        r == filter_of(verbosity(given, configured)),
{
    let floor: u64 = match configured {
        Some(level) => level,
        None => 0,
    };
    let level: u64 = if floor > given {
        floor
    } else {
        given
    };
    match level {
        0 => LogFilter::Warn,
        1 => LogFilter::Info,
        2 => LogFilter::Debug,
        _ => LogFilter::Trace,
    }
}

/// Whether `stations` has an entry for `id`.
pub open spec fn listed(stations: Seq<StationConfig>, id: u64) -> bool {
    exists|i: int| 0 <= i < stations.len() && (#[trigger] stations[i]).satnogs_id == id
}

/// Whether the first entry for `id` in `stations` says that it is local.
pub open spec fn marked_local(stations: Seq<StationConfig>, id: u64) -> bool {
    exists|i: int| first_marked(stations, id, i)
}

/// `stations[i]` is the first entry for `id`, and local.
pub open spec fn first_marked(stations: Seq<StationConfig>, id: u64, i: int) -> bool {
    &&& 0 <= i < stations.len()
    &&& stations[i].satnogs_id == id
    &&& stations[i].local
    &&& forall|j: int| 0 <= j < i ==> (#[trigger] stations[j]).satnogs_id != id
}

/// The ids stand in ascending order, each once.
pub open spec fn one_each(stations: Seq<StationConfig>) -> bool {
    forall|i: int, j: int|
        0 <= i < j < stations.len() ==> (#[trigger] stations[i]).satnogs_id < (
        #[trigger] stations[j]).satnogs_id
}

/// The ids of a list that may be missing.
pub open spec fn given(ids: Option<Vec<u64>>) -> Seq<u64> {
    match ids {
        Some(v) => v@,
        None => Seq::empty(),
    }
}

/// `merged` has, once each, the stations of `configured` and those that were
/// given, and says of each whether it is local: as it was given, or as it is
/// configured.
pub open spec fn merges(
    merged: Seq<StationConfig>,
    configured: Seq<StationConfig>,
    locals: Seq<u64>,
    others: Seq<u64>,
) -> bool {
    &&& one_each(merged)
    &&& forall|id: u64| #[trigger]
        listed(merged, id) <==> (listed(configured, id) || locals.contains(id) || others.contains(
            id,
        ))
    &&& forall|i: int|
        0 <= i < merged.len() ==> ((#[trigger] merged[i]).local <==> (locals.contains(
            merged[i].satnogs_id,
        ) || marked_local(configured, merged[i].satnogs_id)))
}

proof fn lemma_push(s: Seq<StationConfig>, e: StationConfig, id: u64)
    ensures
        listed(s.push(e), id) <==> (listed(s, id) || e.satnogs_id == id),
        marked_local(s.push(e), id) <==> (marked_local(s, id) || (!listed(s, id) && e.satnogs_id
            == id && e.local)),
{
    let t = s.push(e);
    if listed(s, id) {
        let i = choose|i: int| 0 <= i < s.len() && (#[trigger] s[i]).satnogs_id == id;
        assert(t[i] == s[i]);
    }
    if e.satnogs_id == id {
        assert(t[s.len() as int].satnogs_id == id);
    }
    if marked_local(s, id) {
        let i = choose|i: int| first_marked(s, id, i);
        assert forall|j: int| 0 <= j < i implies (#[trigger] t[j]).satnogs_id != id by {
            assert(t[j] == s[j]);
        }
        assert(first_marked(t, id, i));
    }
    if !listed(s, id) && e.satnogs_id == id && e.local {
        let i = s.len() as int;
        assert forall|j: int| 0 <= j < i implies (#[trigger] t[j]).satnogs_id != id by {
            assert(t[j] == s[j]);
        }
        assert(first_marked(t, id, i));
    }
    if marked_local(t, id) && !marked_local(s, id) {
        let i = choose|i: int| first_marked(t, id, i);
        if i < s.len() {
            assert forall|j: int| 0 <= j < i implies (#[trigger] s[j]).satnogs_id != id by {
                assert(t[j] == s[j]);
            }
            assert(first_marked(s, id, i));
        }
        assert(i == s.len());
        if listed(s, id) {
            let j = choose|j: int| 0 <= j < s.len() && (#[trigger] s[j]).satnogs_id == id;
            assert(t[j] == s[j]);
        }
    }
}

proof fn lemma_mark(s: Seq<StationConfig>, k: int, id: u64)
    requires
        0 <= k < s.len(),
        forall|j: int| 0 <= j < k ==> (#[trigger] s[j]).satnogs_id != s[k].satnogs_id,
    ensures
        ({
            let t = s.update(k, StationConfig { local: true, ..s[k] });
            &&& listed(t, id) <==> listed(s, id)
            &&& marked_local(t, id) <==> (marked_local(s, id) || s[k].satnogs_id == id)
        }),
{
    let t = s.update(k, StationConfig { local: true, ..s[k] });
    assert forall|j: int| 0 <= j < s.len() implies (#[trigger] t[j]).satnogs_id
        == s[j].satnogs_id by {}
    if listed(s, id) {
        let i = choose|i: int| 0 <= i < s.len() && (#[trigger] s[i]).satnogs_id == id;
        assert(t[i].satnogs_id == id);
    }
    if listed(t, id) {
        let i = choose|i: int| 0 <= i < t.len() && (#[trigger] t[i]).satnogs_id == id;
        assert(s[i].satnogs_id == id);
    }
    if s[k].satnogs_id == id {
        assert(first_marked(t, id, k));
    }
    if marked_local(s, id) {
        let i = choose|i: int| first_marked(s, id, i);
        assert(first_marked(t, id, i));
    }
    if marked_local(t, id) && s[k].satnogs_id != id {
        let i = choose|i: int| first_marked(t, id, i);
        assert forall|j: int| 0 <= j < i implies (#[trigger] s[j]).satnogs_id != id by {
            assert(t[j].satnogs_id != id);
        }
        assert(first_marked(s, id, i));
    }
}

/// The first entry for `id`, if there is one.
fn find_station(stations: &Vec<StationConfig>, id: u64) -> (r: Option<usize>)
    ensures
        match r {
            Some(k) => {
                &&& k < stations.len()
                &&& stations[k as int].satnogs_id == id
                &&& forall|j: int| 0 <= j < k ==> (#[trigger] stations@[j]).satnogs_id != id
            },
            None => !listed(stations@, id),
        },
{
    let mut k: usize = 0;
    while k < stations.len()
        invariant
            k <= stations.len(),
            forall|j: int| 0 <= j < k ==> (#[trigger] stations@[j]).satnogs_id != id,
        decreases stations.len() - k,
    {
        if stations[k].satnogs_id == id {
            return Some(k);
        }
        k = k + 1;
    }
    None
}

/// Adds a local station. An entry that is there already only becomes local.
fn add_local_station(stations: &mut Vec<StationConfig>, id: u64)
    ensures
        forall|x: u64| #[trigger]
            listed(final(stations)@, x) <==> (listed(old(stations)@, x) || x == id),
        forall|x: u64| #[trigger]
            marked_local(final(stations)@, x) <==> (marked_local(old(stations)@, x) || x == id),
{
    let ghost before = stations@;
    match find_station(stations, id) {
        Some(k) => {
            stations.set(k, StationConfig { satnogs_id: id, local: true });
            proof {
                let entry = StationConfig { local: true, ..before[k as int] };
                assert(stations@ =~= before.update(k as int, entry));
                assert(listed(before, id));
                assert forall|x: u64| #[trigger] listed(stations@, x) <==> listed(before, x) by {
                    lemma_mark(before, k as int, x);
                }
                assert forall|x: u64| #[trigger]
                    marked_local(stations@, x) <==> (marked_local(before, x) || x == id) by {
                    lemma_mark(before, k as int, x);
                }
            }
        },
        None => {
            let mut entry = StationConfig::new(id);
            entry.local = true;
            stations.push(entry);
            proof {
                assert forall|x: u64| #[trigger]
                    listed(stations@, x) <==> (listed(before, x) || x == id) by {
                    lemma_push(before, entry, x);
                }
                assert forall|x: u64| #[trigger]
                    marked_local(stations@, x) <==> (marked_local(before, x) || x == id) by {
                    lemma_push(before, entry, x);
                }
            }
        },
    }
}

/// Adds a station that is not there yet.
fn add_station(stations: &mut Vec<StationConfig>, id: u64)
    ensures
        forall|x: u64| #[trigger]
            listed(final(stations)@, x) <==> (listed(old(stations)@, x) || x == id),
        forall|x: u64| #[trigger]
            marked_local(final(stations)@, x) <==> marked_local(old(stations)@, x),
{
    let ghost before = stations@;
    if find_station(stations, id).is_none() {
        let entry = StationConfig::new(id);
        stations.push(entry);
        proof {
            assert forall|x: u64| #[trigger]
                listed(stations@, x) <==> (listed(before, x) || x == id) by {
                lemma_push(before, entry, x);
            }
            assert forall|x: u64| #[trigger]
                marked_local(stations@, x) <==> marked_local(before, x) by {
                lemma_push(before, entry, x);
            }
        }
    } else {
        assert(listed(before, id));
    }
}

/// Adds the local stations `ids`.
fn add_local_stations(stations: &mut Vec<StationConfig>, ids: &Vec<u64>)
    ensures
        forall|id: u64| #[trigger]
            listed(final(stations)@, id) <==> (listed(old(stations)@, id) || ids@.contains(id)),
        forall|id: u64| #[trigger]
            marked_local(final(stations)@, id) <==> (marked_local(old(stations)@, id)
                || ids@.contains(id)),
{
    let mut n: usize = 0;
    assert(ids@.take(0) =~= Seq::<u64>::empty());
    while n < ids.len()
        invariant
            n <= ids.len(),
            forall|id: u64| #[trigger]
                listed(stations@, id) <==> (listed(old(stations)@, id) || ids@.take(
                    n as int,
                ).contains(id)),
            forall|id: u64| #[trigger]
                marked_local(stations@, id) <==> (marked_local(old(stations)@, id) || ids@.take(
                    n as int,
                ).contains(id)),
        decreases ids.len() - n,
    {
        proof {
            lemma_take_contains(ids@, n as int);
        }
        add_local_station(stations, ids[n]);
        n = n + 1;
    }
    assert(ids@.take(n as int) =~= ids@);
}

/// Adds the stations `ids` that are not there yet.
fn add_stations(stations: &mut Vec<StationConfig>, ids: &Vec<u64>)
    ensures
        forall|id: u64| #[trigger]
            listed(final(stations)@, id) <==> (listed(old(stations)@, id) || ids@.contains(id)),
        forall|id: u64| #[trigger]
            marked_local(final(stations)@, id) <==> marked_local(old(stations)@, id),
{
    let mut n: usize = 0;
    assert(ids@.take(0) =~= Seq::<u64>::empty());
    while n < ids.len()
        invariant
            n <= ids.len(),
            forall|id: u64| #[trigger]
                listed(stations@, id) <==> (listed(old(stations)@, id) || ids@.take(
                    n as int,
                ).contains(id)),
            forall|id: u64| #[trigger]
                marked_local(stations@, id) <==> marked_local(old(stations)@, id),
        decreases ids.len() - n,
    {
        proof {
            lemma_take_contains(ids@, n as int);
        }
        add_station(stations, ids[n]);
        n = n + 1;
    }
    assert(ids@.take(n as int) =~= ids@);
}

/// Sorts `stations` by id and keeps the first entry of each.
fn one_entry_each(stations: &Vec<StationConfig>) -> (r: Vec<StationConfig>)
    ensures
        one_each(r@),
        forall|id: u64| #[trigger] listed(r@, id) <==> listed(stations@, id),
        forall|i: int|
            0 <= i < r.len() ==> ((#[trigger] r@[i]).local <==> marked_local(
                stations@,
                r@[i].satnogs_id,
            )),
{
    let mut r: Vec<StationConfig> = Vec::new();
    let mut n: usize = 0;
    while n < stations.len()
        invariant
            n <= stations.len(),
            one_each(r@),
            forall|id: u64| #[trigger]
                listed(r@, id) <==> listed(stations@.take(n as int), id),
            forall|i: int|
                0 <= i < r.len() ==> ((#[trigger] r@[i]).local <==> marked_local(
                    stations@.take(n as int),
                    r@[i].satnogs_id,
                )),
        decreases stations.len() - n,
    {
        let entry = stations[n];
        let ghost seen = stations@.take(n as int);
        let ghost before = r@;
        assert(stations@.take(n + 1) =~= seen.push(entry));
        let mut k: usize = 0;
        while k < r.len() && r[k].satnogs_id < entry.satnogs_id
            invariant
                k <= r.len(),
                forall|j: int| 0 <= j < k ==> (#[trigger] r@[j]).satnogs_id < entry.satnogs_id,
            decreases r.len() - k,
        {
            k = k + 1;
        }
        if k < r.len() && r[k].satnogs_id == entry.satnogs_id {
            assert(listed(r@, entry.satnogs_id));
        } else {
            r.insert(k, entry);
            proof {
                lemma_inserted(before, k as int, entry);
            }
        }
        proof {
            assert forall|id: u64| #[trigger]
                listed(r@, id) <==> listed(stations@.take(n + 1), id) by {
                lemma_push(seen, entry, id);
                assert(listed(before, id) <==> listed(seen, id));
            }
            assert forall|i: int| 0 <= i < r.len() implies ((#[trigger] r@[i]).local
                <==> marked_local(stations@.take(n + 1), r@[i].satnogs_id)) by {
                let id = r@[i].satnogs_id;
                lemma_push(seen, entry, id);
                assert(listed(before, id) <==> listed(seen, id));
                if r@ != before {
                    if i < k {
                        assert(r@[i] == before[i]);
                    } else if i > k {
                        assert(r@[i] == before[i - 1]);
                    } else {
                        assert(!marked_local(seen, id)) by {
                            if marked_local(seen, id) {
                                let f = choose|f: int| first_marked(seen, id, f);
                                assert(seen[f].satnogs_id == id);
                            }
                        }
                    }
                } else {
                    assert(r@[i] == before[i]);
                    assert(listed(before, id));
                }
            }
        }
        n = n + 1;
    }
    assert(stations@.take(n as int) =~= stations@);
    r
}

proof fn lemma_inserted(s: Seq<StationConfig>, k: int, e: StationConfig)
    requires
        one_each(s),
        0 <= k <= s.len(),
        forall|j: int| 0 <= j < k ==> (#[trigger] s[j]).satnogs_id < e.satnogs_id,
        k < s.len() ==> s[k].satnogs_id > e.satnogs_id,
    ensures
        one_each(s.insert(k, e)),
        !listed(s, e.satnogs_id),
        s.insert(k, e) != s,
        forall|id: u64| #[trigger]
            listed(s.insert(k, e), id) <==> (listed(s, id) || e.satnogs_id == id),
{
    let t = s.insert(k, e);
    assert(t.len() != s.len());
    assert forall|j: int| k <= j < s.len() implies (#[trigger] s[j]).satnogs_id > e.satnogs_id by {
        if j > k {
            assert(s[k].satnogs_id < s[j].satnogs_id);
        }
    }
    assert forall|id: u64| #[trigger]
        listed(t, id) <==> (listed(s, id) || e.satnogs_id == id) by {
        if listed(s, id) {
            let i = choose|i: int| 0 <= i < s.len() && (#[trigger] s[i]).satnogs_id == id;
            if i < k {
                assert(t[i] == s[i]);
            } else {
                assert(t[i + 1] == s[i]);
            }
        }
        if e.satnogs_id == id {
            assert(t[k] == e);
        }
        if listed(t, id) {
            let i = choose|i: int| 0 <= i < t.len() && (#[trigger] t[i]).satnogs_id == id;
            if i < k {
                assert(t[i] == s[i]);
            } else if i > k {
                assert(t[i] == s[i - 1]);
            }
        }
    }
}

/// The orbits to plot: what was given, but at least one, or what is configured.
pub open spec fn plotted_orbits(orbits: Option<u8>, configured: u8) -> u8 {
    match orbits {
        Some(n) => if n > 1 {
            n
        } else {
            1
        },
        None => configured,
    }
}

/// `r` is what a configuration and the arguments amount to: an error if there is
/// no station, or else the merged stations, and each other value as it was given
/// or is configured.
pub open spec fn settled(
    configured: Settings,
    arguments: Arguments,
    r: Result<Settings, NoStationError>,
) -> bool {
    &&& r is Err <==> (configured.stations@.len() == 0 && given(arguments.local_stations).len()
        == 0 && given(arguments.stations).len() == 0)
    &&& r matches Ok(s) ==> {
        &&& merges(
            s.stations@,
            configured.stations@,
            given(arguments.local_stations),
            given(arguments.stations),
        )
        &&& s.api_endpoint@ == (match arguments.api_url {
            Some(url) => url@,
            None => configured.api_endpoint@,
        })
        &&& s.log_level == configured.log_level
        &&& s.ui.ground_track_num == plotted_orbits(
            arguments.orbits,
            configured.ui.ground_track_num,
        )
        &&& s.ui.sat_footprint == configured.ui.sat_footprint
        &&& s.waterfall_zoom == configured.waterfall_zoom
    }
}

/// Merges the arguments into the configuration.
pub fn settings(configured: Settings, arguments: Arguments) -> (r: Result<
    Settings,
    NoStationError,
>)
    ensures
        settled(configured, arguments, r),
{
    let mut settings = configured;
    if let Some(url) = arguments.api_url {
        settings.api_endpoint = url;
    }
    let mut stations = settings.stations;
    if let Some(ids) = &arguments.local_stations {
        add_local_stations(&mut stations, ids);
    }
    let ghost with_locals = stations@;
    if let Some(ids) = &arguments.stations {
        add_stations(&mut stations, ids);
    }
    proof {
        let locals = given(arguments.local_stations);
        let others = given(arguments.stations);
        if stations@.len() > 0 {
            assert(listed(stations@, stations@[0].satnogs_id));
        }
        if configured.stations@.len() > 0 {
            let id = configured.stations@[0].satnogs_id;
            assert(listed(configured.stations@, id));
            assert(listed(with_locals, id));
            assert(listed(stations@, id));
        }
        if locals.len() > 0 {
            assert(locals.contains(locals[0]));
            assert(listed(with_locals, locals[0]));
            assert(listed(stations@, locals[0]));
        }
        if others.len() > 0 {
            assert(others.contains(others[0]));
            assert(listed(stations@, others[0]));
        }
    }
    if stations.is_empty() {
        return Err(NoStationError);
    }
    settings.stations = one_entry_each(&stations);
    if let Some(orbits) = arguments.orbits {
        settings.ui.ground_track_num = if orbits > 1 {
            orbits
        } else {
            1
        };
    }
    Ok(settings)
}

/// The ids of the local stations among `stations`, in their order.
pub open spec fn local_ids(stations: Seq<StationConfig>) -> Seq<u64> {
    stations.filter(|sc: StationConfig| sc.local).map_values(|sc: StationConfig| sc.satnogs_id)
}

/// The ids of the stations on this machine.
pub fn local_stations(stations: &Vec<StationConfig>) -> (r: Vec<u64>)
    ensures
        r@ == local_ids(stations@),
{
    let mut r: Vec<u64> = Vec::new();
    let mut n: usize = 0;
    proof {
        reveal(Seq::filter);
        assert(stations@.take(0) =~= Seq::<StationConfig>::empty());
        assert(r@ =~= local_ids(stations@.take(0)));
    }
    while n < stations.len()
        invariant
            n <= stations.len(),
            r@ == local_ids(stations@.take(n as int)),
        decreases stations.len() - n,
    {
        if stations[n].local {
            r.push(stations[n].satnogs_id);
        }
        proof {
            reveal(Seq::filter);
            let longer = stations@.take(n + 1);
            assert(longer.drop_last() =~= stations@.take(n as int));
            assert(longer.last() == stations@[n as int]);
            assert(r@ =~= local_ids(longer));
        }
        n = n + 1;
    }
    assert(stations@.take(n as int) =~= stations@);
    r
}

/// `shown` is `current` if that is a station, or else the first of `stations`
/// with an id other than zero. Zero stands for no station.
pub open spec fn shown_first(shown: u64, current: u64, stations: Seq<StationConfig>) -> bool {
    if current != 0 {
        shown == current
    } else if shown == 0 {
        forall|i: int| 0 <= i < stations.len() ==> (#[trigger] stations[i]).satnogs_id == 0
    } else {
        exists|i: int| first_nonzero(shown, stations, i)
    }
}

/// `stations[i]` is the first with an id other than zero, and has the id `id`.
pub open spec fn first_nonzero(id: u64, stations: Seq<StationConfig>, i: int) -> bool {
    &&& 0 <= i < stations.len()
    &&& stations[i].satnogs_id == id
    &&& id != 0
    &&& forall|j: int| 0 <= j < i ==> (#[trigger] stations[j]).satnogs_id == 0
}

/// Picks the station to show first.
pub fn active_station(current: u64, stations: &Vec<StationConfig>) -> (r: u64)
    ensures
        shown_first(r, current, stations@),
{
    let mut active: u64 = current;
    let mut n: usize = 0;
    while n < stations.len()
        invariant
            n <= stations.len(),
            shown_first(active, current, stations@.take(n as int)),
        decreases stations.len() - n,
    {
        let ghost before = stations@.take(n as int);
        let ghost after = stations@.take(n + 1);
        assert(after =~= before.push(stations@[n as int]));
        if active == 0 {
            active = stations[n].satnogs_id;
            proof {
                assert forall|j: int| 0 <= j < n implies (#[trigger] after[j]).satnogs_id == 0 by {
                    assert(before[j].satnogs_id == 0);
                }
                if active != 0 {
                    assert(first_nonzero(active, after, n as int));
                }
            }
        } else if current == 0 {
            proof {
                let i = choose|i: int| first_nonzero(active, before, i);
                assert forall|j: int| 0 <= j < i implies (#[trigger] after[j]).satnogs_id == 0 by {
                    assert(before[j].satnogs_id == 0);
                }
                assert(first_nonzero(active, after, i));
            }
        }
        n = n + 1;
    }
    assert(stations@.take(n as int) =~= stations@);
    active
}

/// A configuration and the arguments allow one merged list only.
pub proof fn law_merge_is_determined(
    a: Seq<StationConfig>,
    b: Seq<StationConfig>,
    configured: Seq<StationConfig>,
    locals: Seq<u64>,
    others: Seq<u64>,
)
    requires
        merges(a, configured, locals, others),
        merges(b, configured, locals, others),
    ensures
        a == b,
{
    assert forall|id: u64| #[trigger] listed(a, id) <==> listed(b, id) by {
        assert(listed(b, id) <==> (listed(configured, id) || locals.contains(id)
            || others.contains(id)));
    }
    lemma_same_ids(a, b);
    assert(a =~= b);
}

/// Two ascending lists of the same ids agree in each place.
proof fn lemma_same_ids(a: Seq<StationConfig>, b: Seq<StationConfig>)
    requires
        one_each(a),
        one_each(b),
        forall|id: u64| #[trigger] listed(a, id) <==> listed(b, id),
    ensures
        a.len() == b.len(),
        forall|i: int| 0 <= i < a.len() ==> (#[trigger] a[i]).satnogs_id == b[i].satnogs_id,
    decreases a.len(),
{
    if a.len() == 0 {
        if b.len() > 0 {
            assert(listed(b, b[0].satnogs_id));
            assert(listed(a, b[0].satnogs_id));
        }
    } else {
        assert(listed(a, a.last().satnogs_id));
        assert(listed(b, a.last().satnogs_id));
        assert(b.len() > 0);
        assert(listed(b, b.last().satnogs_id));
        assert(listed(a, b.last().satnogs_id));
        let i = choose|i: int|
            0 <= i < b.len() && (#[trigger] b[i]).satnogs_id == a.last().satnogs_id;
        let j = choose|j: int|
            0 <= j < a.len() && (#[trigger] a[j]).satnogs_id == b.last().satnogs_id;
        assert(a.last() == a[a.len() - 1]);
        assert(b.last() == b[b.len() - 1]);
        assert(a.last().satnogs_id == b.last().satnogs_id);
        let c = a.drop_last();
        let d = b.drop_last();
        assert forall|id: u64| #[trigger] listed(c, id) <==> listed(d, id) by {
            lemma_push(c, a.last(), id);
            lemma_push(d, b.last(), id);
            assert(c.push(a.last()) =~= a);
            assert(d.push(b.last()) =~= b);
            assert(listed(a, id) <==> listed(b, id));
            if listed(c, id) {
                let k = choose|k: int| 0 <= k < c.len() && (#[trigger] c[k]).satnogs_id == id;
                assert(a[k].satnogs_id < a[a.len() - 1].satnogs_id);
            }
            if listed(d, id) {
                let k = choose|k: int| 0 <= k < d.len() && (#[trigger] d[k]).satnogs_id == id;
                assert(b[k].satnogs_id < b[b.len() - 1].satnogs_id);
            }
        }
        lemma_same_ids(c, d);
        assert forall|k: int| 0 <= k < a.len() implies (#[trigger] a[k]).satnogs_id
            == b[k].satnogs_id by {
            if k < a.len() - 1 {
                assert(c[k].satnogs_id == d[k].satnogs_id);
            }
        }
    }
}

/// Merging the same arguments into an already merged list changes nothing.
pub proof fn law_merge_is_idempotent(
    merged: Seq<StationConfig>,
    configured: Seq<StationConfig>,
    locals: Seq<u64>,
    others: Seq<u64>,
)
    requires
        merges(merged, configured, locals, others),
    ensures
        merges(merged, merged, locals, others),
{
    assert forall|i: int| 0 <= i < merged.len() implies ((#[trigger] merged[i]).local <==> (
    locals.contains(merged[i].satnogs_id) || marked_local(merged, merged[i].satnogs_id))) by {
        let id = merged[i].satnogs_id;
        if merged[i].local {
            assert(first_marked(merged, id, i));
        }
        if marked_local(merged, id) {
            let k = choose|k: int| first_marked(merged, id, k);
            assert(k == i);
        }
    }
}

proof fn lemma_take_contains(ids: Seq<u64>, n: int)
    requires
        0 <= n < ids.len(),
    ensures
        forall|x: u64| #[trigger]
            ids.take(n + 1).contains(x) <==> (ids.take(n).contains(x) || x == ids[n]),
{
    assert(ids.take(n + 1) =~= ids.take(n).push(ids[n]));
    assert forall|x: u64| #[trigger]
        ids.take(n + 1).contains(x) <==> (ids.take(n).contains(x) || x == ids[n]) by {
        let t = ids.take(n + 1);
        if ids.take(n).contains(x) {
            let i = choose|i: int| 0 <= i < n && ids.take(n)[i] == x;
            assert(t[i] == x);
        }
        if x == ids[n] {
            assert(t[n] == x);
        }
        if t.contains(x) && x != ids[n] {
            let i = choose|i: int| 0 <= i < t.len() && t[i] == x;
            assert(ids.take(n)[i] == x);
        }
    }
}

} // verus!
