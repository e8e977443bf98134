//! Promises on the settings and on the log.

use crate::logs::{kept, LogLine};
use crate::settings::{
    filter_of, given, list_view, listed, local_ids, marked_local, merges, numbers, plotted_orbits,
    read_list, read_orbits, settled, shown_first, verbosity, Arguments, LogFilter, NoStationError,
    Settings, StationConfig,
};
use vstd::prelude::*;

verus! {

/// Whether `stations` has a local entry for `id`.
pub open spec fn local_somewhere(stations: Seq<StationConfig>, id: u64) -> bool {
    exists|i: int|
        0 <= i < stations.len() && (#[trigger] stations[i]).satnogs_id == id && stations[i].local
}

/// Whether `stations` has an entry for `id`.
pub open spec fn somewhere(stations: Seq<StationConfig>, id: u64) -> bool {
    exists|i: int| 0 <= i < stations.len() && (#[trigger] stations[i]).satnogs_id == id
}

/// Merged stations are ordered by their ids, and no id occurs twice.
pub proof fn law_merged_are_ordered(
    merged: Seq<StationConfig>,
    configured: Seq<StationConfig>,
    locals: Seq<u64>,
    others: Seq<u64>,
    i: int,
    j: int,
)
    requires
        merges(merged, configured, locals, others),
        0 <= i < j < merged.len(),
    ensures
        merged[i].satnogs_id < merged[j].satnogs_id,
{
}

/// No station is lost in a merge and none comes from nowhere: those that are
/// configured or were given are there, and only those.
pub proof fn law_no_station_is_lost(
    merged: Seq<StationConfig>,
    configured: Seq<StationConfig>,
    locals: Seq<u64>,
    others: Seq<u64>,
    id: u64,
)
    requires
        merges(merged, configured, locals, others),
    ensures
        somewhere(merged, id) <==> somewhere(configured, id) || locals.contains(id)
            || others.contains(id),
{
    assert(listed(merged, id) <==> somewhere(merged, id)) by {
        if somewhere(merged, id) {
            let i = choose|i: int|
                0 <= i < merged.len() && (#[trigger] merged[i]).satnogs_id == id;
            assert(merged[i].satnogs_id == id);
        }
    }
    assert(listed(configured, id) <==> somewhere(configured, id)) by {
        if somewhere(configured, id) {
            let i = choose|i: int|
                0 <= i < configured.len() && (#[trigger] configured[i]).satnogs_id == id;
            assert(configured[i].satnogs_id == id);
        }
    }
}

/// A station is local after a merge if it was given as one, whatever is
/// configured; given as another it does not become or stop being local. A
/// configured one stays local if its only entry says so, and none is local that
/// neither was given nor is configured so.
pub proof fn law_local_stations_after_a_merge(
    merged: Seq<StationConfig>,
    configured: Seq<StationConfig>,
    locals: Seq<u64>,
    others: Seq<u64>,
    id: u64,
    i: int,
)
    requires
        merges(merged, configured, locals, others),
    ensures
        locals.contains(id) ==> local_somewhere(merged, id),
        local_somewhere(merged, id) ==> locals.contains(id) || local_somewhere(configured, id),
        0 <= i < configured.len() && configured[i].satnogs_id == id && configured[i].local && (
        forall|j: int|
            0 <= j < i ==> (#[trigger] configured[j]).satnogs_id != id) ==> local_somewhere(
            merged,
            id,
        ),
        0 <= i < configured.len() && configured[i].satnogs_id == id && !configured[i].local && (
        forall|j: int| 0 <= j < i ==> (#[trigger] configured[j]).satnogs_id != id)
            && !locals.contains(id) ==> !local_somewhere(merged, id),
{
    law_no_station_is_lost(merged, configured, locals, others, id);
    if somewhere(merged, id) {
        let k = choose|k: int| 0 <= k < merged.len() && (#[trigger] merged[k]).satnogs_id == id;
        assert(merged[k].satnogs_id == id);
        assert(local_somewhere(merged, id) <==> merged[k].local) by {
            if local_somewhere(merged, id) {
                let l = choose|l: int|
                    0 <= l < merged.len() && (#[trigger] merged[l]).satnogs_id == id
                        && merged[l].local;
                if l < k {
                    assert(merged[l].satnogs_id < merged[k].satnogs_id);
                } else if k < l {
                    assert(merged[k].satnogs_id < merged[l].satnogs_id);
                }
            }
        }
        if marked_local(configured, id) {
            let f = choose|f: int| crate::settings::first_marked(configured, id, f);
            assert(configured[f].satnogs_id == id && configured[f].local);
            if 0 <= i < configured.len() && configured[i].satnogs_id == id && (forall|j: int|
                0 <= j < i ==> (#[trigger] configured[j]).satnogs_id != id) {
                if f < i {
                    assert(configured[f].satnogs_id != id);
                } else if i < f {
                    assert(configured[i].satnogs_id != id);
                }
            }
        }
        if 0 <= i < configured.len() && configured[i].satnogs_id == id && configured[i].local && (
        forall|j: int| 0 <= j < i ==> (#[trigger] configured[j]).satnogs_id != id) {
            assert(crate::settings::first_marked(configured, id, i));
        }
    } else {
        if local_somewhere(merged, id) {
            let l = choose|l: int|
                0 <= l < merged.len() && (#[trigger] merged[l]).satnogs_id == id
                    && merged[l].local;
            assert(merged[l].satnogs_id == id);
        }
        if 0 <= i < configured.len() && configured[i].satnogs_id == id {
            assert(somewhere(configured, id));
        }
    }
}

/// At least one orbit is plotted if a number is given, and that number if it is
/// one; otherwise it stays as it is configured.
pub proof fn law_plotted_orbits(orbits: Option<u8>, configured: u8)
    ensures
        orbits is None ==> plotted_orbits(orbits, configured) == configured,
        orbits matches Some(n) ==> plotted_orbits(orbits, configured) >= 1 && (n >= 1
            ==> plotted_orbits(orbits, configured) == n) && (n == 0 ==> plotted_orbits(
            orbits,
            configured,
        ) == 1),
{
}

/// The verbosity is the larger of what is given and what is configured, and each
/// step of it lets one kind of message more through, up to all.
pub proof fn law_verbosity(level: u64, configured: Option<u64>)
    ensures
        verbosity(level, configured) >= level,
        configured matches Some(c) ==> verbosity(level, configured) >= c && (verbosity(
            level,
            configured,
        ) == level || verbosity(level, configured) == c),
        configured is None ==> verbosity(level, configured) == level,
        filter_of(level) == LogFilter::Warn <==> level == 0,
        filter_of(level) == LogFilter::Info <==> level == 1,
        filter_of(level) == LogFilter::Debug <==> level == 2,
        filter_of(level) == LogFilter::Trace <==> level >= 3,
{
}

/// The local stations are those marked as local and no others, in their order.
pub proof fn law_local_ids(stations: Seq<StationConfig>, station: StationConfig)
    ensures
        local_ids(Seq::<StationConfig>::empty()).len() == 0,
        station.local ==> local_ids(stations.push(station)) == local_ids(stations).push(
            station.satnogs_id,
        ),
        !station.local ==> local_ids(stations.push(station)) == local_ids(stations),
{
    reveal(Seq::filter);
    let longer = stations.push(station);
    assert(longer.drop_last() =~= stations);
    assert(longer.last() == station);
    assert(station.local ==> local_ids(longer) =~= local_ids(stations).push(station.satnogs_id));
    assert(!station.local ==> local_ids(longer) =~= local_ids(stations));
}

/// A station that is shown stays; otherwise it is the first with an id other than
/// zero, if there is one.
pub proof fn law_shown_first(shown: u64, current: u64, stations: Seq<StationConfig>, i: int)
    requires
        shown_first(shown, current, stations),
    ensures
        current != 0 ==> shown == current,
        current == 0 && 0 <= i < stations.len() && stations[i].satnogs_id != 0 && (forall|j: int|
            0 <= j < i ==> (#[trigger] stations[j]).satnogs_id == 0) ==> shown
            == stations[i].satnogs_id,
        current == 0 && (forall|j: int|
            0 <= j < stations.len() ==> (#[trigger] stations[j]).satnogs_id == 0) ==> shown == 0,
{
    if current == 0 && shown != 0 {
        let f = choose|f: int| crate::settings::first_nonzero(shown, stations, f);
        assert(stations[f].satnogs_id == shown);
        if 0 <= i < f {
            assert(stations[i].satnogs_id == 0);
        }
    }
}

/// A list of texts is read as the numbers that they write, each in its place, and
/// not at all if one of them writes none.
pub proof fn law_numbers_are_read_together(texts: Seq<String>, i: int)
    requires
        0 <= i < texts.len(),
    ensures
        crate::names::number(texts[i]@) is None ==> numbers(texts) is None,
        numbers(texts) matches Some(list) ==> list.len() == texts.len()
            && crate::names::number(texts[i]@) == Some(list[i]),
        (forall|j: int|
            0 <= j < texts.len() ==> crate::names::number((#[trigger] texts[j])@) is Some)
            ==> numbers(texts) is Some,
        numbers(Seq::<String>::empty()) == Some(Seq::<u64>::empty()),
{
    assert(numbers(Seq::<String>::empty())->0 =~= Seq::<u64>::empty());
}

/// A missing list gives no ids, and another gives its own.
pub proof fn law_given(list: Vec<u64>)
    ensures
        given(None).len() == 0,
        given(Some(list)) == list@,
        list_view(Some(list)) == Some(list@),
        list_view(None) is None,
{
}

/// There are settings exactly if some station is configured or was given. What was
/// given counts before what is configured, and what cannot be given stays.
pub proof fn law_settled(
    configured: Settings,
    arguments: Arguments,
    r: Result<Settings, NoStationError>,
)
    requires
        settled(configured, arguments, r),
    ensures
        r is Ok <==> configured.stations@.len() > 0 || (arguments.local_stations matches Some(list)
            && list@.len() > 0) || (arguments.stations matches Some(list) && list@.len() > 0),
        r matches Ok(s) ==> {
            &&& arguments.api_url matches Some(url) ==> s.api_endpoint@ == url@
            &&& arguments.api_url is None ==> s.api_endpoint@ == configured.api_endpoint@
            &&& arguments.orbits matches Some(n) ==> s.ui.ground_track_num == (if n == 0 {
                1
            } else {
                n
            })
            &&& arguments.orbits is None ==> s.ui.ground_track_num
                == configured.ui.ground_track_num
            &&& s.ui.sat_footprint == configured.ui.sat_footprint
            &&& s.log_level == configured.log_level
            &&& s.waterfall_zoom == configured.waterfall_zoom
            &&& merges(
                s.stations@,
                configured.stations@,
                given(arguments.local_stations),
                given(arguments.stations),
            )
            &&& s.stations@.len() > 0
        },
{
    if let Ok(s) = r {
        let locals = given(arguments.local_stations);
        let others = given(arguments.stations);
        if configured.stations@.len() > 0 {
            let id = configured.stations@[0].satnogs_id;
            assert(somewhere(configured.stations@, id));
            law_no_station_is_lost(s.stations@, configured.stations@, locals, others, id);
        } else if locals.len() > 0 {
            assert(locals.contains(locals[0]));
            law_no_station_is_lost(s.stations@, configured.stations@, locals, others, locals[0]);
        } else {
            assert(others.contains(others[0]));
            law_no_station_is_lost(s.stations@, configured.stations@, locals, others, others[0]);
        }
    }
}

/// A missing text is not read, a list is read as its numbers, and a number of
/// orbits if it is one and at most 255.
pub proof fn law_read_arguments(texts: Vec<String>, text: String)
    ensures
        read_list(None) is None,
        read_list(Some(texts)) == numbers(texts@),
        read_orbits(None) is None,
        crate::names::number(text@) is None ==> read_orbits(Some(text)) is None,
        crate::names::number(text@) matches Some(n) ==> (n > 255 ==> read_orbits(Some(text)) is None)
            && (n <= 255 ==> (read_orbits(Some(text)) matches Some(orbits) && orbits == n)),
{
}

/// Of messages that are more than fit, the latest stay, as many as fit and in
/// their order; others all stay.
pub proof fn law_kept(lines: Seq<LogLine>, n: nat, i: int)
    ensures
        lines.len() <= n ==> kept(lines, n) == lines,
        lines.len() > n ==> kept(lines, n).len() == n,
        0 <= i < kept(lines, n).len() ==> kept(lines, n)[i] == lines[lines.len() - kept(
            lines,
            n,
        ).len() + i],
{
}

} // verus!
