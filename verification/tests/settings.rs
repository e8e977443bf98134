use satnogs_monitor::settings::{
    active_station, local_stations, log_filter, read_arguments, settings, Arguments, LogFilter, NoStationError,
    Settings, StationConfig, UiSettings,
};

fn station(satnogs_id: u64, local: bool) -> StationConfig {
    StationConfig { satnogs_id, local }
}

fn configured(stations: Vec<StationConfig>) -> Settings {
    Settings {
        api_endpoint: "https://network.satnogs.org/api/".to_string(),
        log_level: Some(1),
        stations,
        ui: UiSettings { ground_track_num: 3, sat_footprint: true },
        waterfall_zoom: 1.0f32.to_bits(),
    }
}

fn nothing_given() -> Arguments {
    Arguments { api_url: None, local_stations: None, stations: None, orbits: None }
}

#[test]
fn stations_are_listed_once_in_order() {
    let arguments = Arguments {
        local_stations: Some(vec![9, 4, 9]),
        stations: Some(vec![4, 1, 7, 1]),
        ..nothing_given()
    };
    let merged = settings(configured(vec![station(7, true), station(4, false)]), arguments).unwrap();
    assert_eq!(
        merged.stations,
        vec![station(1, false), station(4, true), station(7, true), station(9, true)]
    );
}

#[test]
fn the_first_of_two_configured_entries_counts() {
    let twice = vec![station(5, false), station(2, true), station(5, true)];
    let merged = settings(configured(twice), nothing_given()).unwrap();
    assert_eq!(merged.stations, vec![station(2, true), station(5, false)]);
    let twice = vec![station(5, false), station(5, false)];
    let arguments = Arguments { local_stations: Some(vec![5]), ..nothing_given() };
    let merged = settings(configured(twice), arguments).unwrap();
    assert_eq!(merged.stations, vec![station(5, true)]);
}

#[test]
fn merging_again_changes_nothing() {
    let arguments = || Arguments {
        local_stations: Some(vec![3, 8]),
        stations: Some(vec![6]),
        ..nothing_given()
    };
    let once = settings(configured(vec![station(8, false)]), arguments()).unwrap();
    let list = once.stations.clone();
    let twice = settings(once, arguments()).unwrap();
    assert_eq!(twice.stations, list);
}

#[test]
fn a_station_is_needed() {
    let r = settings(configured(vec![]), nothing_given());
    assert_eq!(r.unwrap_err(), NoStationError);
    let empty = Arguments {
        local_stations: Some(vec![]),
        stations: Some(vec![]),
        orbits: Some(4),
        ..nothing_given()
    };
    assert_eq!(settings(configured(vec![]), empty).unwrap_err(), NoStationError);
    assert_eq!(NoStationError.message(), "No station provided");
}

#[test]
fn other_values_are_replaced_where_they_are_given() {
    let kept = settings(configured(vec![station(1, false)]), nothing_given()).unwrap();
    assert_eq!(kept.api_endpoint, "https://network.satnogs.org/api/");
    assert_eq!(kept.log_level, Some(1));
    assert_eq!(kept.ui, UiSettings { ground_track_num: 3, sat_footprint: true });
    assert_eq!(kept.waterfall_zoom, 1.0f32.to_bits());
    for (orbits, plotted) in [(0u8, 1u8), (1, 1), (2, 2), (255, 255)] {
        let arguments = Arguments {
            api_url: Some("http://localhost/".to_string()),
            orbits: Some(orbits),
            ..nothing_given()
        };
        let s = settings(configured(vec![station(1, false)]), arguments).unwrap();
        assert_eq!(s.api_endpoint, "http://localhost/");
        assert_eq!(s.ui.ground_track_num, plotted);
    }
}

#[test]
fn the_higher_verbosity_counts() {
    assert_eq!(log_filter(0, None), LogFilter::Warn);
    assert_eq!(log_filter(1, None), LogFilter::Info);
    assert_eq!(log_filter(0, Some(1)), LogFilter::Info);
    assert_eq!(log_filter(2, Some(1)), LogFilter::Debug);
    assert_eq!(log_filter(0, Some(3)), LogFilter::Trace);
    assert_eq!(log_filter(u64::MAX, Some(0)), LogFilter::Trace);
}

#[test]
fn local_stations_keep_their_order() {
    let list = vec![station(9, true), station(1, false), station(4, true)];
    assert_eq!(local_stations(&list), vec![9, 4]);
    assert!(local_stations(&vec![station(1, false)]).is_empty());
}

#[test]
fn the_first_station_is_shown() {
    let list = vec![station(0, false), station(3, false), station(5, false)];
    assert_eq!(active_station(0, &list), 3);
    assert_eq!(active_station(8, &list), 8);
    assert_eq!(active_station(0, &vec![station(0, true)]), 0);
    assert_eq!(active_station(0, &vec![]), 0);
}

#[test]
fn a_new_station_is_not_local() {
    assert_eq!(StationConfig::new(12), station(12, false));
}

#[test]
fn arguments_are_read_as_a_whole_or_not_at_all() {
    let texts = |list: &[&str]| -> Option<Vec<String>> {
        Some(list.iter().map(|t| t.to_string()).collect())
    };
    let url = Some("http://localhost/api/".to_string());
    let read = read_arguments(url, texts(&["7", "+3"]), texts(&["1", "x", "2"]), None);
    assert_eq!(read.api_url.unwrap(), "http://localhost/api/");
    assert_eq!(read.local_stations, Some(vec![7, 3]));
    assert_eq!(read.stations, None);
    assert_eq!(read.orbits, None);
    let orbits = |text: &str| read_arguments(None, None, None, Some(text.to_string())).orbits;
    for text in ["0", "1", "255", "0255", "256", "-1", "", "a", "+9"] {
        assert_eq!(orbits(text), text.parse::<u8>().ok());
    }
    let read = read_arguments(None, texts(&[]), texts(&["18446744073709551616"]), None);
    assert_eq!(read.api_url, None);
    assert_eq!(read.local_stations, Some(vec![]));
    assert_eq!(read.stations, None);
}
