use satnogs_monitor::event::{Event, Level};
use satnogs_monitor::names::{observation_in, observation_of, read_number, Found};
use satnogs_monitor::samples::{read_word, read_words};
use satnogs_monitor::single::{bits_of_halves, count_halves, is_less, truncate};
use satnogs_monitor::waterfall::{Fault, Ops, Phase, Request, Rest, Source, Turn, Watch};

const CREATE: Ops = Ops { create: true, write: false, close_write: false };
const WRITE: Ops = Ops { create: false, write: true, close_write: false };
const CLOSE: Ops = Ops { create: false, write: false, close_write: true };

fn path(id: u64) -> String {
    format!("/tmp/.satnogs/data/receiving_waterfall_{}_2019-07-02T12-00-00.dat", id)
}

fn bytes(numbers: &[f32]) -> Vec<u8> {
    numbers.iter().flat_map(|n| n.to_le_bytes().to_vec()).collect()
}

fn bits(numbers: &[f32]) -> Vec<u32> {
    numbers.iter().map(|n| n.to_bits()).collect()
}

fn info(text: &str) -> Event {
    Event::Log((Level::Info, text.to_string()))
}

fn created(id: u64) -> Event {
    info(&format!("File created: {}", path(id)))
}

fn data(id: u64) -> Event {
    info(&format!("New waterfall data for observation {}", id))
}

fn closed(id: u64) -> Event {
    info(&format!("Closed waterfall for observation {}", id))
}

fn shown(events: &[Event]) -> Vec<String> {
    events.iter().map(|e| format!("{:?}", e)).collect()
}

/// Answers the requests of `watch` from `file` until it waits for a change, and
/// writes the events down.
fn serve(watch: &mut Watch, first: Turn, file: Option<&[u8]>, at: &mut usize) -> Vec<String> {
    let mut told = Vec::new();
    let mut turn = first;
    loop {
        for event in &turn.events {
            told.push(format!("{:?}", event));
        }
        turn = match watch.request() {
            Request::Change | Request::Halt(_) => return told,
            Request::Open => {
                *at = 0;
                watch.opened(file.is_some())
            }
            Request::Size => watch.measured(file.unwrap().len() as u64),
            Request::Bytes(n) => {
                let from = *at;
                *at += n as usize;
                watch.read(&file.unwrap()[from..*at].to_vec())
            }
        };
    }
}

#[test]
fn numbers_are_read_like_the_standard_ones() {
    let texts = [
        "", "0", "7", "007", "+5", "+", "-1", "12a", " 1", "18446744073709551615",
        "18446744073709551616", "99999999999999999999999", "+18446744073709551615", "١٢", "++1",
    ];
    for text in texts {
        assert_eq!(read_number(text), text.parse::<u64>().ok());
    }
}

#[test]
fn paths_name_their_observation() {
    assert_eq!(observation_in(&path(684_211)), Found::Observation(684_211));
    assert_eq!(observation_in(&path(0)), Found::Observation(0));
    assert_eq!(observation_in(&path(u64::MAX)), Found::Observation(u64::MAX));
    assert_eq!(
        observation_in("/a/receiving_waterfall_1_x.dat/receiving_waterfall_22__.dat"),
        Found::Observation(22)
    );
    assert_eq!(observation_in("/a/receiving_waterfall_31_.dat"), Found::Observation(31));
    assert_eq!(observation_in("/a/old_receiving_waterfall_5_b.dat.gz"), Found::Observation(5));
}

#[test]
fn other_paths_name_none() {
    assert_eq!(observation_in("receiving_waterfall_684211_x.dat"), Found::Nothing);
    assert_eq!(observation_in("/tmp/receiving_waterfall_x_1.dat"), Found::Nothing);
    assert_eq!(observation_in("/tmp/receiving_waterfall_12_1.txt"), Found::Nothing);
    assert_eq!(observation_in("/tmp/waterfall_12_1.dat"), Found::Nothing);
    assert_eq!(observation_in(""), Found::Nothing);
}

#[test]
fn numbers_out_of_range_are_unreadable() {
    let long = "/tmp/receiving_waterfall_18446744073709551616_x.dat";
    assert_eq!(observation_in(long), Found::Unreadable);
    assert_eq!(observation_in("/tmp/receiving_waterfall_١٢_x.dat"), Found::Unreadable);
    assert_eq!(observation_of(None), Found::Nothing);
    assert_eq!(observation_of(Some("12".to_string())), Found::Observation(12));
    assert_eq!(observation_of(Some("x".to_string())), Found::Unreadable);
}

#[test]
fn the_least_significant_byte_comes_first() {
    assert_eq!(read_word(&[1, 2, 3, 4, 5]), 0x0403_0201);
    assert_eq!(read_word(&[0xff, 0, 0, 0x80]), 0x8000_00ff);
    assert_eq!(read_words(&[1, 0, 0, 0, 0, 1, 0, 0, 9]), vec![1, 256]);
    assert!(read_words(&[1, 2, 3]).is_empty());
    let numbers = [0.0f32, -1.5, 3.25e7, f32::NAN];
    assert_eq!(read_words(&bytes(&numbers)), bits(&numbers));
}

fn single_samples() -> Vec<u32> {
    let mut samples: Vec<u32> = (0..60_000u32).map(|i| i.wrapping_mul(71_583)).collect();
    for n in [
        0.0f32, -0.0, 0.5, 0.999_999_94, 1.0, 1.5, 2.0, 1023.99, 1024.0, 16_777_215.0, 16_777_216.0,
        8_388_608.5, 1.0e19, 1.8446742e19, 1.8446744e19, 3.4e38, -1.0, -2.5e9, 10.0, 9.999_999,
        f32::INFINITY, f32::NEG_INFINITY, f32::NAN, f32::MIN_POSITIVE, 1.0e-45,
    ] {
        samples.push(n.to_bits());
        samples.push(n.to_bits().wrapping_add(1));
        samples.push(n.to_bits().wrapping_sub(1));
    }
    samples
}

#[test]
fn numbers_are_cut_like_the_standard_cast() {
    for bits in single_samples() {
        assert_eq!(truncate(bits), f32::from_bits(bits) as u64, "{:#x}", bits);
    }
}

#[test]
fn numbers_are_ordered_like_the_standard_ones() {
    let samples = single_samples();
    for &a in &samples {
        for b in [1.0f32, 10.0, 0.0, -0.0, -3.0, f32::INFINITY, f32::NAN, 1.0e-45] {
            assert_eq!(is_less(a, b.to_bits()), f32::from_bits(a) < b);
            assert_eq!(is_less(b.to_bits(), a), b < f32::from_bits(a));
        }
    }
}

#[test]
fn a_file_is_announced_and_followed() {
    let mut watch = Watch::new();
    assert_eq!(watch.request(), Request::Change);
    let mut at = 0;
    let mut file = bytes(&[2.0, -500.0, 500.0]);
    let turn = watch.noticed(CREATE, Some(&path(42)));
    assert_eq!(watch.request(), Request::Open);
    let told = serve(&mut watch, turn, Some(&file), &mut at);
    let start = Event::WaterfallCreated(42, bits(&[-500.0, 500.0]));
    assert_eq!(told, shown(&[created(42), start]));
    assert_eq!(watch.source, Some(Source { fft_size: 2, position: 12 }));

    // a line and a half
    file.extend(bytes(&[0.5, -90.0, -80.0, 1.0]));
    let turn = watch.noticed(WRITE, Some(&path(42)));
    let told = serve(&mut watch, turn, Some(&file), &mut at);
    let first = Event::WaterfallData(0.5f32.to_bits(), bits(&[-90.0, -80.0]));
    assert_eq!(told, shown(&[data(42), first]));
    assert_eq!(watch.source, Some(Source { fft_size: 2, position: 24 }));

    // the other half and two lines more, and the end
    file.extend(bytes(&[-70.0, -60.0, 1.5, -1.0, -2.0, 2.0, -3.0, -4.0]));
    let turn = watch.noticed(Ops { close_write: true, ..WRITE }, Some(&path(42)));
    let told = serve(&mut watch, turn, Some(&file), &mut at);
    let lines = [
        data(42),
        Event::WaterfallData(1.0f32.to_bits(), bits(&[-70.0, -60.0])),
        Event::WaterfallData(1.5f32.to_bits(), bits(&[-1.0, -2.0])),
        Event::WaterfallData(2.0f32.to_bits(), bits(&[-3.0, -4.0])),
        closed(42),
        Event::WaterfallClosed(42),
    ];
    assert_eq!(told, shown(&lines));
    assert_eq!(at, file.len());
    assert_eq!(watch.request(), Request::Change);
}

#[test]
fn a_start_is_waited_for() {
    let mut watch = Watch::new();
    watch.noticed(CREATE, Some(&path(1)));
    watch.opened(true);
    assert_eq!(watch.request(), Request::Size);
    watch.measured(3);
    assert_eq!(watch.request(), Request::Size);
    watch.measured(4);
    assert_eq!(watch.request(), Request::Bytes(4));
    watch.read(&bytes(&[3.0]));
    assert_eq!(watch.request(), Request::Size);
    watch.measured(15);
    assert_eq!(watch.request(), Request::Size);
    watch.measured(16);
    assert_eq!(watch.request(), Request::Bytes(12));
}

#[test]
fn one_change_can_do_everything() {
    let all = Ops { create: true, write: true, close_write: true };
    let mut watch = Watch::new();
    let mut at = 0;
    let file = bytes(&[1.0, 7.0, 0.25, -9.0]);
    let turn = watch.noticed(all, Some(&path(5)));
    let told = serve(&mut watch, turn, Some(&file), &mut at);
    let expected = [
        created(5),
        Event::WaterfallCreated(5, bits(&[7.0])),
        data(5),
        Event::WaterfallData(0.25f32.to_bits(), bits(&[-9.0])),
        closed(5),
        Event::WaterfallClosed(5),
    ];
    assert_eq!(told, shown(&expected));
}

#[test]
fn changes_of_other_observations_are_not_read() {
    let mut watch = Watch::new();
    let mut at = 0;
    let file = bytes(&[1.0, 7.0, 0.25, -9.0]);
    let turn = watch.noticed(CREATE, Some(&path(5)));
    serve(&mut watch, turn, Some(&file), &mut at);
    let turn = watch.noticed(WRITE, Some(&path(6)));
    let warning = "Waterfall doesn't match last observarion 6 != 5".to_string();
    assert_eq!(shown(&turn.events), shown(&[Event::Log((Level::Warn, warning))]));
    assert_eq!(watch.request(), Request::Change);
    let turn = watch.noticed(CLOSE, Some(&path(6)));
    assert_eq!(shown(&turn.events), shown(&[closed(6), Event::WaterfallClosed(6)]));
    assert_eq!(watch.source, Some(Source { fft_size: 1, position: 8 }));
}

#[test]
fn a_file_that_cannot_be_opened_changes_the_observation_only() {
    let mut watch = Watch::new();
    let mut at = 0;
    let file = bytes(&[1.0, 7.0]);
    let turn = watch.noticed(CREATE, Some(&path(5)));
    serve(&mut watch, turn, Some(&file), &mut at);
    let turn = watch.noticed(CREATE, Some(&path(6)));
    let told = serve(&mut watch, turn, None, &mut at);
    assert_eq!(told, shown(&[created(6)]));
    assert_eq!(watch.observation, 6);
    assert_eq!(watch.source, Some(Source { fft_size: 1, position: 8 }));
}

#[test]
fn writes_before_any_file_are_passed_over() {
    let mut watch = Watch::new();
    assert!(!watch.heeds(WRITE));
    assert!(watch.heeds(CREATE));
    assert!(watch.heeds(CLOSE));
    let turn = watch.noticed(WRITE, Some(&path(5)));
    assert!(turn.events.is_empty());
    let turn = watch.noticed(WRITE, Some("/tmp/receiving_waterfall_99999999999999999999_x.dat"));
    assert!(turn.events.is_empty());
    assert_eq!(watch.request(), Request::Change);
    let turn = watch.noticed(CREATE, None);
    assert!(turn.events.is_empty());
    let turn = watch.noticed(CREATE, Some("/tmp/other.dat"));
    assert_eq!(shown(&turn.events), shown(&[info("File created: /tmp/other.dat")]));
    let turn = watch.noticed(CLOSE, Some("/tmp/other.dat"));
    assert!(turn.events.is_empty());
    assert_eq!(watch, Watch::new());
}

#[test]
fn an_unreadable_number_halts_the_watch() {
    let mut watch = Watch::new();
    watch.changed(CLOSE, Found::Unreadable);
    assert_eq!(watch.request(), Request::Halt(Fault::Unreadable));
}

#[test]
fn an_oversized_line_halts_the_watch() {
    let mut watch = Watch::new();
    watch.changed(CREATE, Found::Observation(1));
    watch.opened(true);
    watch.measured(4);
    watch.read(&bytes(&[f32::INFINITY]));
    assert_eq!(watch.request(), Request::Halt(Fault::Oversized));
}

#[test]
fn a_shrunk_file_halts_the_watch() {
    let rest = Rest { id: 1, write: true, close: false };
    let mut watch = Watch {
        observation: 1,
        source: Some(Source { fft_size: 1, position: 16 }),
        phase: Phase::Measuring(rest),
    };
    watch.measured(15);
    assert_eq!(watch.request(), Request::Halt(Fault::Shrunk));
}

#[test]
fn a_waterfall_without_frequencies_has_lines_of_seconds() {
    let mut watch = Watch::new();
    let mut at = 0;
    let file = bytes(&[-3.0, 0.5, 1.5]);
    let turn = watch.noticed(Ops { write: true, ..CREATE }, Some(&path(5)));
    let told = serve(&mut watch, turn, Some(&file), &mut at);
    let expected = [
        created(5),
        Event::WaterfallCreated(5, vec![]),
        data(5),
        Event::WaterfallData(0.5f32.to_bits(), vec![]),
        Event::WaterfallData(1.5f32.to_bits(), vec![]),
    ];
    assert_eq!(told, shown(&expected));
}

#[test]
fn numbers_of_parts_make_up_the_whole() {
    let whole: Vec<u8> = (0..23).map(|n| n * 11).collect();
    for cut in [0, 4, 8, 12, 16, 20] {
        let mut parts = read_words(&whole[..cut]);
        parts.extend(read_words(&whole[cut..]));
        assert_eq!(parts, read_words(&whole));
    }
}

#[test]
fn the_way_a_file_grows_does_not_matter() {
    let mut file = bytes(&[2.0, -1.0, 1.0]);
    for n in 0..9 {
        file.extend(bytes(&[n as f32, -(n as f32), 0.5]));
    }
    let mut lines = Vec::new();
    for n in 0..9 {
        let samples = bits(&[-(n as f32), 0.5]);
        lines.push(Event::WaterfallData((n as f32).to_bits(), samples));
    }
    for sizes in [vec![120], vec![12, 120], vec![13, 24, 24, 59, 60, 61, 119, 120, 120]] {
        let mut watch = Watch::new();
        let mut at = 0;
        let turn = watch.noticed(CREATE, Some(&path(3)));
        serve(&mut watch, turn, Some(&file[..12]), &mut at);
        let mut told = Vec::new();
        for size in sizes {
            let turn = watch.noticed(WRITE, Some(&path(3)));
            told.extend(serve(&mut watch, turn, Some(&file[..size]), &mut at));
        }
        told.retain(|event| !event.starts_with("Log"));
        assert_eq!(told, shown(&lines));
        assert_eq!(watch.source, Some(Source { fft_size: 2, position: 120 }));
    }
}

#[test]
fn halves_are_the_standard_numbers() {
    for k in 2..=20u32 {
        assert_eq!(f32::from_bits(bits_of_halves(k)), k as f32 / 2.0);
        assert_eq!(count_halves((k as f32 / 2.0).to_bits()), k);
    }
    for n in [0.0f32, 0.5, 1.25, 10.5, -1.0, -5.0, 9.999_999, f32::NAN, f32::INFINITY] {
        assert_eq!(count_halves(n.to_bits()), 0);
    }
}
