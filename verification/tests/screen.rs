use mtr::address::Ipv4Address;
use mtr::application::MtrApplication;
use mtr::clock::CivilTime;
use mtr::display::{column_titles, column_widths, StatisticCell};
use mtr::double::Double;
use mtr::event::{DnsResolvedEvent, NetworkEvent};
use mtr::layout::{frame_areas, Extent, ScreenArea};
use mtr::input::{
    key_wait_ns, refresh_is_due, CliArgs, KeyCommand, KeyStroke, REFRESH_INTERVAL_NS,
};

fn double(value: f64) -> Double {
    Double { bits: value.to_bits() }
}

fn value(double: Double) -> f64 {
    f64::from_bits(double.bits)
}

fn update(mean: Double, m2: Double, latency: Double, count: u32) -> (Double, Double) {
    let delta = value(latency) - value(mean);
    let new_mean = value(mean) + delta / f64::from(count);
    (double(new_mean), double(value(m2) + delta * (value(latency) - new_mean)))
}

fn percentage(lost: u32, sent: u32) -> Double {
    double(f64::from(lost) / f64::from(sent) * 100.0)
}

fn deviation(m2: Double, freedom: u32) -> Double {
    double((value(m2) / f64::from(freedom)).sqrt())
}

fn one_decimal(double: Double) -> String {
    format!("{:.1}", value(double))
}

fn time(year: i32, month: u32, day: u32, hour: u32, minute: u32, second: u32) -> CivilTime {
    CivilTime { year, month, day, hour, minute, second }
}

fn area(x: u16, y: u16, width: u16, height: u16) -> ScreenArea {
    ScreenArea { x, y, width, height }
}

fn screen() -> ScreenArea {
    area(0, 0, 80, 24)
}

fn router(last: u8) -> Ipv4Address {
    Ipv4Address::new(10, 0, 0, last)
}

fn application() -> MtrApplication {
    let mut application =
        MtrApplication::new(String::from("baidu.com"), Ipv4Address::new(39, 156, 66, 10), false);
    let answer = |ttl, latency| NetworkEvent::EchoProbeResult {
        ttl,
        latency_ms: Some(double(latency)),
        reached_target: false,
    };
    let lost = |ttl| NetworkEvent::EchoProbeResult {
        ttl,
        latency_ms: None,
        reached_target: false,
    };
    let events = vec![
        NetworkEvent::RouteHopDiscovered { ttl: 1, ip_address: router(1) },
        answer(1, 2.0),
        answer(1, 4.0),
        lost(1),
        answer(1, 6.0),
        lost(2),
        NetworkEvent::RouteHopDiscovered { ttl: 3, ip_address: router(3) },
        answer(3, 1.25),
        NetworkEvent::RouteHopDiscovered { ttl: 12, ip_address: router(12) },
    ];
    let answers = vec![
        DnsResolvedEvent { original_ip: router(1), resolved_hostname: String::from("gw.lan") },
        DnsResolvedEvent { original_ip: router(3), resolved_hostname: String::from("10.0.0.3") },
    ];
    application.dispatch_incoming_events(events, answers, &update);
    application
}

#[test]
fn times_are_written_out() {
    assert_eq!(time(2024, 3, 1, 8, 5, 9).to_text(), Some(String::from("2024-03-01 08:05:09")));
    assert_eq!(time(1999, 12, 31, 23, 59, 59).to_text(), Some(String::from("1999-12-31 23:59:59")));
    assert_eq!(time(7, 1, 2, 0, 0, 0).to_text(), Some(String::from("0007-01-02 00:00:00")));
    assert_eq!(time(0, 2, 29, 1, 2, 3).to_text(), Some(String::from("0000-02-29 01:02:03")));
}

#[test]
fn years_out_of_the_ordinary_have_a_sign() {
    assert_eq!(time(9999, 1, 1, 0, 0, 0).to_text(), Some(String::from("9999-01-01 00:00:00")));
    assert_eq!(time(10000, 1, 1, 0, 0, 0).to_text(), Some(String::from("+10000-01-01 00:00:00")));
    assert_eq!(time(-1, 1, 1, 0, 0, 0).to_text(), Some(String::from("-0001-01-01 00:00:00")));
    assert_eq!(time(-12345, 1, 1, 0, 0, 0).to_text(), Some(String::from("-12345-01-01 00:00:00")));
    assert_eq!(
        time(262142, 12, 31, 23, 59, 59).to_text(),
        Some(String::from("+262142-12-31 23:59:59"))
    );
    assert_eq!(
        time(-262143, 1, 1, 0, 0, 0).to_text(),
        Some(String::from("-262143-01-01 00:00:00"))
    );
}

#[test]
fn times_that_do_not_exist_are_not_written() {
    let missing = [
        time(2023, 2, 29, 0, 0, 0),
        time(1900, 2, 29, 0, 0, 0),
        time(2024, 4, 31, 0, 0, 0),
        time(2024, 0, 1, 0, 0, 0),
        time(2024, 13, 1, 0, 0, 0),
        time(2024, 1, 0, 0, 0, 0),
        time(2024, 1, 32, 0, 0, 0),
        time(2024, 1, 1, 24, 0, 0),
        time(2024, 1, 1, 0, 60, 0),
        time(2024, 1, 1, 0, 0, 60),
        time(262143, 1, 1, 0, 0, 0),
        time(-262144, 12, 31, 0, 0, 0),
    ];
    for moment in missing {
        assert_eq!(moment.to_text(), None, "{:?}", moment);
    }
    assert!(time(2000, 2, 29, 0, 0, 0).to_text().is_some());
}

#[test]
fn the_header_tells_target_and_time() {
    let header = application().render_header(time(2024, 3, 1, 8, 5, 9)).unwrap();
    assert_eq!(header.title, " My Traceroute (mtr) to baidu.com (39.156.66.10)");
    assert_eq!(header.time, "2024-03-01 08:05:09");
    assert!(application().render_header(time(2023, 2, 29, 0, 0, 0)).is_none());
}

#[test]
fn the_guide_tells_of_a_pause() {
    let mut application = application();
    let guide = application.render_guide();
    assert_eq!(guide.text, " Keys: [p] pause/resume   [r] restart statistics   [q] quit");
    assert!(!guide.highlighted);
    application.toggle_pause();
    let guide = application.render_guide();
    assert_eq!(guide.text, " Keys: [p] pause/resume [PAUSED]   [r] restart statistics   [q] quit");
    assert!(guide.highlighted);
}

#[test]
fn the_table_has_a_row_for_each_hop() {
    let rows = application().render_statistics_table(&percentage, &deviation);
    let hosts: Vec<&str> = rows.iter().map(|row| row.host.as_str()).collect();
    assert_eq!(hosts, vec!["1. 10.0.0.1 (gw.lan)", "2. ???", "3. 10.0.0.3", "12. 10.0.0.12"]);
}

#[test]
fn a_row_shows_the_statistics_of_its_hop() {
    let rows = application().render_statistics_table(&percentage, &deviation);
    let first = &rows[0];
    assert_eq!(first.loss, StatisticCell::Percentage { value: double(25.0) });
    assert_eq!(first.sent, StatisticCell::Count { count: 4 });
    assert_eq!(first.last, StatisticCell::Milliseconds { value: double(6.0) });
    assert_eq!(first.average, StatisticCell::Milliseconds { value: double(4.0) });
    assert_eq!(first.best, StatisticCell::Milliseconds { value: double(2.0) });
    assert_eq!(first.worst, StatisticCell::Milliseconds { value: double(6.0) });
    assert_eq!(first.deviation, StatisticCell::Milliseconds { value: double(2.0) });
    let third = &rows[2];
    assert_eq!(third.average, StatisticCell::Milliseconds { value: double(1.25) });
    assert_eq!(third.deviation, StatisticCell::Dash);
}

#[test]
fn a_silent_hop_shows_dashes() {
    let rows = application().render_statistics_table(&percentage, &deviation);
    let silent = &rows[1];
    for cell in [
        silent.loss, silent.sent, silent.last, silent.average, silent.best, silent.worst,
        silent.deviation,
    ] {
        assert_eq!(cell, StatisticCell::Dash);
    }
    let unprobed = &rows[3];
    assert_eq!(unprobed.loss, StatisticCell::Percentage { value: double(0.0) });
    assert_eq!(unprobed.sent, StatisticCell::Count { count: 0 });
    assert_eq!(unprobed.last, StatisticCell::Dash);
}

#[test]
fn a_restart_clears_the_rows() {
    let mut application = application();
    application.reset_all_statistics();
    let rows = application.render_statistics_table(&percentage, &deviation);
    let first = &rows[0];
    assert_eq!(first.host, "1. 10.0.0.1 (gw.lan)");
    assert_eq!(first.loss, StatisticCell::Percentage { value: double(0.0) });
    assert_eq!(first.sent, StatisticCell::Count { count: 0 });
    for cell in [first.last, first.average, first.best, first.worst, first.deviation] {
        assert_eq!(cell, StatisticCell::Dash);
    }
}

#[test]
fn cells_are_written_out() {
    assert_eq!(StatisticCell::Dash.to_text(&one_decimal), "-");
    assert_eq!(StatisticCell::Count { count: 120 }.to_text(&one_decimal), "120");
    assert_eq!(
        StatisticCell::Percentage { value: double(33.333) }.to_text(&one_decimal),
        "33.3%"
    );
    assert_eq!(
        StatisticCell::Milliseconds { value: double(12.75) }.to_text(&one_decimal),
        "12.8"
    );
}

#[test]
fn a_frame_holds_all_parts() {
    let frame = application()
        .render_frame(screen(), time(2024, 3, 1, 8, 5, 9), &percentage, &deviation)
        .unwrap();
    assert_eq!(frame.areas, frame_areas(screen()));
    assert_eq!(frame.header.time, "2024-03-01 08:05:09");
    assert!(!frame.guide.highlighted);
    assert_eq!(frame.rows.len(), 4);
    let never =
        application().render_frame(screen(), time(2024, 1, 1, 25, 0, 0), &percentage, &deviation);
    assert!(never.is_none());
}

#[test]
fn the_screen_is_divided() {
    let areas = frame_areas(screen());
    assert_eq!(areas.header, area(0, 0, 80, 1));
    assert_eq!(areas.title, area(0, 0, 56, 1));
    assert_eq!(areas.time, area(56, 0, 24, 1));
    assert_eq!(areas.guide, area(0, 1, 80, 2));
    assert_eq!(areas.table, area(0, 3, 80, 21));
}

#[test]
fn screens_of_all_sizes_are_divided() {
    for (x, y) in [(0, 0), (3, 7)] {
        for height in 13..=60 {
            for width in [0, 1, 2, 3, 4, 5, 7, 15, 25, 79, 80, 81, 135, 255, 1000] {
                let areas = frame_areas(area(x, y, width, height));
                let title_width = (7 * width + 5) / 10;
                assert_eq!(areas.header, area(x, y, width, 1));
                assert_eq!(areas.title, area(x, y, title_width, 1));
                assert_eq!(areas.time, area(x + title_width, y, width - title_width, 1));
                assert_eq!(areas.guide, area(x, y + 1, width, 2));
                assert_eq!(areas.table, area(x, y + 3, width, height - 3));
            }
        }
    }
    for width in 0..=600u16 {
        let areas = frame_areas(area(0, 0, width, 13));
        assert_eq!(areas.title.width, (7 * width + 5) / 10);
        assert_eq!(areas.title.width + areas.time.width, width);
    }
}

#[test]
fn the_largest_screen_is_divided() {
    let areas = frame_areas(area(0, 0, u16::MAX, u16::MAX));
    assert_eq!(areas.title, area(0, 0, 45875, 1));
    assert_eq!(areas.time, area(45875, 0, 19660, 1));
    assert_eq!(areas.table, area(0, 3, u16::MAX, u16::MAX - 3));
}

#[test]
fn small_screens_give_the_table_its_rows_first() {
    for height in 0..13u16 {
        let (header, guide, table) = match height {
            11 => (1, 0, 10),
            12 => (1, 1, 10),
            _ => (0, 0, height),
        };
        for x in 0..20 {
            for y in [0, 1, 2, 5, 24, 99, 100, 1000, 32767, 60000, 65523] {
                let areas = frame_areas(area(x, y, 40, height));
                assert_eq!(areas.header, area(x, y, 40, header));
                assert_eq!(areas.title, area(x, y, 28, header));
                assert_eq!(areas.time, area(x + 28, y, 12, header));
                assert_eq!(areas.guide, area(x, y + header, 40, guide));
                assert_eq!(areas.table, area(x, y + header + guide, 40, table));
            }
        }
    }
}

#[test]
fn areas_end_at_the_largest_coordinate() {
    let far = u16::MAX - 20;
    let areas = frame_areas(area(far, far, 100, 200));
    assert_eq!(areas.header, area(far, far, 100, 1));
    assert_eq!(areas.title, area(far, far, 14, 1));
    assert_eq!(areas.time, area(far + 14, far, 6, 1));
    assert_eq!(areas.guide, area(far, far + 1, 100, 2));
    assert_eq!(areas.table, area(far, far + 3, 100, 17));

    let edge = u16::MAX - 11;
    let areas = frame_areas(area(0, edge, 10, 50));
    assert_eq!(areas.header, area(0, edge, 10, 1));
    assert_eq!(areas.guide, area(0, edge + 1, 10, 0));
    assert_eq!(areas.table, area(0, edge + 1, 10, 10));
}

#[test]
fn the_table_has_titled_columns() {
    assert_eq!(
        column_titles(),
        ["Host", "Loss%", "Snt", "Last", "Avg", "Best", "Wrst", "StDev"]
    );
    assert_eq!(column_widths()[0], Extent::Share { percent: 45 });
    for width in &column_widths()[1..] {
        assert_eq!(*width, Extent::Share { percent: 7 });
    }
}

#[test]
fn keys_ask_for_commands() {
    let press = |character, control| KeyStroke {
        is_press: true,
        character: Some(character),
        control,
    };
    assert_eq!(press('q', false).command(), KeyCommand::Quit);
    assert_eq!(press('q', true).command(), KeyCommand::Quit);
    assert_eq!(press('c', true).command(), KeyCommand::Quit);
    assert_eq!(press('c', false).command(), KeyCommand::Nothing);
    assert_eq!(press('p', false).command(), KeyCommand::TogglePause);
    assert_eq!(press('r', false).command(), KeyCommand::RestartStatistics);
    assert_eq!(press('Q', false).command(), KeyCommand::Nothing);
    let arrow = KeyStroke { is_press: true, character: None, control: true };
    assert_eq!(arrow.command(), KeyCommand::Nothing);
    let release = KeyStroke { is_press: false, character: Some('q'), control: false };
    assert_eq!(release.command(), KeyCommand::Nothing);
}

#[test]
fn a_wait_ends_when_a_refresh_is_due() {
    for elapsed_ns in [0, 1, 40_000_000, 99_999_999, 100_000_000, 100_000_001, 5_000_000_000] {
        assert!(refresh_is_due(elapsed_ns + key_wait_ns(elapsed_ns)));
    }
    assert_eq!(key_wait_ns(30_000_000), 70_000_000);
    assert_eq!(key_wait_ns(u64::MAX), 0);
    assert!(!refresh_is_due(REFRESH_INTERVAL_NS - 1));
    assert!(refresh_is_due(REFRESH_INTERVAL_NS));
}

#[test]
fn arguments_name_the_target() {
    let args = CliArgs { target: String::from("baidu.com") };
    assert_eq!(args.target, "baidu.com");
}
