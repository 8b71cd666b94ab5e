use statusbar::engine::{
    watcher_on_line, Phase, Scheduler, SchedulerAction, SchedulerEvent, VolumeCell,
    WatcherAction, TICK_MILLIS,
};
use statusbar::format::ClockTime;
use statusbar::sensors::SensorError;
use statusbar::snapshot::{
    build_snapshot, encode_snapshot, frame_object, readings_now, NetworkReading, Readings,
    HEADER_LINE, OPEN_LINE,
};

fn link_down() -> NetworkReading {
    NetworkReading { up: false, carrier: false, bytes_sent: 0, bytes_received: 0 }
}

#[test]
fn snapshot_volume_and_clock_only() {
    let r = Readings {
        volume: 42,
        brightness: Err(SensorError::Unavailable),
        network: link_down(),
        clock: ClockTime { hour: 12, minute: 34, second: 56 },
    };
    let blocks = build_snapshot(&r);
    assert_eq!(blocks.len(), 2);
    assert_eq!(blocks[0].name, "volume");
    assert!(blocks[0].full_text.contains("42"));
    assert_eq!(blocks[1].name, "clock");
    assert!(blocks.iter().all(|b| b.name != "brightness" && b.name != "net"));
    let line = encode_snapshot(&blocks).unwrap();
    assert_eq!(
        line,
        "[{\"full_text\":\"\u{f028}  42\",\"name\":\"volume\"},{\"full_text\":\"\u{f0954}  12:34:56 \",\"name\":\"clock\"}],"
    );
}

#[test]
fn snapshot_all_blocks_in_order() {
    let r = Readings {
        volume: 0,
        brightness: Ok(80),
        network: NetworkReading { up: true, carrier: true, bytes_sent: 1536, bytes_received: 0 },
        clock: ClockTime { hour: 0, minute: 0, second: 0 },
    };
    let blocks = build_snapshot(&r);
    let names: Vec<&str> = blocks.iter().map(|b| b.name.as_str()).collect();
    assert_eq!(names, vec!["volume", "brightness", "net", "clock"]);
    assert_eq!(blocks[0].full_text, "\u{eee8}  0");
    assert_eq!(blocks[1].full_text, "\u{f522}  80");
    assert_eq!(blocks[2].full_text, "\u{f6ff}  1.50KB  0.00B");
    assert_eq!(blocks[2].color, Some("#7aa2f7".to_string()));
    let line = encode_snapshot(&blocks).unwrap();
    assert!(line.contains("{\"color\":\"#7aa2f7\",\"full_text\":\"\u{f6ff}  1.50KB  0.00B\",\"name\":\"net\"}"));
    assert!(line.starts_with('[') && line.ends_with("],"));
}

#[test]
fn snapshot_link_up_without_carrier_has_no_network_block() {
    let r = Readings {
        volume: 10,
        brightness: Err(SensorError::ParseFailure),
        network: NetworkReading { up: true, carrier: false, bytes_sent: 5, bytes_received: 5 },
        clock: ClockTime { hour: 1, minute: 2, second: 3 },
    };
    assert_eq!(build_snapshot(&r).len(), 2);
}

#[test]
fn json_texts_are_escaped() {
    let mut blocks = build_snapshot(&Readings {
        volume: 5,
        brightness: Err(SensorError::Unavailable),
        network: link_down(),
        clock: ClockTime { hour: 1, minute: 2, second: 3 },
    });
    blocks[0].full_text = "say \"hi\"\n".to_string();
    let line = encode_snapshot(&blocks).unwrap();
    assert!(line.starts_with("[{\"full_text\":\"say \\\"hi\\\"\\n\",\"name\":\"volume\"},"));
}

#[test]
fn frame_object_key_order() {
    assert_eq!(frame_object("\"n\"", "\"t\"", None), "{\"full_text\":\"t\",\"name\":\"n\"}");
    assert_eq!(
        frame_object("\"n\"", "\"t\"", Some("\"c\"")),
        "{\"color\":\"c\",\"full_text\":\"t\",\"name\":\"n\"}"
    );
}

#[test]
fn protocol_preamble() {
    assert_eq!(HEADER_LINE, "{ \"version\": 1 }");
    assert_eq!(OPEN_LINE, "[");
}

#[test]
fn readings_now_keeps_inputs() {
    let r = readings_now(42, Ok(3), link_down());
    assert_eq!(r.volume, 42);
    assert_eq!(r.brightness, Ok(3));
    assert!(r.clock.hour < 24 && r.clock.minute < 60 && r.clock.second < 60);
}

#[test]
fn repeated_change_events_with_same_level_do_not_wake() {
    let mut cell = VolumeCell::new(Some(42));
    let mut wakes = 0;
    for line in ["Event 'change' on sink #0", "Event 'change' on sink #0"] {
        assert_eq!(watcher_on_line(line), WatcherAction::QueryVolume);
        if cell.publish(Some(42)) {
            wakes += 1;
        }
    }
    assert_eq!(wakes, 0);
    assert_eq!(cell, VolumeCell { volume: 42, wake: false });
}

#[test]
fn identical_readings_never_wake() {
    let mut cell = VolumeCell::new(Some(30));
    for _ in 0..10 {
        assert!(!cell.publish(Some(30)));
    }
    assert!(!cell.publish(None));
    assert_eq!(cell, VolumeCell { volume: 30, wake: false });
}

#[test]
fn other_events_are_ignored() {
    assert_eq!(watcher_on_line("Event 'change' on source #1"), WatcherAction::Ignore);
    assert_eq!(watcher_on_line("Event 'new' on sink-input #12"), WatcherAction::Ignore);
    assert_eq!(watcher_on_line(""), WatcherAction::Ignore);
}

#[test]
fn change_between_ticks_reaches_next_snapshot() {
    let mut cell = VolumeCell::new(None);
    assert_eq!(cell.volume, 0);
    assert!(cell.publish(Some(55)));
    assert!(cell.wake);
    assert_eq!(cell.take_for_snapshot(), 55);
    assert!(!cell.wake);
    assert_eq!(cell.take_for_snapshot(), 55);
}

#[test]
fn scheduler_runs_on_the_tick_alone() {
    let mut s = Scheduler::new();
    assert_eq!(s.phase, Phase::Startup);
    assert_eq!(s.step(SchedulerEvent::Begin), SchedulerAction::Build);
    assert_eq!(s.step(SchedulerEvent::Written), SchedulerAction::Wait { timeout_millis: TICK_MILLIS });
    assert_eq!(TICK_MILLIS, 1000);
    for _ in 0..3 {
        assert_eq!(s.step(SchedulerEvent::Wake { signalled: false }), SchedulerAction::Build);
        assert_eq!(s.step(SchedulerEvent::Written), SchedulerAction::Wait { timeout_millis: 1000 });
    }
    assert_eq!(s.phase, Phase::Waiting);
}

#[test]
fn scheduler_single_build_per_wake() {
    let mut s = Scheduler::new();
    assert_eq!(s.step(SchedulerEvent::Wake { signalled: true }), SchedulerAction::Nothing);
    s.step(SchedulerEvent::Begin);
    assert_eq!(s.step(SchedulerEvent::Wake { signalled: true }), SchedulerAction::Nothing);
    s.step(SchedulerEvent::Written);
    assert_eq!(s.step(SchedulerEvent::Wake { signalled: true }), SchedulerAction::Build);
    assert_eq!(s.step(SchedulerEvent::Begin), SchedulerAction::Nothing);
}

#[test]
fn json_control_characters_use_short_or_hex_escapes() {
    let mut blocks = build_snapshot(&Readings {
        volume: 5,
        brightness: Err(SensorError::Unavailable),
        network: link_down(),
        clock: ClockTime { hour: 1, minute: 2, second: 3 },
    });
    blocks[0].full_text = "a\u{1}\u{1f}\t\\/\u{7f}\u{e9}".to_string();
    let line = encode_snapshot(&blocks).unwrap();
    assert!(line.starts_with("[{\"full_text\":\"a\\u0001\\u001f\\t\\\\/\u{7f}\u{e9}\",\"name\":\"volume\"},"));
}

#[test]
fn snapshot_encoding_never_fails() {
    let r = Readings {
        volume: 42,
        brightness: Err(SensorError::Unavailable),
        network: link_down(),
        clock: ClockTime { hour: 9, minute: 0, second: 0 },
    };
    assert!(encode_snapshot(&build_snapshot(&r)).is_ok());
}
