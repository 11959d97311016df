use ffmpeg_cli::{Decimal, Duration, Error, NumError, Progress, Pump, Status};

fn feed_all(pump: &mut Pump, lines: &[&str]) -> Vec<Result<Progress, Error>> {
    let mut out = Vec::new();
    for line in lines {
        if let Some(item) = pump.feed_line(line) {
            out.push(item);
        }
    }
    out
}

#[test]
fn na_clears_a_previously_seen_field() {
    let mut pump = Pump::new();
    let items = feed_all(&mut pump, &["frame=10\n", "frame=N/A\n", "progress=continue\n"]);
    assert_eq!(items.len(), 1);
    let snap = items[0].as_ref().unwrap();
    assert_eq!(snap.frame, None);
    assert_eq!(snap.status, Status::Continue);
}

#[test]
fn intervals_emit_in_order_and_reset() {
    let mut pump = Pump::new();
    let items = feed_all(
        &mut pump,
        &["frame=1\n", "fps=24.0\n", "progress=continue\n", "frame=2\n", "progress=end\n"],
    );
    assert_eq!(items.len(), 2);

    let first = items[0].as_ref().unwrap();
    assert_eq!(first.frame, Some(1));
    assert_eq!(first.fps, Some(Decimal { neg: false, mantissa: 240, scale: 1 }));
    assert_eq!(first.status, Status::Continue);

    let second = items[1].as_ref().unwrap();
    assert_eq!(second.frame, Some(2));
    assert_eq!(second.fps, None);
    assert_eq!(second.status, Status::End);

    assert!(!pump.closed);
}

#[test]
fn unknown_keys_are_ignored() {
    let mut pump = Pump::new();
    let items = feed_all(&mut pump, &["bitrate=128kbits/s=\n", "progress=continue\n"]);
    assert_eq!(items.len(), 1);
    let snap = items[0].as_ref().unwrap();
    assert_eq!(snap.frame, None);
    assert_eq!(snap.fps, None);
    assert_eq!(snap.total_size, None);
    assert_eq!(snap.out_time, None);
    assert_eq!(snap.dup_frames, None);
    assert_eq!(snap.drop_frames, None);
    assert_eq!(snap.speed, None);
    assert_eq!(snap.status, Status::Continue);
}

#[test]
fn malformed_status_is_one_error_then_silence() {
    let mut pump = Pump::new();
    let items = feed_all(&mut pump, &["frame=3\n", "progress=paused\n", "progress=continue\n"]);
    assert_eq!(items.len(), 1);
    match &items[0] {
        Err(Error::UnknownStatusError(v)) => assert_eq!(v, "paused"),
        other => panic!("expected an unknown-status error, got {:?}", other),
    }
    assert!(pump.closed);
}

#[test]
fn speed_parses_and_na_clears_it() {
    let mut pump = Pump::new();
    let items = feed_all(
        &mut pump,
        &["speed=2.50x\n", "progress=continue\n", "speed=1.0x\n", "speed=N/A\n", "progress=end\n"],
    );
    assert_eq!(items.len(), 2);
    let first = items[0].as_ref().unwrap();
    assert_eq!(first.speed, Some(Decimal { neg: false, mantissa: 250, scale: 2 }));
    let second = items[1].as_ref().unwrap();
    assert_eq!(second.speed, None);
}

#[test]
fn fast_remux_speeds_in_exponent_notation_keep_the_stream_alive() {
    let mut pump = Pump::new();
    let items = feed_all(
        &mut pump,
        &["speed=1.15e+03x\n", "progress=continue\n", "fps=2.997e1\n", "progress=end\n"],
    );
    assert_eq!(items.len(), 2);
    let first = items[0].as_ref().unwrap();
    assert_eq!(first.speed, Some(Decimal { neg: false, mantissa: 1150, scale: 0 }));
    let second = items[1].as_ref().unwrap();
    assert_eq!(second.fps, Some(Decimal { neg: false, mantissa: 2997, scale: 2 }));
    assert!(!pump.closed);
}

#[test]
fn out_time_us_becomes_a_duration() {
    let mut pump = Pump::new();
    let items = feed_all(&mut pump, &["out_time_us=1500000\n", "progress=continue\n"]);
    assert_eq!(items.len(), 1);
    let snap = items[0].as_ref().unwrap();
    assert_eq!(snap.out_time, Some(Duration { secs: 1, micros: 500_000 }));
}

#[test]
fn every_numeric_field_accumulates() {
    let mut pump = Pump::new();
    let items = feed_all(
        &mut pump,
        &[
            "frame=100\n",
            "fps=29.97\n",
            "total_size=4096\n",
            "out_time_us=2000000\n",
            "dup_frames=1\n",
            "drop_frames=2\n",
            "speed=1.02x\n",
            "progress=continue\n",
        ],
    );
    assert_eq!(items.len(), 1);
    let snap = items[0].as_ref().unwrap();
    assert_eq!(snap.frame, Some(100));
    assert_eq!(snap.fps, Some(Decimal { neg: false, mantissa: 2997, scale: 2 }));
    assert_eq!(snap.total_size, Some(4096));
    assert_eq!(snap.out_time, Some(Duration { secs: 2, micros: 0 }));
    assert_eq!(snap.dup_frames, Some(1));
    assert_eq!(snap.drop_frames, Some(2));
    assert_eq!(snap.speed, Some(Decimal { neg: false, mantissa: 102, scale: 2 }));
}

#[test]
fn line_without_equals_is_a_format_error() {
    let mut pump = Pump::new();
    let items = feed_all(&mut pump, &["garbage\n", "progress=continue\n"]);
    assert_eq!(items.len(), 1);
    match &items[0] {
        Err(Error::KeyValueParseError(l)) => assert_eq!(l, "garbage\n"),
        other => panic!("expected a key-value format error, got {:?}", other),
    }
    assert!(pump.closed);
}

#[test]
fn unparsable_field_value_is_an_error_with_the_substring() {
    let mut pump = Pump::new();
    let items = feed_all(&mut pump, &["frame=abc\n", "progress=continue\n"]);
    assert_eq!(items.len(), 1);
    match &items[0] {
        Err(Error::OtherParseError(cause, text)) => {
            assert_eq!(*cause, NumError::InvalidDigit);
            assert_eq!(text, "abc");
        }
        other => panic!("expected a parse error, got {:?}", other),
    }
    assert!(pump.closed);
}

#[test]
fn overflowing_field_value_is_an_overflow_error() {
    let mut pump = Pump::new();
    let items = feed_all(&mut pump, &["total_size=99999999999999999999\n"]);
    assert_eq!(items.len(), 1);
    match &items[0] {
        Err(Error::OtherParseError(cause, text)) => {
            assert_eq!(*cause, NumError::Overflow);
            assert_eq!(text, "99999999999999999999");
        }
        other => panic!("expected a parse error, got {:?}", other),
    }
}

#[test]
fn speed_error_reports_the_stripped_substring() {
    let mut pump = Pump::new();
    let items = feed_all(&mut pump, &["speed=zx\n"]);
    assert_eq!(items.len(), 1);
    match &items[0] {
        Err(Error::OtherParseError(cause, text)) => {
            assert_eq!(*cause, NumError::InvalidDigit);
            assert_eq!(text, "z");
        }
        other => panic!("expected a parse error, got {:?}", other),
    }
}

#[test]
fn feed_lines_collects_items_in_order() {
    let mut pump = Pump::new();
    let lines: Vec<String> =
        vec!["frame=1\n".to_string(), "progress=continue\n".to_string(), "frame=2\n".to_string(), "progress=end\n".to_string()];
    let items = pump.feed_lines(&lines);
    assert_eq!(items.len(), 2);
    assert_eq!(items[0].as_ref().unwrap().frame, Some(1));
    assert_eq!(items[1].as_ref().unwrap().frame, Some(2));
}

#[test]
fn default_progress_is_all_absent() {
    let snap = Progress::default();
    assert_eq!(snap.frame, None);
    assert_eq!(snap.fps, None);
    assert_eq!(snap.total_size, None);
    assert_eq!(snap.out_time, None);
    assert_eq!(snap.dup_frames, None);
    assert_eq!(snap.drop_frames, None);
    assert_eq!(snap.speed, None);
    assert_eq!(snap.status, Status::Continue);
    assert_eq!(Status::default(), Status::Continue);
}

#[test]
fn error_messages_name_the_kind() {
    assert_eq!(
        Error::UnknownStatusError("paused".to_string()).message(),
        "Unknown status: paused"
    );
    assert_eq!(
        Error::KeyValueParseError("junk\n".to_string()).message(),
        "Invalid key=value pair: junk\n"
    );
    assert_eq!(Error::IoError("broken pipe".to_string()).message(), "Io Error: broken pipe");
    assert_eq!(
        Error::OtherParseError(NumError::Empty, "".to_string()).message(),
        "Parse Error: "
    );
}
