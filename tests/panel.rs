use display_interface::DisplayError;
use oled_status::control::{Action, Banner, Controller, Event, Phase, Signal};
use oled_status::error::{pathbuf_to_string, Cause, DisplayFault, Error, ProcFault};
use oled_status::render::{
    address_line, banner_frame, banner_offset, main_frame, time_line, Baseline, DrawOp,
    FrameStep, LocalTime, GLYPH_WIDTH, HEIGHT, WIDTH,
};
use oled_status::sensor::{parse_hectopascals, parse_thousandths, ReadError, Reading, BME280};
use oled_status::simple_error::SimpleError;
use procfs::ProcError;
use std::path::PathBuf;

fn reading(mantissa: i64, exponent: i64) -> Result<Reading, ReadError> {
    Ok(Reading { mantissa, exponent })
}

#[test]
fn base_path_is_hex() {
    let s = BME280::new(1, 0x76);
    assert_eq!(s.basepath(), "/sys/bus/i2c/devices/1-0076");
    assert_eq!(BME280::new(0x1a, 0xab).basepath(), "/sys/bus/i2c/devices/1a-00ab");
    assert_eq!(
        s.temperature_path(),
        "/sys/bus/i2c/devices/1-0076/iio:device0/in_temp_input"
    );
    assert_eq!(
        s.humidity_path(),
        "/sys/bus/i2c/devices/1-0076/iio:device0/in_humidityrelative_input"
    );
    assert_eq!(
        s.pressure_path(),
        "/sys/bus/i2c/devices/1-0076/iio:device0/in_pressure_input"
    );
}

#[test]
fn delimited_values_are_scaled() {
    let s = BME280::new(1, 0x76);
    assert_eq!(s.temperature(Some(b"21500\x10")), reading(21500, -3));
    assert_eq!(s.temperature(Some(b"21500\x10garbage")), reading(21500, -3));
    assert_eq!(s.humidity(Some(b"47200\n")), reading(47200, -3));
    assert_eq!(s.pressure(Some(b"101.3\x10")), reading(1013, 0));
    assert_eq!(s.pressure(Some(b"101.325000\n")), reading(101325000, -5));
    assert_eq!(s.pressure(Some(b"100\n")), reading(100, 1));
    assert_eq!(s.temperature(Some(b"  -1500 \n")), reading(-1500, -3));
    assert_eq!(s.temperature(Some(b"+7")), reading(7, -3));
    assert_eq!(s.temperature(Some("\u{a0}21500\u{3000}\n".as_bytes())), reading(21500, -3));
    assert_eq!(s.pressure(Some("\u{2009}101.3\u{85}".as_bytes())), reading(1013, 0));
    assert_eq!(s.temperature(Some(b"21500\x10\xff")), reading(21500, -3));
}

#[test]
fn scaled_values_in_public_units() {
    let t = parse_thousandths(b"21500\n").unwrap();
    assert_eq!(t.mantissa as f64 * 10f64.powi(t.exponent as i32), 21.5);
    let p = parse_hectopascals(b"101.3\n").unwrap();
    assert_eq!(p.mantissa as f64 * 10f64.powi(p.exponent as i32), 1013.0);
}

#[test]
fn pressure_with_exponent_or_many_digits() {
    let s = BME280::new(1, 0x76);
    assert_eq!(s.pressure(Some(b"1e3\x10")), reading(1, 4));
    assert_eq!(s.pressure(Some(b"1.013E+2\n")), reading(1013, 0));
    assert_eq!(s.pressure(Some(b"-2.5e-1\n")), reading(-25, -1));
    assert_eq!(s.pressure(Some(b"5.\n")), reading(5, 1));
    assert_eq!(s.pressure(Some(b".5\n")), reading(5, 0));
    assert_eq!(
        s.pressure(Some(b"1234567890123456789012\n")),
        reading(1234567890123456789, 4)
    );
    assert_eq!(
        s.pressure(Some(b"9223372036854775807\n")),
        reading(9223372036854775807, 1)
    );
    assert_eq!(s.pressure(Some(b"1e99999999999999999999")), Err(ReadError::InvalidData));
    assert_eq!(s.pressure(Some(b"0e9223372036854775808\x10")), reading(0, 0));
    assert_eq!(s.pressure(Some(b"-0.0e99999999999999999999999\n")), reading(0, 0));
    assert_eq!(s.pressure(Some(b"1e-9223372036854775810\n")), reading(0, 0));
    assert_eq!(
        s.pressure(Some(b"1e-9223372036854775809\n")),
        reading(1, -9223372036854775808)
    );
    assert_eq!(s.pressure(Some(b"5e-99999999999999999999999999\n")), reading(0, 0));
    assert_eq!(s.pressure(Some(b"0e5\n")), reading(0, 6));
    let p = parse_hectopascals(b"1e3\n").unwrap();
    assert_eq!(p.mantissa as f64 * 10f64.powi(p.exponent as i32), 10000.0);
}

#[test]
fn unreadable_locations_are_io_errors() {
    let s = BME280::new(1, 0x76);
    assert_eq!(s.temperature(None), Err(ReadError::Io));
    assert_eq!(s.humidity(None), Err(ReadError::Io));
    assert_eq!(s.pressure(None), Err(ReadError::Io));
    assert_eq!(s.humidity(Some(b"47200\n")), reading(47200, -3));
}

#[test]
fn non_numeric_content_is_invalid_data() {
    let s = BME280::new(1, 0x76);
    for bad in [&b"abc\n"[..], b"", b"\n", b"12a", b"-", b"1.5", b"\xff\xfe"] {
        assert_eq!(s.temperature(Some(bad)), Err(ReadError::InvalidData));
        assert_eq!(s.humidity(Some(bad)), Err(ReadError::InvalidData));
    }
    for bad in [&b"abc\n"[..], b"", b".", b"1.2.3", b"--1", b"1 2", b"1e", b"e5", b"1e+", b"inf"] {
        assert_eq!(s.pressure(Some(bad)), Err(ReadError::InvalidData));
    }
    assert_eq!(s.temperature(Some(b"2147483648")), Err(ReadError::InvalidData));
    assert_eq!(s.temperature(Some(b"-2147483648")), reading(-2147483648, -3));
    assert_eq!(s.temperature(Some(b"2147483647")), reading(2147483647, -3));
}

#[test]
fn display_errors_have_specific_messages() {
    let all = [
        (DisplayError::BusWriteError, "DisplayError: BusWriteError"),
        (DisplayError::CSError, "DisplayError: CSError"),
        (DisplayError::DCError, "DisplayError: DCError"),
        (DisplayError::DataFormatNotImplemented, "DisplayError: DataFormatNotImplemented"),
        (DisplayError::InvalidFormatError, "DisplayError: InvalidFormatError"),
        (DisplayError::OutOfBoundsError, "DisplayError: OutOfBoundsError"),
        (DisplayError::RSError, "DisplayError: RSError"),
    ];
    for (e, msg) in all {
        let kept = format!("{:?}", e);
        let err = Error::from_display_error(e);
        assert_eq!(err.msg(), msg);
        match err.cause() {
            Cause::Display(d) => assert_eq!(format!("{:?}", d), kept),
            _ => panic!("the display error is the cause"),
        }
        assert_eq!(err.to_string(), format!("Error: {}", msg));
    }
    assert_eq!(DisplayFault::Unknown.label(), "unknown");
}

#[test]
fn proc_errors_have_specific_messages() {
    let cases = vec![
        (
            ProcError::NotFound(Some(PathBuf::from("/proc/loadavg"))),
            "ProcError: NotFound: at /proc/loadavg",
        ),
        (ProcError::Incomplete(None), "ProcError: Incomplete: at ---"),
        (ProcError::Other("odd".to_string()), "ProcError: Other: odd"),
        (
            ProcError::Io(std::io::Error::new(std::io::ErrorKind::Other, "boom"), None),
            "ProcError: IO: boom at ---",
        ),
        (ProcError::PermissionDenied(None), "ProcError: unknown"),
        (
            ProcError::InternalError(procfs::InternalError {
                msg: "odd field".to_string(),
                file: "meminfo.rs",
                line: 42,
            }),
            "ProcError: InternalError: bug at meminfo.rs:42 (please report this procfs bug)\nodd field",
        ),
    ];
    for (e, msg) in cases {
        let kept = format!("{:?}", e);
        let err = Error::from_proc_error(e);
        assert_eq!(err.msg(), msg);
        match err.cause() {
            Cause::Proc(p) => assert_eq!(format!("{:?}", p), kept),
            _ => panic!("the process-metrics error is the cause"),
        }
    }
    let err = Error::from_proc_error(ProcError::NotFound(Some(PathBuf::from("/proc/loadavg"))));
    assert!(matches!(
        err.cause(),
        Cause::Proc(ProcError::NotFound(Some(p))) if p == &PathBuf::from("/proc/loadavg")
    ));
    let f = ProcFault::from_proc_error(&ProcError::Incomplete(Some(PathBuf::from("/x"))));
    assert_eq!(f, ProcFault::Incomplete(Some(Some("/x".to_string()))));
    let err = Error::from_proc_fault(
        ProcFault::Internal("bug".to_string()),
        anyhow::Error::msg("bug"),
    );
    assert_eq!(err.msg(), "ProcError: InternalError: bug");
}

#[test]
fn read_errors_have_messages() {
    let io = Error::from_read_error(ReadError::Io);
    assert_eq!(io.msg(), "IO: the value could not be read");
    let data = Error::from_read_error(ReadError::InvalidData);
    assert_eq!(data.msg(), "InvalidData: the value is not a number");
    assert!(matches!(io.cause(), Cause::Sensor(ReadError::Io)));
    let (msg, cause) = data.into_parts();
    assert_eq!(msg, "InvalidData: the value is not a number");
    assert!(matches!(cause, Cause::Sensor(ReadError::InvalidData)));
}

#[test]
fn paths_in_messages() {
    assert_eq!(pathbuf_to_string(None), "---");
    assert_eq!(pathbuf_to_string(Some(None)), "???");
    assert_eq!(pathbuf_to_string(Some(Some("/p".to_string()))), "/p");
}

#[test]
fn errors_from_anyhow_keep_message_and_cause() {
    let io = std::io::Error::new(std::io::ErrorKind::NotFound, "no such file");
    let err = Error::from_read_failure(ReadError::Io, anyhow::Error::new(io));
    assert_eq!(err.msg(), "IO: the value could not be read: no such file");
    match err.cause() {
        Cause::Other(c) => assert!(c.downcast_ref::<std::io::Error>().is_some()),
        _ => panic!("the I/O error is the cause"),
    }
    let err = Error::from_anyhow(anyhow::Error::msg("sensor gone"));
    assert_eq!(err.msg(), "sensor gone");
    match err.cause() {
        Cause::Other(c) => assert_eq!(c.to_string(), "sensor gone"),
        _ => panic!("the anyhow error is the cause"),
    }
    let err = Error::new("plain", anyhow::Error::msg("inner"));
    assert_eq!(err.to_string(), "Error: plain");
    match err.cause() {
        Cause::Other(c) => assert_eq!(c.to_string(), "inner"),
        _ => panic!("the anyhow error is the cause"),
    }
}

#[test]
fn simple_error_describes_itself() {
    let e = SimpleError::new(None, "bad value");
    assert_eq!(e.description(), "bad value");
    assert_eq!(e.to_string(), "error: bad value");
    assert!(e.source().is_none());
    let e = SimpleError::new(Some(anyhow::Error::msg("root")), "wrapped");
    assert_eq!(e.source().unwrap().to_string(), "root");
}

#[test]
fn banner_is_centered() {
    assert_eq!(banner_offset(128, 6, 7), 43);
    assert_eq!(banner_offset(128, 6, 30), 0);
    assert_eq!(banner_offset(128, 6, 22), 0);
    assert_eq!(banner_offset(128, 6, 21), 1);
    let ops = banner_frame("Welcome");
    assert_eq!(ops.len(), 2);
    match &ops[0] {
        DrawOp::Rectangle { x, y, width, height } => {
            assert_eq!((*x, *y, *width, *height), (0, 0, WIDTH, HEIGHT));
        }
        _ => panic!("expected the outline first"),
    }
    match &ops[1] {
        DrawOp::Text { x, y, text, baseline } => {
            assert_eq!((*x, *y), (43, 32));
            assert_eq!(text, "Welcome");
            assert_eq!(*baseline, Baseline::Middle);
        }
        _ => panic!("expected the text second"),
    }
    assert_eq!(GLYPH_WIDTH, 6);
}

#[test]
fn main_screen_has_six_lines_and_one_flush() {
    let ops = main_frame(
        time_line(&LocalTime { year: 2024, month: 3, day: 5, hour: 7, minute: 8, second: 9 }),
        address_line(Some("192.168.1.2".to_string())),
        format!("Temperature: {:3.2}C", 21.5f32),
        format!("Humidity: {:3.2}%RH", 47.2f32),
        format!("Pressure: {:3.2}hPa", 1013.0f32),
        format!("LA: {:3.2}/{:3.2}/{:3.2}", 0.10f32, 0.20f32, 0.30f32),
    );
    assert_eq!(ops.len(), 6);
    let expected = [
        "2024/03/05 07:08:09",
        "IP: 192.168.1.2",
        "Temperature: 21.50C",
        "Humidity: 47.20%RH",
        "Pressure: 1013.00hPa",
        "LA: 0.10/0.20/0.30",
    ];
    for (i, op) in ops.iter().enumerate() {
        match op {
            DrawOp::Text { x, y, text, baseline } => {
                assert_eq!((*x, *y), (1, 1 + 11 * i as i32));
                assert_eq!(text, expected[i]);
                assert_eq!(*baseline, Baseline::Top);
            }
            _ => panic!("expected text lines only"),
        }
    }
    let mut step = FrameStep::Clear;
    let (mut draws, mut flushes) = (0, 0);
    loop {
        match step {
            FrameStep::Draw(_) => draws += 1,
            FrameStep::Flush => flushes += 1,
            FrameStep::Done | FrameStep::Failed => break,
            FrameStep::Clear => {}
        }
        step = step.next(true, ops.len());
    }
    assert_eq!((draws, flushes, step), (6, 1, FrameStep::Done));
}

#[test]
fn no_draw_after_a_failed_draw() {
    let mut step = FrameStep::Clear;
    let mut drawn = Vec::new();
    let mut flushes = 0;
    loop {
        let ok = match step {
            FrameStep::Draw(i) => {
                drawn.push(i);
                i != 2
            }
            FrameStep::Flush => {
                flushes += 1;
                true
            }
            FrameStep::Clear => true,
            FrameStep::Done | FrameStep::Failed => break,
        };
        step = step.next(ok, 6);
    }
    assert_eq!(drawn, vec![0, 1, 2]);
    assert_eq!(flushes, 0);
    assert_eq!(step, FrameStep::Failed);
    assert_eq!(FrameStep::Clear.next(true, 0), FrameStep::Flush);
}

#[test]
fn clock_and_address_lines() {
    let t = LocalTime { year: 12345, month: 12, day: 31, hour: 23, minute: 59, second: 59 };
    assert_eq!(time_line(&t), "+12345/12/31 23:59:59");
    let t = LocalTime { year: 987, month: 1, day: 1, hour: 0, minute: 0, second: 0 };
    assert_eq!(time_line(&t), "0987/01/01 00:00:00");
    let t = LocalTime { year: -5, month: 1, day: 1, hour: 0, minute: 0, second: 0 };
    assert_eq!(time_line(&t), "-0005/01/01 00:00:00");
    assert_eq!(address_line(None), "IP: ???");
}

#[test]
fn lifecycle_until_signal() {
    let mut c = Controller::new();
    assert_eq!(c.handle(Event::Started), Action::ClearScreen);
    assert_eq!(c.handle(Event::Cleared), Action::ShowBanner(Banner::Welcome));
    assert_eq!(c.handle(Event::BannerShown { now: 5000 }), Action::Wait);
    assert_eq!(c.phase, Phase::Running);
    let tick = |now| Event::Tick { now, signal: Signal::Pending };
    assert_eq!(c.handle(tick(5100)), Action::Wait);
    assert_eq!(c.handle(tick(5199)), Action::Wait);
    assert_eq!(c.handle(tick(5200)), Action::Render);
    assert_eq!(c.handle(Event::Rendered { now: 5210 }), Action::Wait);
    assert_eq!(c.handle(tick(5300)), Action::Wait);
    assert_eq!(c.handle(tick(5410)), Action::Render);
    assert_eq!(c.handle(Event::Rendered { now: 5411 }), Action::Wait);
    assert_eq!(
        c.handle(Event::Tick { now: 5900, signal: Signal::Received }),
        Action::ShowBanner(Banner::Goodbye)
    );
    assert_eq!(c.phase, Phase::Draining);
    assert_eq!(c.handle(Event::BannerShown { now: 10900 }), Action::ClearScreen);
    assert_eq!(c.handle(Event::Cleared), Action::Exit(0));
    assert_eq!(c.phase, Phase::Stopped);
    assert_eq!(c.handle(Event::BannerShown { now: 11000 }), Action::Wait);
}

#[test]
fn disconnected_channel_also_stops() {
    let mut c = Controller::new();
    c.handle(Event::Started);
    c.handle(Event::Cleared);
    c.handle(Event::BannerShown { now: 0 });
    assert_eq!(
        c.handle(Event::Tick { now: 1, signal: Signal::Disconnected }),
        Action::ShowBanner(Banner::Goodbye)
    );
}

#[test]
fn failures_end_the_run() {
    let mut c = Controller::new();
    c.handle(Event::Started);
    c.handle(Event::Cleared);
    c.handle(Event::BannerShown { now: 0 });
    assert_eq!(c.handle(Event::Tick { now: 300, signal: Signal::Pending }), Action::Render);
    assert_eq!(c.handle(Event::Failed), Action::Exit(1));
    assert_eq!(c.phase, Phase::Stopped);
    let mut c = Controller::new();
    assert_eq!(c.handle(Event::Failed), Action::Exit(1));
}
