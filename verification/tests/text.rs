use airtouch5_webui::manager::snapshot::Temperature;
use airtouch5_webui::manager::values::{
    accept_setpoint, clamp_setpoint, parse_airflow, parse_setpoint,
};
use airtouch5_webui::text;

#[test]
fn character_classes_are_those_of_std() {
    for code in 0..=0x10ffffu32 {
        if let Some(c) = char::from_u32(code) {
            assert_eq!(text::is_whitespace(c), c.is_whitespace(), "{:x}", code);
            assert_eq!(text::is_control(c), c.is_control(), "{:x}", code);
        }
    }
}

#[test]
fn words_lines_and_pieces_are_those_of_std() {
    for s in ["", "a", " a b ", "a\r\nb\n", "a\n\nb", "\r", "a\r", "x\u{2003}y", "\n"] {
        assert_eq!(text::words(s), s.split_whitespace().collect::<Vec<_>>());
        assert_eq!(text::lines(s), s.lines().collect::<Vec<_>>());
        assert_eq!(text::split(s, '\n'), s.split('\n').collect::<Vec<_>>());
    }
}

#[test]
fn decimal_is_that_of_std() {
    for n in [0, 1, 9, 10, 99, 100, 255, 65535, u64::MAX] {
        assert_eq!(text::decimal(n), n.to_string());
    }
}

#[test]
fn order_is_that_of_std() {
    let list = ["", "a", "ab", "b", "ac-1", "zone-1", "<keep-alive>", "\u{e9}"];
    for a in list {
        for b in list {
            assert_eq!(text::before(a, b), a < b);
        }
    }
}

#[test]
fn padding_is_that_of_std() {
    assert_eq!(text::pad_right("ab", 5), format!("{:<5}", "ab"));
    assert_eq!(text::pad_right("abcdef", 5), format!("{:<5}", "abcdef"));
    assert_eq!(text::pad_left("\u{e9}", 5), format!("{:>5}", "\u{e9}"));
}

#[test]
fn airflow_percentages() {
    assert_eq!(parse_airflow("0").unwrap(), 0);
    assert_eq!(parse_airflow("100").unwrap(), 100);
    assert_eq!(parse_airflow("+5").unwrap(), 5);
    assert_eq!(parse_airflow("007").unwrap(), 7);
    for bad in ["", "+", "101", "-1", "5%", " 5", "1000000000000000000000", "5.0"] {
        let e = parse_airflow(bad).unwrap_err();
        assert_eq!(e.message, format!("invalid airflow: {:?}", bad));
        assert_eq!(e.status(), 422);
    }
}

#[test]
fn airflow_is_read_as_std_reads_it() {
    for n in 0..=300u32 {
        let s = n.to_string();
        let std = s.parse::<u8>().ok().filter(|n| *n <= 100);
        assert_eq!(parse_airflow(&s).ok(), std);
    }
}

#[test]
fn every_tenth_is_a_setpoint() {
    for deci in 0..10000i16 {
        let s = format!("{}.{}", deci / 10, deci % 10);
        let read = parse_setpoint(&s);
        let degrees = s.parse::<f32>().unwrap();
        assert_eq!(airtouch5::types::Temperature::from_float(degrees).as_deci(), deci);
        if (100..=250).contains(&deci) {
            assert_eq!(read, Ok(Temperature { deci }));
        } else {
            assert!(read.is_err());
        }
        if deci % 10 == 0 {
            assert_eq!(parse_setpoint(&(deci / 10).to_string()), read_whole(deci));
        }
    }
}

fn read_whole(
    deci: i16,
) -> Result<Temperature, airtouch5_webui::web::error::AppError> {
    accept_setpoint(&(deci / 10).to_string(), Some(deci))
}

#[test]
fn setpoints_are_rounded_as_the_console_library_rounds() {
    for s in ["22.25", "22.349", "1e1", "  21", "nan", "inf", "abc", "", "24.96", "-5"] {
        let expected = s
            .parse::<f32>()
            .ok()
            .map(|d| airtouch5::types::Temperature::from_float(d).as_deci())
            .filter(|d| (100..=250).contains(d));
        assert_eq!(parse_setpoint(s).ok().map(|t| t.deci), expected, "{}", s);
    }
    assert_eq!(parse_setpoint("23.471").unwrap(), Temperature { deci: 235 });
}

#[test]
fn setpoints_out_of_range_are_refused() {
    assert_eq!(accept_setpoint("9.9", Some(99)).unwrap_err().message, "invalid setpoint: \"9.9\"");
    assert_eq!(accept_setpoint("10", Some(100)), Ok(Temperature { deci: 100 }));
    assert_eq!(accept_setpoint("25", Some(250)), Ok(Temperature { deci: 250 }));
    assert!(accept_setpoint("25.1", Some(251)).is_err());
    assert!(accept_setpoint("x", None).is_err());
}

#[test]
fn setpoints_are_clamped() {
    for (deci, expected) in [(-300, 100), (99, 100), (100, 100), (215, 215), (250, 250), (999, 250)] {
        assert_eq!(clamp_setpoint(Temperature { deci }), Temperature { deci: expected });
    }
}
