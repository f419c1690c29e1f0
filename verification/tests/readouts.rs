use rwmstatus::number::{parse_i64, parse_u64};
use rwmstatus::text::{chars_of, is_space, string_of, trim};
use rwmstatus::{
    fragment_of, get_batt, get_load_avgs, get_temp, BatteryFiles, LoadSample, NumError,
    StatusError,
};

fn read(text: &str) -> Result<String, String> {
    Ok(text.to_string())
}

fn unreadable(message: &str) -> Result<String, String> {
    Err(message.to_string())
}

fn battery(present: &str, full: &str, now: &str, status: &str) -> BatteryFiles {
    BatteryFiles {
        present: read(present),
        charge_full_design: read(full),
        energy_full_design: unreadable("no energy_full_design"),
        charge_now: read(now),
        energy_now: unreadable("no energy_now"),
        status: read(status),
    }
}

#[test]
fn temperature_of_45000_is_45_degrees() {
    assert_eq!(get_temp(&read("45000")), Ok("45\u{b0}C".to_string()));
    assert_eq!(get_temp(&read("45000\n")), Ok("45\u{b0}C".to_string()));
}

#[test]
fn temperature_has_two_digits_at_least() {
    assert_eq!(get_temp(&read("5000\n")), Ok("05\u{b0}C".to_string()));
    assert_eq!(get_temp(&read("0")), Ok("00\u{b0}C".to_string()));
    assert_eq!(get_temp(&read("999")), Ok("00\u{b0}C".to_string()));
    assert_eq!(get_temp(&read("123456")), Ok("123\u{b0}C".to_string()));
    assert_eq!(get_temp(&read("  +7999 \t\n")), Ok("07\u{b0}C".to_string()));
}

#[test]
fn temperature_below_zero_rounds_toward_zero() {
    assert_eq!(get_temp(&read("-500")), Ok("00\u{b0}C".to_string()));
    assert_eq!(get_temp(&read("-5000")), Ok("-5\u{b0}C".to_string()));
    assert_eq!(get_temp(&read("-5999")), Ok("-5\u{b0}C".to_string()));
    assert_eq!(get_temp(&read("-12000")), Ok("-12\u{b0}C".to_string()));
    assert_eq!(
        get_temp(&read("-9223372036854775808")),
        Ok("-9223372036854775\u{b0}C".to_string())
    );
    assert_eq!(
        get_temp(&read("9223372036854775807")),
        Ok("9223372036854775\u{b0}C".to_string())
    );
}

#[test]
fn temperature_agrees_with_std_formatting() {
    for v in [-1_000_000i64, -99_999, -10_000, -1001, -1000, -999, -1, 0, 1, 999, 1000, 9999, 10_000, 99_999, 100_000] {
        let expected = format!("{:02}\u{b0}C", v / 1000);
        assert_eq!(get_temp(&read(&v.to_string())), Ok(expected));
    }
}

#[test]
fn temperature_errors() {
    assert_eq!(
        get_temp(&unreadable("No such file or directory (os error 2)")),
        Err(StatusError::Io("No such file or directory (os error 2)".to_string()))
    );
    assert_eq!(get_temp(&read("")), Err(StatusError::ParseNum(NumError::Empty)));
    assert_eq!(get_temp(&read("  \n")), Err(StatusError::ParseNum(NumError::Empty)));
    assert_eq!(get_temp(&read("warm")), Err(StatusError::ParseNum(NumError::InvalidDigit)));
    assert_eq!(get_temp(&read("45 000")), Err(StatusError::ParseNum(NumError::InvalidDigit)));
    assert_eq!(get_temp(&read("-")), Err(StatusError::ParseNum(NumError::InvalidDigit)));
    assert_eq!(
        get_temp(&read("9223372036854775808")),
        Err(StatusError::ParseNum(NumError::PosOverflow))
    );
    assert_eq!(
        get_temp(&read("-9223372036854775809")),
        Err(StatusError::ParseNum(NumError::NegOverflow))
    );
}

fn std_kind(kind: &std::num::IntErrorKind) -> NumError {
    match kind {
        std::num::IntErrorKind::Empty => NumError::Empty,
        std::num::IntErrorKind::InvalidDigit => NumError::InvalidDigit,
        std::num::IntErrorKind::PosOverflow => NumError::PosOverflow,
        std::num::IntErrorKind::NegOverflow => NumError::NegOverflow,
        other => panic!("unexpected kind {:?}", other),
    }
}

const NUMBER_TEXTS: [&str; 40] = [
    "", "0", "7", "+7", "-7", "+", "-", "++1", "--1", "+-1", "-+1", "00012", "-00012", "-0", "+0",
    "12a", "a12", "1 2", " 12", "12 ", "1_000", "0x10", "1e3", "1.5", "\u{664}",
    "9223372036854775807", "9223372036854775808", "-9223372036854775808",
    "-9223372036854775809", "18446744073709551615", "18446744073709551616",
    "99999999999999999999", "-99999999999999999999", "99999999999999999999x",
    "9x9999999999999999999", "-99999999999999999999x", "00000000000000000000000000001",
    "18446744073709551615x", "1844674407370955161x", "+18446744073709551615",
];

#[test]
fn parse_i64_agrees_with_std() {
    for text in NUMBER_TEXTS {
        let ours = parse_i64(&chars_of(text));
        match text.parse::<i64>() {
            Ok(n) => assert_eq!(ours, Ok(n), "{:?}", text),
            Err(e) => assert_eq!(ours, Err(std_kind(e.kind())), "{:?}", text),
        }
    }
}

#[test]
fn parse_u64_agrees_with_std() {
    for text in NUMBER_TEXTS {
        let ours = parse_u64(&chars_of(text));
        match text.parse::<u64>() {
            Ok(n) => assert_eq!(ours, Ok(n), "{:?}", text),
            Err(e) => assert_eq!(ours, Err(std_kind(e.kind())), "{:?}", text),
        }
    }
}

#[test]
fn number_error_words_are_those_of_std() {
    for text in ["", "x", "99999999999999999999", "-99999999999999999999"] {
        let theirs = text.parse::<i64>().unwrap_err();
        let ours = parse_i64(&chars_of(text)).unwrap_err();
        assert_eq!(ours.describe(), theirs.to_string());
        assert_eq!(StatusError::ParseNum(ours).to_text(), theirs.to_string());
    }
}

#[test]
fn whitespace_is_that_of_std() {
    for code in 0..=0x10ffffu32 {
        if let Some(c) = char::from_u32(code) {
            assert_eq!(is_space(c), c.is_whitespace(), "U+{:04X}", code);
        }
    }
}

#[test]
fn trim_is_that_of_std() {
    for text in ["", " ", "a", " a", "a ", "  a b  ", "\n\t45000\r\n", "\u{a0}x\u{3000}", " \u{200b} ", "\u{2028}\u{2029}"] {
        assert_eq!(string_of(&trim(&chars_of(text))), text.trim(), "{:?}", text);
    }
}

#[test]
fn chars_and_strings_round_trip() {
    for text in ["", "a", "45\u{b0}C", "\u{1f50b} 50%"] {
        let chars = chars_of(text);
        assert_eq!(chars, text.chars().collect::<Vec<char>>());
        assert_eq!(string_of(&chars), text);
    }
}

#[test]
fn battery_half_full_and_discharging() {
    let files = BatteryFiles {
        present: read("1"),
        charge_full_design: read("2000"),
        energy_full_design: unreadable("missing"),
        charge_now: read("1000"),
        energy_now: unreadable("missing"),
        status: read("Discharging"),
    };
    assert_eq!(get_batt("/sys/class/power_supply/BAT0", &files), Ok("50%-".to_string()));
}

#[test]
fn battery_files_are_trimmed() {
    let files = battery("1\n", "2000\n", "1000\n", "Discharging\n");
    assert_eq!(get_batt("BAT0", &files), Ok("50%-".to_string()));
}

#[test]
fn battery_not_present() {
    for flag in ["0", "0\n", "", "no", " 1", "01"] {
        let files = battery(flag, "2000", "1000", "Full");
        let r = get_batt("/sys/class/power_supply/BAT1", &files);
        assert_eq!(
            r,
            Err(StatusError::NotPresent("/sys/class/power_supply/BAT1".to_string())),
            "{:?}",
            flag
        );
        assert_eq!(fragment_of(r), "not present");
    }
}

#[test]
fn battery_not_present_whatever_the_other_files_hold() {
    let files = BatteryFiles {
        present: read("0"),
        charge_full_design: unreadable("a"),
        energy_full_design: read("junk"),
        charge_now: read(""),
        energy_now: unreadable("b"),
        status: unreadable("c"),
    };
    let r = get_batt("BAT7", &files);
    assert_eq!(r, Err(StatusError::NotPresent("BAT7".to_string())));
    assert_eq!(fragment_of(r), "not present");
}

#[test]
fn battery_presence_unreadable() {
    let mut files = battery("1", "2000", "1000", "Full");
    files.present = unreadable("Permission denied (os error 13)");
    let r = get_batt("BAT0", &files);
    assert_eq!(r, Err(StatusError::Io("Permission denied (os error 13)".to_string())));
    assert_eq!(fragment_of(r), "");
}

#[test]
fn battery_present_flag_needs_only_a_leading_one() {
    let files = battery("1 yes", "200", "100", "Full");
    assert_eq!(get_batt("BAT0", &files), Ok("50%F".to_string()));
    let files = battery("10", "200", "100", "Full");
    assert_eq!(get_batt("BAT0", &files), Ok("50%F".to_string()));
}

#[test]
fn battery_falls_back_to_energy() {
    let files = BatteryFiles {
        present: read("1"),
        charge_full_design: unreadable("no charge_full_design"),
        energy_full_design: read("50000\n"),
        charge_now: unreadable("no charge_now"),
        energy_now: read("12500\n"),
        status: read("Charging\n"),
    };
    assert_eq!(get_batt("BAT0", &files), Ok("25%+".to_string()));
}

#[test]
fn battery_prefers_charge_even_if_it_is_no_number() {
    let files = BatteryFiles {
        present: read("1"),
        charge_full_design: read("lots"),
        energy_full_design: read("50000"),
        charge_now: read("1"),
        energy_now: read("1"),
        status: read("Full"),
    };
    assert_eq!(get_batt("BAT0", &files), Err(StatusError::ParseNum(NumError::InvalidDigit)));
}

#[test]
fn battery_capacity_unreadable() {
    let files = BatteryFiles {
        present: read("1"),
        charge_full_design: unreadable("first"),
        energy_full_design: unreadable("second"),
        charge_now: read("1"),
        energy_now: read("1"),
        status: read("Full"),
    };
    let r = get_batt("BAT0", &files);
    assert_eq!(r, Err(StatusError::Io("second".to_string())));
    assert_eq!(fragment_of(r), "");
    let files = BatteryFiles {
        present: read("1"),
        charge_full_design: read("100"),
        energy_full_design: unreadable("second"),
        charge_now: unreadable("third"),
        energy_now: unreadable("fourth"),
        status: read("Full"),
    };
    assert_eq!(get_batt("BAT0", &files), Err(StatusError::Io("fourth".to_string())));
}

#[test]
fn battery_capacity_no_number() {
    let files = battery("1", "100", "-5", "Full");
    assert_eq!(get_batt("BAT0", &files), Err(StatusError::ParseNum(NumError::InvalidDigit)));
    let files = battery("1", "", "5", "Full");
    assert_eq!(get_batt("BAT0", &files), Err(StatusError::ParseNum(NumError::Empty)));
    let files = battery("1", "100", "18446744073709551616", "Full");
    assert_eq!(get_batt("BAT0", &files), Err(StatusError::ParseNum(NumError::PosOverflow)));
}

#[test]
fn battery_status_characters() {
    assert_eq!(get_batt("B", &battery("1", "100", "100", "Full")), Ok("100%F".to_string()));
    assert_eq!(get_batt("B", &battery("1", "100", "40", "Discharging")), Ok("40%-".to_string()));
    assert_eq!(get_batt("B", &battery("1", "100", "40", " Charging\n")), Ok("40%+".to_string()));
    for word in ["Unknown", "Not charging", "full", "FULL", "", "Fully", "Charging now"] {
        assert_eq!(get_batt("B", &battery("1", "100", "40", word)), Ok("40%?".to_string()));
    }
    let mut files = battery("1", "100", "40", "Full");
    files.status = unreadable("gone");
    assert_eq!(get_batt("B", &files), Ok("40%?".to_string()));
}

#[test]
fn battery_full_is_a_hundred_percent() {
    for capacity in ["1", "3", "2000", "4321000", "18446744073709551615"] {
        for (word, c) in [("Full", 'F'), ("Charging", '+'), ("Discharging", '-'), ("what", '?')] {
            let files = battery("1", capacity, capacity, word);
            assert_eq!(get_batt("B", &files), Ok(format!("100%{}", c)));
        }
    }
}

#[test]
fn battery_percentage_is_not_clamped() {
    assert_eq!(get_batt("B", &battery("1", "2000", "2100", "Full")), Ok("105%F".to_string()));
    assert_eq!(get_batt("B", &battery("1", "1", "3", "Full")), Ok("300%F".to_string()));
    assert_eq!(
        get_batt("B", &battery("1", "1", "18446744073709551615", "Full")),
        Ok("1844674407370955161500%F".to_string())
    );
}

#[test]
fn battery_percentage_rounds_to_nearest() {
    assert_eq!(get_batt("B", &battery("1", "3", "1", "Full")), Ok("33%F".to_string()));
    assert_eq!(get_batt("B", &battery("1", "3", "2", "Full")), Ok("67%F".to_string()));
    assert_eq!(get_batt("B", &battery("1", "1000", "994", "Full")), Ok("99%F".to_string()));
    assert_eq!(get_batt("B", &battery("1", "1000", "996", "Full")), Ok("100%F".to_string()));
    assert_eq!(get_batt("B", &battery("1", "1000", "4", "Full")), Ok("0%F".to_string()));
    assert_eq!(get_batt("B", &battery("1", "1000", "0", "Full")), Ok("0%F".to_string()));
}

#[test]
fn battery_percentage_ties_go_to_even() {
    assert_eq!(get_batt("B", &battery("1", "8", "1", "Full")), Ok("12%F".to_string()));
    assert_eq!(get_batt("B", &battery("1", "8", "3", "Full")), Ok("38%F".to_string()));
    assert_eq!(get_batt("B", &battery("1", "200", "1", "Full")), Ok("0%F".to_string()));
    assert_eq!(get_batt("B", &battery("1", "200", "3", "Full")), Ok("2%F".to_string()));
    assert_eq!(get_batt("B", &battery("1", "200", "5", "Full")), Ok("2%F".to_string()));
}

#[test]
fn battery_empty_capacity() {
    assert_eq!(get_batt("B", &battery("1", "0", "5", "Full")), Ok("inf%F".to_string()));
    assert_eq!(get_batt("B", &battery("1", "0", "0", "Charging")), Ok("NaN%+".to_string()));
    assert_eq!(format!("{:.0}", 5.0f64 / 0.0f64 * 100.0), "inf");
    assert_eq!(format!("{:.0}", 0.0f64 / 0.0f64 * 100.0), "NaN");
}

#[test]
fn battery_percentage_agrees_with_floating_point() {
    // Off the exact ties, where binary fractions fall to either side, the
    // exact quotient and the one computed in floating point round alike.
    let mut differing: Vec<(u64, u64)> = Vec::new();
    for full in 1..=120u64 {
        for now in 0..=150u64 {
            let tie = (200 * now) % full == 0 && (100 * now) % full != 0;
            let floating = format!("{:.0}%F", (now as f64) / (full as f64) * 100.0);
            let ours = get_batt("B", &battery("1", &full.to_string(), &now.to_string(), "Full"));
            if !tie && ours != Ok(floating) {
                differing.push((now, full));
            }
        }
    }
    assert_eq!(differing, Vec::<(u64, u64)>::new());
}

#[test]
fn battery_percentage_on_a_tie_is_exact() {
    // 23 of 40 is 57.5 percent: the even neighbour is 58.
    assert_eq!(get_batt("B", &battery("1", "40", "23", "Full")), Ok("58%F".to_string()));
    // 49 of 40 is 122.5 percent: the even neighbour is 122.
    assert_eq!(get_batt("B", &battery("1", "40", "49", "Full")), Ok("122%F".to_string()));
    assert_eq!(format!("{:.0}", 0.125f64 * 100.0), "12");
    assert_eq!(format!("{:.0}", 0.375f64 * 100.0), "38");
}

#[test]
fn load_averages() {
    let sample = LoadSample { rc: 3, one: 12, five: 345, fifteen: 5 };
    assert_eq!(get_load_avgs(&sample), Ok("0.12 3.45 0.05".to_string()));
    let sample = LoadSample { rc: 3, one: 0, five: 100, fifteen: 123456 };
    assert_eq!(get_load_avgs(&sample), Ok("0.00 1.00 1234.56".to_string()));
    let sample = LoadSample { rc: 0, one: 1, five: 10, fifteen: 99 };
    assert_eq!(get_load_avgs(&sample), Ok("0.01 0.10 0.99".to_string()));
}

#[test]
fn load_averages_agree_with_floating_point() {
    for h in (0..3000u64).chain([9999, 10000, 123456, 99999999]) {
        let sample = LoadSample { rc: 3, one: h, five: h, fifteen: h };
        let one = format!("{:.2}", h as f64 / 100.0);
        assert_eq!(get_load_avgs(&sample), Ok(format!("{} {} {}", one, one, one)));
    }
}

#[test]
fn load_query_failed() {
    let sample = LoadSample { rc: -1, one: 12, five: 34, fifteen: 56 };
    let r = get_load_avgs(&sample);
    assert_eq!(r, Err(StatusError::System(-1)));
    assert_eq!(fragment_of(r), "");
    let sample = LoadSample { rc: i32::MIN, one: 0, five: 0, fifteen: 0 };
    assert_eq!(get_load_avgs(&sample), Err(StatusError::System(i32::MIN)));
}

#[test]
fn error_texts() {
    assert_eq!(StatusError::Io("gone".to_string()).to_text(), "gone");
    assert_eq!(StatusError::Io("gone".to_string()).description(), "gone");
    assert_eq!(
        StatusError::ParseNum(NumError::InvalidDigit).to_text(),
        "invalid digit found in string"
    );
    assert_eq!(
        StatusError::ParseNum(NumError::Empty).description(),
        "cannot parse integer from empty string"
    );
    assert_eq!(StatusError::ParseTz("'X' is not a valid timezone".to_string()).to_text(), "'X' is not a valid timezone");
    assert_eq!(StatusError::ParseTz("x".to_string()).description(), "Invalid timezone");
    assert_eq!(StatusError::NotPresent("/sys/BAT0".to_string()).to_text(), "/sys/BAT0 not present");
    assert_eq!(StatusError::NotPresent("/sys/BAT0".to_string()).description(), "Device not present");
    assert_eq!(StatusError::System(-1).to_text(), "System call returned -1");
    assert_eq!(StatusError::System(0).to_text(), "System call returned 0");
    assert_eq!(StatusError::System(i32::MIN).to_text(), "System call returned -2147483648");
    assert_eq!(StatusError::System(i32::MAX).to_text(), "System call returned 2147483647");
    assert_eq!(StatusError::System(-1).description(), "System call returned error");
    assert_eq!(StatusError::Format("%Q".to_string()).to_text(), "cannot write the time as %Q");
    assert_eq!(StatusError::Format("%Q".to_string()).description(), "Invalid time format");
}

#[test]
fn fragments_of_results() {
    assert_eq!(fragment_of(Ok("45\u{b0}C".to_string())), "45\u{b0}C");
    assert_eq!(fragment_of(Err(StatusError::Io("x".to_string()))), "");
    assert_eq!(fragment_of(Err(StatusError::ParseNum(NumError::Empty))), "");
    assert_eq!(fragment_of(Err(StatusError::ParseTz("x".to_string()))), "");
    assert_eq!(fragment_of(Err(StatusError::System(-1))), "");
    assert_eq!(fragment_of(Err(StatusError::Format("x".to_string()))), "");
    assert_eq!(fragment_of(Err(StatusError::NotPresent("x".to_string()))), "not present");
}
