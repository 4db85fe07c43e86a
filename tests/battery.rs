use rs_blocks::battery::{
    minutes_to_string, wrap_in_colour, BatteryState, Remaining, Status, SYMBOL_HALF,
};
use rs_blocks::ema::Ema;
use rs_blocks::error::Error;

// Times are in milliseconds: 302.2 minutes is 18_132_000 ms.
#[test]
fn minutes_to_string_works() {
    assert_eq!(minutes_to_string(18_132_000), "5h02m");
    assert_eq!(minutes_to_string(18_162_000), "5h03m");
    assert_eq!(minutes_to_string(3_600_000), "1h00m");
    assert_eq!(minutes_to_string(3_599_400), "1h00m");
    assert_eq!(minutes_to_string(3_630_000), "1h01m");
    assert_eq!(minutes_to_string(3_629_994), "1h00m");
    assert_eq!(minutes_to_string(2_370_000), "0h40m");
}

#[test]
fn minutes_to_string_edges() {
    assert_eq!(minutes_to_string(0), "0h00m");
    assert_eq!(minutes_to_string(3_569_999), "0h59m");
    assert_eq!(minutes_to_string(3_570_000), "1h00m");
    assert_eq!(minutes_to_string(36_000_000 * 10), "100h00m");
}

// A fraction of 1.0 is a charge of 1 out of 1, and 0.01 is 1 out of 100.
#[test]
fn test_wrap_in_colour() {
    let result = wrap_in_colour("a", 1, 1);
    assert_eq!(result, "<span foreground=\'#00ff00\'>a</span>");

    let result = wrap_in_colour("a", 1, 100);
    assert_eq!(result, "<span foreground=\'#ff0500\'>a</span>");
}

#[test]
fn wrap_in_colour_half_and_over_full() {
    assert_eq!(wrap_in_colour("b", 1, 2), "<span foreground='#ffff00'>b</span>");
    assert_eq!(wrap_in_colour("b", 3, 2), "<span foreground='#00ff00'>b</span>");
    assert_eq!(wrap_in_colour("b", 0, 2), "<span foreground='#ff0000'>b</span>");
}

#[test]
fn changing_remaining() {
    let mut remaining = Remaining::new(500);
    assert_eq!(remaining, Remaining::Calculating(500));
    remaining.push(60_000);
    let mut expected_ema = Ema::new(500);
    expected_ema.push(60_000);
    assert_eq!(remaining, Remaining::Minutes(expected_ema));
}

// A charge of 1 moving by 1 in a minute empties in one minute.
#[test]
fn changing_status() {
    let mut status = Status::try_from("Discharging", 500).unwrap();
    match status {
        Status::Discharging(rem) => assert_eq!(rem, Remaining::Calculating(500)),
        _ => panic!("should not get here"),
    }
    status.push(1, 1, 1, 60_000);
    let mut expected_ema = Ema::new(500);
    expected_ema.push(60_000);
    match status {
        Status::Discharging(rem) => assert_eq!(rem, Remaining::Minutes(expected_ema)),
        _ => panic!("should not get here"),
    }
}

#[test]
fn status_names_and_white_space() {
    assert_eq!(Status::try_from("Charging\n", 100).unwrap(), Status::Charging(Remaining::Calculating(100)));
    assert_eq!(Status::try_from("  Full ", 100).unwrap(), Status::Full);
    assert_eq!(Status::try_from("Not charging\n", 100).unwrap(), Status::NotCharging);
    assert_eq!(Status::try_from("Unknown", 100).unwrap(), Status::Unknown);
    assert!(matches!(Status::try_from("", 100), Err(Error::Parse { name: "Battery", .. })));
    assert!(matches!(Status::try_from("full", 100), Err(Error::Parse { name: "Battery", .. })));
}

#[test]
fn charging_gap_estimate() {
    let mut status = Status::try_from("Charging", 1000).unwrap();
    // 100 short of full, moving 10 in a minute: ten minutes
    status.push(1000, 900, 10, 60_000);
    assert_eq!(status.text(), "0h10m");
}

#[test]
fn battery_text_at_start() {
    let st = BatteryState::new("1000\n", "500\n", "Discharging\n", 100, 0).unwrap();
    let expected = format!("<span foreground='#ffff00'>{}</span> 50% (...)", SYMBOL_HALF);
    assert_eq!(st.text(), expected);
}

#[test]
fn battery_setup_errors() {
    assert!(matches!(BatteryState::new("0", "5", "Full", 100, 0), Err(Error::Parse { .. })));
    assert!(matches!(BatteryState::new("x", "5", "Full", 100, 0), Err(Error::Parse { .. })));
    assert!(matches!(BatteryState::new("10", "5", "Weird", 100, 0), Err(Error::Parse { .. })));
}

#[test]
fn battery_estimate_from_two_readings() {
    let mut st = BatteryState::new("1000", "500", "Discharging", 1000, 0).unwrap();
    let first = st.on_charge(Ok("490\n"), 60_000).unwrap();
    assert!(first.ends_with(" 49% (...)"));
    // 10 gone in a minute, 480 left: 48 minutes
    let second = st.on_charge(Ok("480\n"), 120_000).unwrap();
    assert!(second.ends_with(" 48% (0h48m)"), "{second}");
}

#[test]
fn malformed_status_is_a_parse_error_and_next_tick_recovers() {
    let mut st = BatteryState::new("1000", "1000", "Full", 100, 0).unwrap();
    let bad = st.on_status(Ok("Weird\n"), 10);
    match bad {
        Err(Error::Parse { name, reason }) => {
            assert_eq!(name, "Battery");
            assert_eq!(reason, "Unknown battery status 'Weird'");
        }
        _ => panic!("a status that names no state is a parse error"),
    }
    assert_eq!(
        bad_status_message(),
        "error while parsing 'Battery': Unknown battery status 'Weird'"
    );
    let good = st.on_status(Ok("Discharging\n"), 20).unwrap();
    assert!(good.ends_with(" 100% (...)"), "{good}");
    let read_error = st.on_charge(Err(Error::Io("gone".to_string())), 30);
    assert_eq!(read_error, Err(Error::Io("gone".to_string())));
    let charge = st.on_charge(Ok("999"), 40).unwrap();
    assert!(charge.ends_with(" 100% (...)"), "{charge}");
}

fn bad_status_message() -> String {
    match Status::try_from(" Weird ", 500) {
        Err(e) => e.message(),
        Ok(_) => panic!("should not get here"),
    }
}

#[test]
fn status_text_is_trimmed_like_str_trim() {
    assert_eq!(Status::try_from("\u{a0}Full\u{3000}", 100).unwrap(), Status::Full);
}
