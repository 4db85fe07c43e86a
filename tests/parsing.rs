use rs_blocks::blocks::{validated_alpha, validated_period, BlockKind};
use rs_blocks::brightness::{validated_max_brightness, Brightness};
use rs_blocks::cpu::{parse_cpu_stats, CpuStats};
use rs_blocks::error::Error;
use rs_blocks::memory::{parse_mem_stats, MemState, MemStats};
use rs_blocks::network::NetworkState;
use rs_blocks::parse::parse_number;
use rs_blocks::volume::{parse_volume, parse_volume_level, volume_on_output, VolumeLevel, VolumeStats};

#[test]
fn volume_parser() {
    assert_eq!(parse_volume_level(b"0\n70 70\n"), Ok(VolumeLevel::Value(70)));
    assert_eq!(parse_volume_level(b"1\n70 70\n"), Ok(VolumeLevel::Mute));
}

#[test]
fn volume_text_and_errors() {
    assert_eq!(volume_on_output(true, b"0\n70 70\n"), Ok("\u{f028}   70%".to_string()));
    assert_eq!(volume_on_output(true, b"1\n70 70\n"), Ok("\u{f026}".to_string()));
    assert!(matches!(volume_on_output(false, b"0\n70 70\n"), Err(Error::Parse { name: "Volume", .. })));
    assert!(matches!(parse_volume(b"no numbers"), Err(Error::Parse { name: "Volume", .. })));
    assert!(matches!(parse_volume(b"0\n300\n"), Err(Error::Parse { name: "Volume", .. })));
    assert_eq!(parse_volume(b"x 0\n5"), Ok(VolumeStats { mute: 0, level: 5 }));
}

#[test]
fn cpu_line_is_read() {
    let text = b"cpu  10 20 30 40 50 60 70 80 90 100\ncpu0 1 2 3 4 5 6 7 8 9 10\n";
    let st = parse_cpu_stats(text).unwrap();
    assert_eq!(
        st,
        CpuStats { user: 10, nice: 20, system: 30, idle: 40, iowait: 50, irq: 60, softirq: 70, steal: 80 }
    );
    assert_eq!(st.total(), 360);
}

#[test]
fn cpu_errors() {
    assert!(matches!(parse_cpu_stats(b"nothing here"), Err(Error::Parse { name: "Cpu", .. })));
    assert!(matches!(parse_cpu_stats(b"cpu 1 2 3"), Err(Error::Parse { name: "Cpu", .. })));
    assert!(matches!(
        parse_cpu_stats(b"cpu 99999999999999999999 1 1 1 1 1 1 1"),
        Err(Error::Parse { name: "Cpu", .. })
    ));
}

#[test]
fn equal_totals_give_no_percent() {
    let a = CpuStats { user: 1, nice: 2, system: 3, idle: 4, iowait: 5, irq: 6, softirq: 7, steal: 8 };
    let b = CpuStats { user: 8, nice: 7, system: 6, idle: 5, iowait: 4, irq: 3, softirq: 2, steal: 1 };
    assert_eq!(a.percent(a), None);
    assert_eq!(b.percent(a), None);
}

#[test]
fn cpu_percent_value() {
    let a = CpuStats { user: 1, nice: 0, system: 0, idle: 5, iowait: 0, irq: 0, softirq: 0, steal: 0 };
    let b = CpuStats { user: 3, nice: 0, system: 0, idle: 7, iowait: 0, irq: 0, softirq: 0, steal: 0 };
    assert_eq!(b.percent(a), Some(500));
    let c = CpuStats { user: 3, nice: 0, system: 0, idle: 6, iowait: 1, irq: 0, softirq: 0, steal: 1 };
    assert_eq!(c.percent(a), Some(600));
    // counters reset: both went back, by 4 ticks of which 2 busy
    assert_eq!(a.percent(b), Some(500));
    // the total grew but the busy ticks went back: a negative share shows as zero
    let e = CpuStats { user: 2, nice: 0, system: 0, idle: 10, iowait: 0, irq: 0, softirq: 0, steal: 0 };
    assert_eq!(e.percent(b), Some(0));
}

#[test]
fn memory_is_read() {
    let text = b"MemTotal:       16000 kB\nMemFree:         4000 kB\nMemAvailable:   8000 kB\n";
    assert_eq!(parse_mem_stats(text), Ok(MemStats { total: 16000, free: 4000 }));
    assert_eq!(MemStats { total: 16000, free: 4000 }.percent(), Some(750));
    assert_eq!(MemStats { total: 0, free: 0 }.percent(), None);
    assert_eq!(MemStats { total: 10, free: 20 }.percent(), Some(0));
    let mut st = MemState::new(1000);
    assert_eq!(st.on_read(text), Ok("\u{f538} 75.0%".to_string()));
    assert!(matches!(st.on_read(b"MemTotal: 5 kB"), Err(Error::Parse { name: "Memory", .. })));
}

#[test]
fn numbers_are_read() {
    assert_eq!(parse_number("Battery", " 42\n"), Ok(42));
    assert!(matches!(parse_number("Battery", "4x"), Err(Error::Parse { name: "Battery", .. })));
    assert!(matches!(parse_number("Battery", ""), Err(Error::Parse { .. })));
    assert!(matches!(parse_number("Battery", "99999999999999999999999"), Err(Error::Parse { .. })));
    assert_eq!(parse_number("Battery", "18446744073709551615"), Ok(u64::MAX));
    assert_eq!(parse_number("Battery", "+7"), Ok(7));
    assert_eq!(parse_number("Battery", "\u{2003}12\u{a0}"), Ok(12));
    assert!(matches!(parse_number("Battery", "+"), Err(Error::Parse { .. })));
    assert!(matches!(parse_number("Battery", "-7"), Err(Error::Parse { .. })));
    assert!(matches!(parse_number("Battery", "1 2"), Err(Error::Parse { .. })));
}

#[test]
fn block_names() {
    assert_eq!(BlockKind::from_name("Cpu"), Ok(BlockKind::Cpu));
    assert_eq!(BlockKind::from_name("Volume"), Ok(BlockKind::Volume));
    assert_eq!(BlockKind::from_name("Foo"), Err(Error::InvalidBlockName("Foo".to_string())));
    assert_eq!(BlockKind::Battery.get_markup(), Some("pango"));
    assert_eq!(BlockKind::Cpu.get_markup(), None);
}

#[test]
fn network_speed() {
    let mut st = NetworkState::new(1000, "0", "0").unwrap();
    let text = st.on_read("10240\n", "2048\n").unwrap();
    assert_eq!(
        text,
        "<span foreground='#ccffcc'>\u{f0ab}  10.0</span> <span foreground='#ffcccc'>\u{f0aa}  2.0</span>"
    );
    let text = st.on_read("0", "2048").unwrap();
    assert!(text.contains("\u{f0ab}  0.0<"));
}

#[test]
fn brightness_percent() {
    let b = Brightness {
        period: 2000,
        update_signal: 10,
        path_to_current_brightness: String::new(),
        max_brightness: 1000,
    };
    assert_eq!(b.on_read("500\n"), Ok("\u{f042}  50%".to_string()));
    assert!(matches!(b.on_read("bright"), Err(Error::Parse { name: "Brightness", .. })));
    assert_eq!(validated_max_brightness(100), Ok(100));
    assert!(matches!(validated_max_brightness(50), Err(Error::Deserialize { name: "Brightness", .. })));
}

#[test]
fn configured_values_are_checked() {
    assert_eq!(validated_alpha("Cpu", 100_000), Ok(100));
    assert_eq!(validated_alpha("Cpu", 1_000_000), Ok(1000));
    assert_eq!(validated_alpha("Cpu", 50_499), Ok(50));
    assert_eq!(validated_alpha("Cpu", 400), Ok(1));
    assert!(matches!(validated_alpha("Cpu", 0), Err(Error::Deserialize { name: "Cpu", .. })));
    assert!(matches!(validated_alpha("Cpu", 1_000_400), Err(Error::Deserialize { name: "Cpu", .. })));
    assert_eq!(validated_period("Network", 700), Ok(700));
    assert!(matches!(validated_period("Network", 0), Err(Error::Deserialize { name: "Network", .. })));
}
