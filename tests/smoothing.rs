use rs_blocks::cpu::{default_cpu_stat_path, Cpu, CpuState};
use rs_blocks::blocks::{validated_alpha, validated_period};
use rs_blocks::ema::Ema;

// The common fields (period, smoothing factor) stand in each block's
// configuration, checked as they are set; a factor of 3.2 is out of range.
#[test]
fn add_attribute() {
    let a = Cpu {
        period: validated_period("Cpu", 4).unwrap(),
        alpha: validated_alpha("Cpu", 320_000).unwrap(),
        cpu_stat_path: default_cpu_stat_path(),
    };
    assert_eq!(a.period, 4);
    assert_eq!(a.alpha, 320);
    assert_eq!(a.cpu_stat_path, "/proc/stat");
    assert!(validated_alpha("Cpu", 3_200_000).is_err());
}

#[test]
fn first_push_is_the_input() {
    for alpha in [1, 100, 500, 1000] {
        for v in [0, 7, 123_456, u64::MAX] {
            let mut e = Ema::new(alpha);
            assert_eq!(e.current(), None);
            assert_eq!(e.push(v), v);
            assert_eq!(e.current(), Some(v));
        }
    }
}

#[test]
fn higher_alpha_follows_the_newest() {
    let mut fast = Ema::new(1000);
    fast.push(100);
    assert_eq!(fast.push(0), 0);
    let mut half = Ema::new(500);
    half.push(1000);
    assert_eq!(half.push(0), 500);
    let mut slow = Ema::new(100);
    slow.push(1000);
    assert_eq!(slow.push(0), 900);
    assert_eq!(slow.push(0), 810);
}

#[test]
fn cpu_state_shows_load_from_the_second_reading() {
    let mut st = CpuState::new(1000);
    assert_eq!(st.on_read(b"cpu 1 0 0 5 0 0 0 0\n"), None);
    assert_eq!(st.on_read(b"cpu 3 0 0 7 0 0 0 0\n"), Some(Ok("\u{f2db}  50.0%".to_string())));
    assert_eq!(st.on_read(b"cpu 3 0 0 7 0 0 0 0\n"), None);
    assert!(matches!(st.on_read(b"garbage"), Some(Err(_))));
}
