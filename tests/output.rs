use rs_blocks::args::args_from;
use rs_blocks::blocks::Block;
use rs_blocks::error::Error;
use rs_blocks::output::{initialise_output_map, to_block_result, Serialized};
use rs_blocks::stream_ext::OnChanges;
use rs_blocks::battery::Battery;
use rs_blocks::volume::Volume;

fn two_blocks() -> Vec<Block> {
    vec![
        Block::Volume(Volume { period: 10, update_signal: 12 }),
        Block::Battery(Battery {
            alpha: 100,
            period: 300,
            path_to_charge_now: String::new(),
            path_to_charge_full: String::new(),
            path_to_status: String::new(),
        }),
    ]
}

#[test]
fn block_object() {
    let r = to_block_result("Battery", Some("pango"), Ok("x \"y\"".to_string())).unwrap();
    assert_eq!(r.block_name, "Battery");
    assert_eq!(r.text, "{\"name\":\"Battery\",\"full_text\":\"x \\\"y\\\"\",\"markup\":\"pango\"}");
    let s = Serialized { name: "Cpu", full_text: None, markup: None };
    assert_eq!(s.to_json(), Ok("{\"name\":\"Cpu\"}".to_string()));
}

#[test]
fn order_is_kept_whichever_block_ticks_first() {
    let blocks = two_blocks();
    assert_eq!(blocks[0].get_name(), "Volume");
    let mut out = initialise_output_map(&blocks);
    assert_eq!(out.line(), "[{},{}]");
    let bat = to_block_result("Battery", Some("pango"), Ok("b".to_string())).unwrap();
    let line = out.update(bat);
    assert_eq!(line, "[{},{\"name\":\"Battery\",\"full_text\":\"b\",\"markup\":\"pango\"}]");
    let vol = to_block_result("Volume", None, Ok("v".to_string())).unwrap();
    let line = out.update(vol);
    assert_eq!(
        line,
        "[{\"name\":\"Volume\",\"full_text\":\"v\"},{\"name\":\"Battery\",\"full_text\":\"b\",\"markup\":\"pango\"}]"
    );
}

#[test]
fn every_line_is_json_with_one_value_per_block() {
    let blocks = two_blocks();
    let mut out = initialise_output_map(&blocks);
    let ticks = [
        ("Battery", Ok("1".to_string())),
        ("Battery", Err(Error::Parse { name: "Battery", reason: "unknown battery status".to_string() })),
        ("Volume", Ok("2".to_string())),
        ("Battery", Ok("3".to_string())),
    ];
    for (name, outcome) in ticks {
        let r = to_block_result(name, None, outcome).unwrap();
        let line = out.update(r);
        let v: serde_json::Value = serde_json::from_str(&line).unwrap();
        assert_eq!(v.as_array().unwrap().len(), 2);
    }
    assert!(out.line().contains("\"full_text\":\"3\""));
}

#[test]
fn an_error_is_shown_as_the_block_text() {
    let e = Error::Parse { name: "Battery", reason: "unknown battery status".to_string() };
    let r = to_block_result("Battery", None, Err(e)).unwrap();
    assert_eq!(
        r.text,
        "{\"name\":\"Battery\",\"full_text\":\"error while parsing 'Battery': unknown battery status\"}"
    );
}

#[test]
fn watcher_passes_on_changes_only() {
    let mut w = OnChanges::new();
    assert_eq!(w.offer(String::new()), None);
    assert_eq!(w.offer("a".to_string()), Some("a".to_string()));
    assert_eq!(w.offer("a".to_string()), None);
    assert_eq!(w.offer("b".to_string()), Some("b".to_string()));
    assert_eq!(w.offer("a".to_string()), Some("a".to_string()));
}

#[test]
fn arguments() {
    let ok = args_from(vec!["rs-blocks".to_string(), "conf.toml".to_string()]).unwrap();
    assert_eq!(ok.config_path, "conf.toml");
    assert!(matches!(args_from(vec!["rs-blocks".to_string()]), Err(Error::Usage)));
    assert_eq!(Error::InvalidBlockName("X".to_string()).message(), "no block implemented for 'X'");
}

#[test]
fn control_characters_are_escaped() {
    let r = to_block_result("Cpu", None, Ok("a\u{1}\tb\\".to_string())).unwrap();
    assert_eq!(r.text, "{\"name\":\"Cpu\",\"full_text\":\"a\\u0001\\tb\\\\\"}");
}
