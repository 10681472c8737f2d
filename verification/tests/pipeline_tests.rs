use log2vcd::convert::convert_lines;
use log2vcd::registry::{SignalRegistry, VarKind};
use log2vcd::sort::sort_by_timestamp;
use log2vcd::value_change::ValueChange;
use log2vcd::vcd_text::TimescaleUnit;

fn lines_of(strs: &[&str]) -> Vec<String> {
    strs.iter().map(|s| String::from(*s)).collect()
}

#[test]
fn three_records_full_output() {
    let lines = lines_of(&["#10 a 1 1", "#5 b 1010 8", "bogus", "#10 c 1.5 f"]);
    let out = convert_lines(&lines, 1, TimescaleUnit::NS).unwrap();
    let expected = "$timescale 1 ns $end\n$scope module outputs $end\n$var integer 8 ! b $end\n$var wire 1 \" a $end\n$var real 32 # c $end\n$upscope $end\n$enddefinitions $end\n#0\n#5\nb1010 !\n#10\n1\"\nr1.5 #\n";
    assert_eq!(out, expected);
}

#[test]
fn event_at_time_zero_gets_no_second_marker() {
    let lines = lines_of(&["#0 a 1 1"]);
    let out = convert_lines(&lines, 1, TimescaleUnit::S).unwrap();
    let expected = "$timescale 1 s $end\n$scope module outputs $end\n$var wire 1 ! a $end\n$upscope $end\n$enddefinitions $end\n#0\n1!\n";
    assert_eq!(out, expected);
}

#[test]
fn malformed_lines_are_dropped_not_fatal() {
    let with_noise = lines_of(&[
        "#1 a 1 1",
        "not a line",
        "#2 b 0 1",
        "#x y z w",
        "# 3 c 1 1",
        "#3 c 1 1",
    ]);
    let clean = lines_of(&["#1 a 1 1", "#2 b 0 1", "#3 c 1 1"]);
    let noisy_out = convert_lines(&with_noise, 1, TimescaleUnit::US).unwrap();
    let clean_out = convert_lines(&clean, 1, TimescaleUnit::US).unwrap();
    assert_eq!(noisy_out, clean_out);
}

#[test]
fn timestamps_are_emitted_in_nondecreasing_order() {
    let lines = lines_of(&["#30 a 1 1", "#10 b 0 1", "#20 a 0 1", "#10 c 1 1"]);
    let out = convert_lines(&lines, 1, TimescaleUnit::MS).unwrap();
    let body = out.split("$enddefinitions $end\n").nth(1).unwrap();
    let markers: Vec<u64> = body
        .lines()
        .filter(|l| l.starts_with('#'))
        .map(|l| l[1..].parse().unwrap())
        .collect();
    assert_eq!(markers, vec![0, 10, 20, 30]);
}

#[test]
fn equal_timestamps_keep_input_order() {
    let lines = lines_of(&["#7 first 1 1", "#7 second 0 1", "#7 third x 1"]);
    let parsed: Vec<ValueChange> = lines
        .iter()
        .filter_map(|l| ValueChange::from_str(l.as_str()).ok())
        .collect();
    let sorted = sort_by_timestamp(parsed);
    let names: Vec<&str> = sorted.iter().map(|e| e.signal_name.as_str()).collect();
    assert_eq!(names, vec!["first", "second", "third"]);
}

#[test]
fn registry_infers_kind_width_and_ids_in_first_seen_order() {
    let lines = lines_of(&["#1 s 1 1", "#2 v 1010 8", "#3 r 1.5 f", "#4 s 0 1"]);
    let parsed: Vec<ValueChange> = lines
        .iter()
        .filter_map(|l| ValueChange::from_str(l.as_str()).ok())
        .collect();
    let sorted = sort_by_timestamp(parsed);
    let reg = SignalRegistry::build(&sorted).unwrap();
    assert_eq!(reg.entries.len(), 3);
    assert_eq!(reg.entries[0].0, "s");
    assert_eq!(reg.entries[0].1.kind, VarKind::Wire);
    assert_eq!(reg.entries[0].1.width, 1);
    assert_eq!(reg.entries[0].1.id, 0);
    assert_eq!(reg.entries[1].0, "v");
    assert_eq!(reg.entries[1].1.kind, VarKind::Integer);
    assert_eq!(reg.entries[1].1.width, 8);
    assert_eq!(reg.entries[1].1.id, 1);
    assert_eq!(reg.entries[2].0, "r");
    assert_eq!(reg.entries[2].1.kind, VarKind::Real);
    assert_eq!(reg.entries[2].1.width, 32);
    assert_eq!(reg.entries[2].1.id, 2);
}

#[test]
fn ninety_three_signals_fit_and_a_ninety_fourth_fails() {
    let mut lines: Vec<String> = Vec::new();
    for i in 0..93 {
        lines.push(format!("#1 sig{} 1 1", i));
    }
    assert!(convert_lines(&lines, 1, TimescaleUnit::NS).is_ok());
    lines.push(String::from("#1 sig93 1 1"));
    assert!(convert_lines(&lines, 1, TimescaleUnit::NS).is_err());
}

#[test]
fn repeated_names_do_not_consume_identifiers() {
    let mut lines: Vec<String> = Vec::new();
    for i in 0..93 {
        lines.push(format!("#1 sig{} 1 1", i));
        lines.push(format!("#2 sig{} 0 1", i));
    }
    assert!(convert_lines(&lines, 1, TimescaleUnit::NS).is_ok());
}

#[test]
fn every_timescale_unit_has_its_lowercase_name() {
    for (unit, text) in [
        (TimescaleUnit::S, "1 s"),
        (TimescaleUnit::MS, "1 ms"),
        (TimescaleUnit::US, "1 us"),
        (TimescaleUnit::NS, "1 ns"),
        (TimescaleUnit::PS, "1 ps"),
        (TimescaleUnit::FS, "1 fs"),
    ] {
        let out = convert_lines(&Vec::new(), 1, unit).unwrap();
        let expected = format!("$timescale {} $end\n", text);
        assert!(out.starts_with(expected.as_str()));
    }
}

#[test]
fn emitted_records_decode_back_to_their_values() {
    let lines = lines_of(&["#1 s 1 1", "#2 v 1010 8", "#3 r 1.5 f"]);
    let out = convert_lines(&lines, 1, TimescaleUnit::US).unwrap();
    let mut parser = vcd::Parser::new(out.as_bytes());
    let header = parser.parse_header().unwrap();
    let id_s = header.find_var(&["outputs", "s"]).unwrap().code;
    let id_v = header.find_var(&["outputs", "v"]).unwrap().code;
    let id_r = header.find_var(&["outputs", "r"]).unwrap().code;
    let mut got_s = None;
    let mut got_v = None;
    let mut got_r = None;
    for command in parser {
        match command.unwrap() {
            vcd::Command::ChangeScalar(i, v) if i == id_s => got_s = Some(v),
            vcd::Command::ChangeVector(i, v) if i == id_v => got_v = Some(v),
            vcd::Command::ChangeReal(i, v) if i == id_r => got_r = Some(v),
            _ => {},
        }
    }
    assert_eq!(got_s, Some(vcd::Value::V1));
    let expected: vcd::Vector =
        [vcd::Value::V1, vcd::Value::V0, vcd::Value::V1, vcd::Value::V0].iter().cloned().collect();
    assert!(got_v == Some(expected));
    assert_eq!(got_r, Some(1.5f64));
}
