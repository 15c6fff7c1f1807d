use serial_monitor::config::{ConnectionConfig, FlowCtrl, Parity, SerialConfig, StartMode};
use serial_monitor::detector::TriggerConfig;
use serial_monitor::plot::{InputSlot, PlotConfig, PlotData, PlotIdGen, PlotMode, PlotScaleMode, Rgb};
use serial_monitor::session::SerialMonitorData;

#[test]
fn default_connection_config() {
    let c = ConnectionConfig::default();
    assert_eq!(c.port, "-");
    assert_eq!(c.port, ConnectionConfig::NO_PORT);
    assert_eq!(c.baud_rate, 9600);
    assert_eq!(c.data_bits, 8);
    assert_eq!(c.parity, Parity::NoParity);
    assert_eq!(c.stop_bits, 1);
    assert_eq!(c.flow_ctrl, FlowCtrl::NoFlowCtrl);
    assert!(c.dtr);
    assert_eq!(c.start_mode, StartMode::Delay(0));
    assert_eq!(c.start_delay, 1000);
    assert_eq!(c.start_msg, "Start");
}

#[test]
fn default_plot_config() {
    let c = PlotConfig::default();
    assert_eq!(c.mode, PlotMode::Continous);
    assert_eq!(c.window_us, 5_000_000);
    assert_eq!(c.scale_mode, PlotScaleMode::Auto);
    assert_eq!(c.y_min, 0);
    assert_eq!(c.y_max, 1_000_000);
}

#[test]
fn default_trigger_config() {
    let c = TriggerConfig::default();
    assert_eq!(c.window_us, 50_000);
    assert_eq!(c.tolerance, 100_000);
    assert_eq!(c.input_slot, 0);
}

#[test]
fn default_input_slot() {
    let s = InputSlot::default();
    assert_eq!(s.index, 0);
    assert_eq!(s.name, "");
    assert_eq!(s.color, Rgb { r: 0, g: 0, b: 0 });
    assert_eq!(s.value, 0);
}

#[test]
fn default_session_is_empty() {
    let d = SerialMonitorData::default();
    assert_eq!(d.conn_config.baud_rate, 9600);
    assert_eq!(d.plot_config.window_us, 5_000_000);
    assert_eq!(d.trigger_config.input_slot, 0);
    assert!(d.inp_slots.is_empty());
    assert!(d.plots.is_empty());
}

#[test]
fn serial_config_conversion() {
    let mut c = ConnectionConfig::default();
    c.port = String::from("/dev/ttyUSB0");
    c.baud_rate = 115_200;
    c.data_bits = 7;
    c.parity = Parity::Even;
    c.stop_bits = 2;
    c.flow_ctrl = FlowCtrl::Hardware;
    let s = SerialConfig::from(c);
    assert_eq!(s.port, "/dev/ttyUSB0");
    assert_eq!(s.baud_rate, 115_200);
    assert_eq!(s.data_bits, 7);
    assert_eq!(s.parity, Parity::Even);
    assert_eq!(s.stop_bits, 2);
    assert_eq!(s.flow_ctrl, FlowCtrl::Hardware);
    assert_eq!(s.timeout_ms, 0);
}

#[test]
fn start_mode_conversion_immediate() {
    let mut c = ConnectionConfig::default();
    c.start_mode = StartMode::Immediate;
    c.start_delay = 1500;
    c.start_msg = String::from("Go");
    assert_eq!(StartMode::from(c), StartMode::Immediate);
}

#[test]
fn start_mode_conversion_delay_uses_start_delay() {
    let mut c = ConnectionConfig::default();
    // The payload stored inside the tag is a placeholder: conversion must
    // substitute `start_delay`, never the stored payload or the message.
    c.start_mode = StartMode::Delay(999);
    c.start_delay = 1500;
    c.start_msg = String::from("Go");
    assert_eq!(StartMode::from(c), StartMode::Delay(1500));
}

#[test]
fn start_mode_conversion_message_uses_start_msg() {
    let mut c = ConnectionConfig::default();
    c.start_mode = StartMode::Message(String::from("stale"));
    c.start_delay = 1500;
    c.start_msg = String::from("Go");
    assert_eq!(StartMode::from(c), StartMode::Message(String::from("Go")));
}

#[test]
fn plot_mode_labels() {
    assert_eq!(PlotMode::Continous.label(), "Continous");
    assert_eq!(PlotMode::Cyclic.label(), "Cyclic");
    assert_eq!(PlotMode::SingleShot.label(), "SingleShot");
    assert_eq!(PlotScaleMode::Auto.label(), "Auto");
    assert_eq!(PlotScaleMode::AutoMax.label(), "AutoMax");
    assert_eq!(PlotScaleMode::Manual.label(), "Manual");
}

#[test]
fn plot_data_new_fields() {
    let mut gen = PlotIdGen::new();
    let p = PlotData::new(&mut gen, "Voltage");
    assert_eq!(p.id, 1);
    assert_eq!(p.name, "Voltage");
    assert!(p.hidden.is_empty());
    assert_eq!(p.height, 256);
    assert!(!p.console);
}

#[test]
fn plot_data_console_fields() {
    let mut gen = PlotIdGen::new();
    let p = PlotData::console(&mut gen);
    assert_eq!(p.id, 1);
    assert_eq!(p.name, "Console");
    assert!(p.hidden.is_empty());
    assert_eq!(p.height, 192);
    assert!(p.console);
}

#[test]
fn plot_ids_distinct_across_constructors() {
    let mut gen = PlotIdGen::new();
    let a = PlotData::new(&mut gen, "a");
    let b = PlotData::console(&mut gen);
    let c = PlotData::new(&mut gen, "c");
    let d = PlotData::console(&mut gen);
    let ids = [a.id, b.id, c.id, d.id];
    for i in 0..ids.len() {
        for j in 0..ids.len() {
            if i != j {
                assert_ne!(ids[i], ids[j]);
            }
        }
    }
    assert_eq!(ids, [1, 2, 3, 4]);
}

#[test]
fn update_internal_ids_advances_past_loaded_max() {
    let mut gen = PlotIdGen::new();
    let mut loaded_gen = PlotIdGen::new();
    let mut loaded = Vec::new();
    for n in ["a", "b", "c", "d", "e", "f", "g"] {
        loaded.push(PlotData::new(&mut loaded_gen, n));
    }
    assert_eq!(loaded.last().unwrap().id, 7);
    PlotData::update_internal_ids(&mut gen, &loaded);
    let fresh = PlotData::new(&mut gen, "fresh");
    assert_eq!(fresh.id, 8);
    for p in &loaded {
        assert!(fresh.id > p.id);
    }
}

#[test]
fn update_internal_ids_empty_list_changes_nothing() {
    let mut gen = PlotIdGen::new();
    PlotData::update_internal_ids(&mut gen, &Vec::new());
    let p = PlotData::new(&mut gen, "p");
    assert_eq!(p.id, 1);
}

#[test]
fn update_internal_ids_never_moves_backward() {
    let mut gen = PlotIdGen::new();
    let mut earlier = Vec::new();
    for n in ["a", "b", "c", "d", "e"] {
        earlier.push(PlotData::new(&mut gen, n));
    }
    // Reconciling with a list whose maximum id is below ids already issued
    // must not reuse those ids.
    let small = vec![earlier[1].clone()];
    PlotData::update_internal_ids(&mut gen, &small);
    let fresh = PlotData::new(&mut gen, "fresh");
    for p in &earlier {
        assert_ne!(fresh.id, p.id);
    }
    assert_eq!(fresh.id, 6);
}
