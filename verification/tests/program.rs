use ccp_copa::agg_measurement::{
    ACKED_FIELD, INFLIGHT_FIELD, LOSS_FIELD, MINRTT_FIELD, NOW_FIELD, RTT_FIELD, SACKED_FIELD,
    TIMEOUT_FIELD,
};
use ccp_copa::delta_manager::DeltaModeConf;
use ccp_copa::fixed::Delta;
use ccp_copa::{
    CopaConfig, BASE_RTT_FIELD, COPA_NAME, CWND_FIELD, DATAPATH_PROGRAM, RATE_FIELD,
};
use portus::lang::Reg;

#[test]
fn one_program_under_the_name_of_the_algorithm() {
    let c = CopaConfig {
        init_cwnd: 0,
        default_delta: Delta::half(),
        delta_mode: DeltaModeConf::Auto,
    };
    let programs = c.datapath_programs();
    assert_eq!(programs.len(), 1);
    assert_eq!(programs[0].0, "copa");
    assert_eq!(programs[0].0, COPA_NAME);
    assert_eq!(programs[0].0, CopaConfig::name());
    assert_eq!(programs[0].1, DATAPATH_PROGRAM);
}

#[test]
fn field_names_are_those_of_the_interface() {
    assert_eq!(CWND_FIELD, "Cwnd");
    assert_eq!(RATE_FIELD, "Rate");
    assert_eq!(BASE_RTT_FIELD, "base_rtt");
    assert_eq!(ACKED_FIELD, "Report.acked");
    assert_eq!(SACKED_FIELD, "Report.sacked");
    assert_eq!(LOSS_FIELD, "Report.loss");
    assert_eq!(INFLIGHT_FIELD, "Report.inflight");
    assert_eq!(TIMEOUT_FIELD, "Report.timeout");
    assert_eq!(RTT_FIELD, "Report.rtt");
    assert_eq!(NOW_FIELD, "Report.now");
    assert_eq!(MINRTT_FIELD, "Report.minrtt");
}

#[test]
fn program_compiles_and_reports_every_field() {
    let (_bin, scope) = portus::lang::compile(DATAPATH_PROGRAM.as_bytes(), &[]).unwrap();
    for name in [
        ACKED_FIELD,
        SACKED_FIELD,
        LOSS_FIELD,
        INFLIGHT_FIELD,
        TIMEOUT_FIELD,
        RTT_FIELD,
        NOW_FIELD,
        MINRTT_FIELD,
    ] {
        assert!(matches!(scope.get(name), Some(Reg::Report(..))));
    }
    assert!(scope.has(CWND_FIELD));
    assert!(scope.has(RATE_FIELD));
}

#[test]
fn program_reads_the_datapath_fields_of_the_interface() {
    for name in [
        "Ack.bytes_acked",
        "Ack.packets_misordered",
        "Ack.lost_pkts_sample",
        "Ack.now",
        "Flow.packets_in_flight",
        "Flow.rtt_sample_us",
        "Flow.was_timeout",
    ] {
        assert!(DATAPATH_PROGRAM.contains(name));
    }
    assert!(DATAPATH_PROGRAM.contains("(when (|| Flow.was_timeout (> Report.loss 0))"));
    assert!(DATAPATH_PROGRAM.contains("(when (> Micros (/ basertt 2))"));
}
