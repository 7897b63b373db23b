use ngx_mixer::options::{CheckOptions, QuotaOptions, ReportOptions};
use ngx_mixer::mixer_client_wrapper::MixerClientOptions;

#[test]
fn test_check_options() {
    let ck_opt = CheckOptions::new();
    assert_eq!(ck_opt.network_fail_open, true);
    assert_eq!(ck_opt.num_entries, 10000);
}

#[test]
fn test_report_options() {
    let rep_options = ReportOptions::new();
    assert_eq!(rep_options.max_batch_entries, 1000);
}

#[test]
fn test() {
    let ck_opt = CheckOptions::new();
    assert_eq!(ck_opt.network_fail_open, true);
}

#[test]
fn options_with_entries_and_quota() {
    let o = CheckOptions::num_entries(5);
    assert_eq!(o.num_entries, 5);
    assert!(o.network_fail_open);
    let q = QuotaOptions::new();
    assert_eq!(q.num_entries, 10000);
    assert_eq!(q.expiration_ms, 600000);
    assert_eq!(ReportOptions::new().max_batch_time_ms, 1000);
    let m = MixerClientOptions::new();
    assert_eq!(m.check_options.num_entries, 10000);
    assert_eq!(m.report_options.max_batch_entries, 1000);
    assert_eq!(m.quota_options.expiration_ms, 600000);
}
