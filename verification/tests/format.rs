use campaign_reports::dates::{is_rfc3339, parse_date, rfc3339_date};
use campaign_reports::export::{clean_advertiser, csv_document, csv_file_name, json_file_name};
use campaign_reports::mailchimp::{auth_header, base_url, data_center};
use campaign_reports::model::{DateRange, Metrics, ReportDoc, ReportEntry, SavedReport};
use campaign_reports::settings::settings_document;
use campaign_reports::model::Settings;
use campaign_reports::text::{contains_str, str_le, u64_to_string};
use campaign_reports::validate::keyword_title_match;

fn selection_report() -> SavedReport {
    SavedReport {
        id: "report-9".to_string(),
        name: "HBCB-hbcb-2026-10-12".to_string(),
        advertiser: "HBCB (NJ)".to_string(),
        report_type: "hbcb".to_string(),
        date_range: DateRange {
            start_date: "2024-01-01".to_string(),
            end_date: "2024-01-31".to_string(),
        },
        created: "2026-10-12".to_string(),
        data: ReportDoc {
            campaigns: Vec::new(),
            report_data: vec![
                ReportEntry {
                    send_date: "2024-01-15".to_string(),
                    unique_opens: 200,
                    total_opens: 250,
                    total_recipients: 1000,
                    total_clicks: 20,
                },
                ReportEntry {
                    send_date: "2024-01-22".to_string(),
                    unique_opens: 3,
                    total_opens: 4,
                    total_recipients: 9,
                    total_clicks: 2,
                },
            ],
            metrics: Metrics {
                unique_opens: true,
                total_opens: false,
                total_recipients: true,
                total_clicks: true,
                ctr: false,
            },
        },
        metrics: Metrics {
            unique_opens: true,
            total_opens: false,
            total_recipients: true,
            total_clicks: true,
            ctr: false,
        },
    }
}

#[test]
fn csv_shows_only_the_chosen_columns() {
    let csv = csv_document(&selection_report());
    assert_eq!(
        csv,
        "Date,Unique Opens,Total Recipients,Total Clicks\n2024-01-15,200,1000,20\n2024-01-22,3,9,2\n"
    );
}

#[test]
fn csv_renders_the_rate_with_six_digits() {
    let mut report = selection_report();
    report.data.metrics = Metrics {
        unique_opens: false,
        total_opens: false,
        total_recipients: false,
        total_clicks: false,
        ctr: true,
    };
    report.data.report_data = vec![
        ReportEntry {
            send_date: "2024-01-15".to_string(),
            unique_opens: 200,
            total_opens: 0,
            total_recipients: 0,
            total_clicks: 20,
        },
        ReportEntry {
            send_date: "2024-01-16".to_string(),
            unique_opens: 3,
            total_opens: 0,
            total_recipients: 0,
            total_clicks: 2,
        },
        ReportEntry {
            send_date: "2024-01-17".to_string(),
            unique_opens: 0,
            total_opens: 0,
            total_recipients: 0,
            total_clicks: 7,
        },
    ];
    let csv = csv_document(&report);
    assert_eq!(
        csv,
        "Date,CTR\n2024-01-15,10.000000\n2024-01-16,66.666667\n2024-01-17,0.000000\n"
    );
}

#[test]
fn rate_is_zero_when_nothing_was_opened() {
    let e = ReportEntry {
        send_date: "2024-01-15".to_string(),
        unique_opens: 0,
        total_opens: 0,
        total_recipients: 0,
        total_clicks: 55,
    };
    assert_eq!(e.ctr_micro(), 0);
}

#[test]
fn advertiser_names_are_cleaned_for_file_names() {
    assert_eq!(
        clean_advertiser("HBCB (Horizon Blue Cross Blue Shield)"),
        "HBCB__Horizon_Blue_Cross_Blue_Shield_"
    );
    assert_eq!(clean_advertiser("a.b/c\\d:e"), "a_b_c_d_e");
}

#[test]
fn export_file_names_carry_the_range_and_stamp() {
    let name = csv_file_name(&selection_report(), "20261012_101500");
    assert_eq!(name, "HBCB__NJ__hbcb_2024-01-01_2024-01-31_20261012_101500.csv");
    let mut r = selection_report();
    r.date_range.end_date = "".to_string();
    assert_eq!(
        csv_file_name(&r, "20261012_101500"),
        "HBCB__NJ__hbcb_unknown-dates_20261012_101500.csv"
    );
    assert_eq!(
        json_file_name("HBCB-hbcb-2026-10-12", "20261012_101500"),
        "HBCB-hbcb-2026-10-12_20261012_101500.json"
    );
}

#[test]
fn hc_keyword_has_its_alias() {
    assert!(keyword_title_match("hc", "Health Care Roundup"));
    assert!(keyword_title_match("hc", "HC Briefing"));
    assert!(keyword_title_match("HC", "morning hc digest"));
    assert!(!keyword_title_match("hc", "Weekly Digest"));
    assert!(!keyword_title_match("hc", "archive"));
    assert!(keyword_title_match("hbcb", "HBCB Weekly"));
    assert!(!keyword_title_match("hbcb", "NJUA Weekly"));
}

#[test]
fn strict_dates_are_strict() {
    assert_eq!(parse_date("2024-01-31"), Some((2024, 1, 31)));
    assert_eq!(parse_date("2024-02-29"), Some((2024, 2, 29)));
    assert_eq!(parse_date("2023-02-29"), None);
    assert_eq!(parse_date("2024-13-01"), None);
    assert_eq!(parse_date("2024-1-5"), None);
    assert_eq!(parse_date("24-01-05"), None);
    assert_eq!(parse_date("2024-01-00"), None);
}

#[test]
fn timestamps_follow_the_grammar() {
    assert!(is_rfc3339("2024-01-15T14:00:00Z"));
    assert!(is_rfc3339("2024-01-15t14:00:00z"));
    assert!(is_rfc3339("2024-01-15T14:00:00.123+02:30"));
    assert!(is_rfc3339("2024-01-15T23:59:60-05:00"));
    assert!(!is_rfc3339("2024-01-15 14:00:00Z"));
    assert!(!is_rfc3339("2024-01-15T14:00:00"));
    assert!(!is_rfc3339("2024-13-15T14:00:00Z"));
    assert!(!is_rfc3339("2024-01-15T24:00:00Z"));
    assert_eq!(
        rfc3339_date("2024-01-15T14:00:00Z"),
        Some("2024-01-15".to_string())
    );
    assert_eq!(rfc3339_date("garbage"), None);
}

#[test]
fn the_data_center_comes_from_the_credential() {
    assert_eq!(data_center("abc-def-us21"), "us21");
    assert_eq!(data_center("nodash"), "us1");
    assert_eq!(data_center(""), "us1");
    assert_eq!(base_url("k-us6"), "https://us6.api.mailchimp.com/3.0");
}

#[test]
fn the_auth_header_encodes_the_credential() {
    assert_eq!(auth_header("k"), "Basic YW55c3RyaW5nOms=");
    assert_eq!(auth_header("k-us1"), "Basic YW55c3RyaW5nOmstdXMx");
}

#[test]
fn text_helpers_behave() {
    assert!(contains_str("health care roundup", "health care"));
    assert!(!contains_str("archive", "hc"));
    assert!(contains_str("anything", ""));
    assert!(str_le("2024-01-05", "2024-01-20"));
    assert!(!str_le("2024-02-01", "2024-01-31"));
    assert!(str_le("abc", "abc"));
    assert_eq!(u64_to_string(0), "0");
    assert_eq!(u64_to_string(9007199254740993), "9007199254740993");
}

#[test]
fn settings_documents_are_readable_json() {
    let s = Settings {
        mailchimp_api_key: "k".to_string(),
        mailchimp_audience_id: "a".to_string(),
        advertisers: vec!["One".to_string()],
        download_directory: "/d".to_string(),
    };
    let text = settings_document(&s);
    let v: serde_json::Value = serde_json::from_str(&text).unwrap();
    assert_eq!(v["mailchimp_api_key"], "k");
    assert_eq!(v["mailchimp_audience_id"], "a");
    assert_eq!(v["advertisers"][0], "One");
    assert_eq!(v["download_directory"], "/d");
}
