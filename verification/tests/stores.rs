use campaign_reports::model::{DateRange, Metrics, ReportDoc, ReportEntry, SavedReport, Settings};
use campaign_reports::json::Json;
use campaign_reports::reports::{delete_report, load_reports, save_report};
use campaign_reports::settings::{load_settings, settings_document};

fn sample_settings() -> Settings {
    Settings {
        mailchimp_api_key: "abc-us21".to_string(),
        mailchimp_audience_id: "6732b2b110".to_string(),
        advertisers: vec!["HBCB".to_string(), "NJUA".to_string()],
        download_directory: "/home/someone/Downloads".to_string(),
    }
}

fn sample_report(id: &str) -> SavedReport {
    SavedReport {
        id: id.to_string(),
        name: "HBCB-hbcb-2026-10-12".to_string(),
        advertiser: "HBCB".to_string(),
        report_type: "hbcb".to_string(),
        date_range: DateRange {
            start_date: "2024-01-01".to_string(),
            end_date: "2024-01-31".to_string(),
        },
        created: "2026-10-12".to_string(),
        data: ReportDoc {
            campaigns: Vec::new(),
            report_data: vec![ReportEntry {
                send_date: "2024-01-15".to_string(),
                unique_opens: 200,
                total_opens: 250,
                total_recipients: 1000,
                total_clicks: 20,
            }],
            metrics: Metrics {
                unique_opens: true,
                total_opens: true,
                total_recipients: true,
                total_clicks: true,
                ctr: true,
            },
        },
        metrics: Metrics {
            unique_opens: true,
            total_opens: false,
            total_recipients: true,
            total_clicks: true,
            ctr: false,
        },
    }
}

fn settings_eq(a: &Settings, b: &Settings) -> bool {
    a.mailchimp_api_key == b.mailchimp_api_key
        && a.mailchimp_audience_id == b.mailchimp_audience_id
        && a.advertisers == b.advertisers
        && a.download_directory == b.download_directory
}

#[test]
fn settings_survive_a_save_and_load() {
    let s = sample_settings();
    let text = settings_document(&s);
    let loaded = load_settings(Some(text.as_str())).unwrap();
    assert!(settings_eq(&s, &loaded));
}

#[test]
fn missing_settings_file_yields_defaults() {
    let s = load_settings(None).unwrap();
    assert_eq!(s.mailchimp_api_key, "");
    assert_eq!(s.mailchimp_audience_id, "6732b2b110");
    assert_eq!(s.advertisers.len(), 15);
    assert_eq!(s.advertisers[0], "HBCB (Horizon Blue Cross Blue Shield)");
    assert_eq!(s.advertisers[14], "NJ Bankers");
}

#[test]
fn malformed_settings_fall_back_field_by_field() {
    let text = r#"{ "mailchimp_api_key": "k-us3", "advertisers": ["A", 7, "B"] }"#;
    let s = load_settings(Some(text)).unwrap();
    assert_eq!(s.mailchimp_api_key, "k-us3");
    assert_eq!(s.mailchimp_audience_id, "6732b2b110");
    assert_eq!(s.advertisers, vec!["A".to_string(), "B".to_string()]);
    assert!(!s.download_directory.is_empty());
}

#[test]
fn fallback_keeps_every_present_well_typed_field() {
    // the mixed advertiser array forces the field-by-field reading, yet
    // the audience id and the directory are present and well-typed
    let text = r#"{
      "mailchimp_api_key": "k-us9",
      "mailchimp_audience_id": "custom-audience",
      "advertisers": ["A", 7, "B"],
      "download_directory": "/elsewhere"
    }"#;
    let s = load_settings(Some(text)).unwrap();
    assert_eq!(s.mailchimp_api_key, "k-us9");
    assert_eq!(s.mailchimp_audience_id, "custom-audience");
    assert_eq!(s.advertisers, vec!["A".to_string(), "B".to_string()]);
    assert_eq!(s.download_directory, "/elsewhere");
}

#[test]
fn unparseable_settings_are_an_error() {
    let r = load_settings(Some("{ this is not json"));
    match r {
        Err(m) => assert!(m.starts_with("Failed to parse settings JSON: ")),
        Ok(_) => panic!("expected a parse error"),
    }
}

#[test]
fn raw_campaign_documents_survive_the_store() {
    let mut r = sample_report("report-c");
    r.data.campaigns = vec![Json::Obj(vec![
        ("id".to_string(), Json::Str("c1".to_string())),
        ("emails_sent".to_string(), Json::Num("1000".to_string())),
        ("settings".to_string(), Json::Obj(vec![(
            "title".to_string(),
            Json::Str("HBCB \"Weekly\"".to_string()),
        )])),
    ])];
    let mut reports: Vec<SavedReport> = Vec::new();
    let text = save_report(&mut reports, r);
    let loaded = load_reports(Some(text.as_str())).unwrap();
    assert_eq!(loaded.len(), 1);
    assert_eq!(loaded[0].data.campaigns.len(), 1);
    match &loaded[0].data.campaigns[0] {
        Json::Obj(fields) => {
            let id = fields.iter().find(|f| f.0 == "id").expect("an id field");
            assert!(matches!(&id.1, Json::Str(s) if s == "c1"));
            let sent = fields.iter().find(|f| f.0 == "emails_sent").expect("a count field");
            assert!(matches!(&sent.1, Json::Num(t) if t == "1000"));
        },
        _ => panic!("the campaign document must come back as an object"),
    }
}

#[test]
fn reports_survive_a_save_and_load() {
    let mut reports: Vec<SavedReport> = Vec::new();
    let text = save_report(&mut reports, sample_report("report-1"));
    let loaded = load_reports(Some(text.as_str())).unwrap();
    assert_eq!(loaded.len(), 1);
    let r = &loaded[0];
    assert_eq!(r.id, "report-1");
    assert_eq!(r.name, "HBCB-hbcb-2026-10-12");
    assert_eq!(r.advertiser, "HBCB");
    assert_eq!(r.report_type, "hbcb");
    assert_eq!(r.date_range.start_date, "2024-01-01");
    assert_eq!(r.date_range.end_date, "2024-01-31");
    assert_eq!(r.created, "2026-10-12");
    assert_eq!(r.metrics, sample_report("report-1").metrics);
    assert_eq!(r.data.report_data.len(), 1);
    assert_eq!(r.data.report_data[0].send_date, "2024-01-15");
    assert_eq!(r.data.report_data[0].total_clicks, 20);
}

#[test]
fn deleted_reports_stay_deleted() {
    let mut reports: Vec<SavedReport> = Vec::new();
    let _ = save_report(&mut reports, sample_report("report-1"));
    let text = save_report(&mut reports, sample_report("report-2"));
    let mut loaded = load_reports(Some(text.as_str())).unwrap();
    assert_eq!(loaded.len(), 2);
    delete_report(&mut loaded, "report-1");
    assert_eq!(loaded.len(), 1);
    assert!(loaded.iter().all(|r| r.id != "report-1"));
    assert_eq!(loaded[0].id, "report-2");
}

#[test]
fn missing_reports_file_is_an_empty_store() {
    let loaded = load_reports(None).unwrap();
    assert!(loaded.is_empty());
}

#[test]
fn old_records_without_metrics_show_every_column() {
    let text = r#"[ { "id": "r1", "name": "old", "advertiser": "A", "report_type": "hc" } ]"#;
    let loaded = load_reports(Some(text)).unwrap();
    assert_eq!(loaded.len(), 1);
    assert_eq!(loaded[0].id, "r1");
    let m = loaded[0].metrics;
    assert!(m.unique_opens && m.total_opens && m.total_recipients && m.total_clicks && m.ctr);
    assert_eq!(loaded[0].date_range.start_date, "");
    assert!(loaded[0].data.report_data.is_empty());
}

#[test]
fn a_row_without_a_date_reads_as_the_marker() {
    let text = r#"[ {
      "id": "r2",
      "data": { "report_data": [ { "unique_opens": 5, "total_clicks": 2 } ] }
    } ]"#;
    let loaded = load_reports(Some(text)).unwrap();
    assert_eq!(loaded.len(), 1);
    assert_eq!(loaded[0].data.report_data.len(), 1);
    assert_eq!(loaded[0].data.report_data[0].send_date, "N/A");
    assert_eq!(loaded[0].data.report_data[0].unique_opens, 5);
    assert_eq!(loaded[0].data.report_data[0].total_clicks, 2);
}

#[test]
fn an_empty_download_directory_is_replaced_on_load() {
    let mut s = sample_settings();
    s.download_directory = "".to_string();
    let text = settings_document(&s);
    match load_settings(Some(text.as_str())) {
        Ok(loaded) => {
            assert_eq!(loaded.mailchimp_api_key, s.mailchimp_api_key);
            assert_eq!(loaded.mailchimp_audience_id, s.mailchimp_audience_id);
            assert!(!loaded.download_directory.is_empty());
        },
        Err(m) => assert_eq!(m, "Could not determine home directory"),
    }
}

#[test]
fn deleting_an_identifier_removes_every_report_carrying_it() {
    let mut reports: Vec<SavedReport> = Vec::new();
    let _ = save_report(&mut reports, sample_report("dup"));
    let _ = save_report(&mut reports, sample_report("keep"));
    let _ = save_report(&mut reports, sample_report("dup"));
    delete_report(&mut reports, "dup");
    assert_eq!(reports.len(), 1);
    assert_eq!(reports[0].id, "keep");
}

#[test]
fn unparseable_reports_are_an_error() {
    assert!(load_reports(Some("nonsense")).is_err());
    assert!(load_reports(Some(r#"{"not": "an array"}"#)).is_err());
}
