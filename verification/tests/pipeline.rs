use campaign_reports::generator::{Generation, Step};
use campaign_reports::model::{DateRange, Metrics, ReportRequest, Settings, GenError, SavedReport};
use campaign_reports::progress::Stage;

fn all_metrics() -> Metrics {
    Metrics {
        unique_opens: true,
        total_opens: true,
        total_recipients: true,
        total_clicks: true,
        ctr: true,
    }
}

fn settings(key: &str) -> Settings {
    Settings {
        mailchimp_api_key: key.to_string(),
        mailchimp_audience_id: "6732b2b110".to_string(),
        advertisers: vec!["HBCB".to_string()],
        download_directory: "/tmp".to_string(),
    }
}

fn request(newsletter_type: &str, tracking: Vec<&str>) -> ReportRequest {
    ReportRequest {
        newsletter_type: newsletter_type.to_string(),
        advertiser: "HBCB".to_string(),
        tracking_urls: tracking.into_iter().map(|s| s.to_string()).collect(),
        date_range: DateRange {
            start_date: "2024-01-01".to_string(),
            end_date: "2024-01-31".to_string(),
        },
        metrics: all_metrics(),
    }
}

const CAMPAIGNS_BODY: &str = r#"{
  "campaigns": [
    {
      "id": "c1",
      "send_time": "2024-01-15T14:00:00Z",
      "settings": { "title": "HBCB Weekly" },
      "report_summary": { "unique_opens": 200, "opens": 250 },
      "emails_sent": 1000
    }
  ]
}"#;

const CLICKS_BODY: &str = r#"{
  "urls_clicked": [
    { "url": "https://www.horizonblue.com/plan", "total_clicks": 20 }
  ]
}"#;

fn progresses(g: &Generation) -> Vec<u8> {
    let mut v = Vec::new();
    let mut i = 0;
    while i < g.update_count() {
        v.push(g.update_at(i).progress);
        i += 1;
    }
    v
}

#[test]
fn happy_path_single_campaign() {
    let (mut g, step) = Generation::start(
        request("hbcb", vec!["horizonblue.com"]),
        &settings("k-us1"),
        1000,
    )
    .unwrap();
    match step {
        Step::FetchCampaigns { url, auth } => {
            assert_eq!(
                url,
                "https://us1.api.mailchimp.com/3.0/campaigns?since_send_time=2024-01-01T00:00:00Z&before_send_time=2024-01-31T23:59:59Z&count=1000"
            );
            assert_eq!(auth, "Basic YW55c3RyaW5nOmstdXMx");
        },
        _ => panic!("expected a campaign fetch"),
    }
    let step = g.on_campaigns(true, CAMPAIGNS_BODY, 1500).unwrap();
    match step {
        Step::FetchClicks { url, auth } => {
            assert_eq!(
                url,
                "https://us1.api.mailchimp.com/3.0/reports/c1/click-details?count=1000"
            );
            assert_eq!(auth, "Basic YW55c3RyaW5nOmstdXMx");
        },
        _ => panic!("expected a click-details fetch"),
    }
    let step = g.on_clicks(true, Some(CLICKS_BODY), 2000, "2026-10-12");
    let report: SavedReport = match step {
        Step::Persist { report } => report,
        _ => panic!("expected the report to be persisted"),
    };
    assert!(report.id.starts_with("report-"));
    assert_eq!(report.id, "report-2000");
    assert_eq!(report.name, "HBCB-hbcb-2026-10-12");
    assert_eq!(report.advertiser, "HBCB");
    assert_eq!(report.report_type, "hbcb");
    assert_eq!(report.created, "2026-10-12");
    assert_eq!(report.metrics, all_metrics());
    assert_eq!(report.data.metrics, all_metrics());
    assert_eq!(report.data.campaigns.len(), 1);
    assert_eq!(report.data.report_data.len(), 1);
    let e = &report.data.report_data[0];
    assert_eq!(e.send_date, "2024-01-15");
    assert_eq!(e.unique_opens, 200);
    assert_eq!(e.total_opens, 250);
    assert_eq!(e.total_recipients, 1000);
    assert_eq!(e.total_clicks, 20);
    assert_eq!(e.ctr_micro(), 10_000_000);
    let response = g.on_persisted();
    assert!(response.success);
    assert_eq!(response.message, "Report generated successfully");
    assert!(response.data.is_some());
    let ps: Vec<u8> = response.progress_updates.iter().map(|u| u.progress).collect();
    assert!(ps.windows(2).all(|w| w[0] <= w[1]));
    assert_eq!(*ps.last().unwrap(), 100);
    assert_eq!(response.progress_updates.last().unwrap().stage, Stage::Complete);
}

#[test]
fn unconfigured_service_is_a_structured_failure() {
    let (_g, step) = Generation::start(
        request("hbcb", vec!["horizonblue.com"]),
        &settings(""),
        0,
    )
    .unwrap();
    match step {
        Step::Respond { response } => {
            assert!(!response.success);
            assert_eq!(response.message, "Mailchimp API settings not configured");
            assert_eq!(response.progress_updates.len(), 1);
            assert_eq!(response.progress_updates[0].stage, Stage::Initializing);
            assert_eq!(response.progress_updates[0].progress, 0);
        },
        _ => panic!("expected a structured failure"),
    }
}

#[test]
fn empty_tracking_urls_are_rejected() {
    let r = Generation::start(request("hbcb", vec![]), &settings("k-us1"), 0);
    match r {
        Err(GenError::Input(m)) => assert_eq!(m, "No tracking URLs provided"),
        _ => panic!("expected an input error"),
    }
}

#[test]
fn invalid_full_url_is_rejected_and_fragment_accepted() {
    let r = Generation::start(
        request("hbcb", vec!["https://exa mple.com"]),
        &settings("k-us1"),
        0,
    );
    match r {
        Err(GenError::Input(m)) => {
            assert_eq!(m, "Invalid tracking URL format: https://exa mple.com")
        },
        _ => panic!("expected an input error"),
    }
    let r = Generation::start(request("hbcb", vec!["horizonblue.com"]), &settings("k-us1"), 0);
    assert!(r.is_ok());
    let r = Generation::start(
        request("hbcb", vec!["https://www.horizonblue.com/plans"]),
        &settings("k-us1"),
        0,
    );
    assert!(r.is_ok());
    let r = Generation::start(
        request("hbcb", vec!["horizonblue.com", ""]),
        &settings("k-us1"),
        0,
    );
    assert!(r.is_ok());
    let r = Generation::start(request("hbcb", vec!["bad fragment"]), &settings("k-us1"), 0);
    match r {
        Err(GenError::Input(m)) => {
            assert_eq!(m, "Invalid tracking URL or path component: bad fragment")
        },
        _ => panic!("expected an input error"),
    }
}

#[test]
fn bad_end_date_is_rejected() {
    let mut req = request("hbcb", vec!["horizonblue.com"]);
    req.date_range.end_date = "2024-13-01".to_string();
    match Generation::start(req, &settings("k-us1"), 0) {
        Err(GenError::Input(m)) => {
            assert_eq!(m, "Failed to parse end date: not a valid YYYY-MM-DD date")
        },
        _ => panic!("expected an input error"),
    }
    let mut req = request("hbcb", vec!["horizonblue.com"]);
    req.date_range.end_date = "31/01/2024".to_string();
    assert!(Generation::start(req, &settings("k-us1"), 0).is_err());
}

#[test]
fn no_matching_newsletter_type_is_rejected() {
    let (mut g, _) = Generation::start(
        request("xyz", vec!["horizonblue.com"]),
        &settings("k-us1"),
        0,
    )
    .unwrap();
    match g.on_campaigns(true, CAMPAIGNS_BODY, 0) {
        Err(GenError::Input(m)) => assert_eq!(
            m,
            "No campaigns found matching the newsletter type 'xyz'. Please check if the newsletter type is correct."
        ),
        _ => panic!("expected an input error"),
    }
}

#[test]
fn empty_campaign_list_is_rejected() {
    let (mut g, _) = Generation::start(
        request("hbcb", vec!["horizonblue.com"]),
        &settings("k-us1"),
        0,
    )
    .unwrap();
    match g.on_campaigns(true, r#"{"campaigns": []}"#, 0) {
        Err(GenError::Input(m)) => {
            assert_eq!(m, "No campaigns found for the specified date range")
        },
        _ => panic!("expected an input error"),
    }
}

#[test]
fn missing_campaigns_array_is_a_structured_failure() {
    let (mut g, _) = Generation::start(
        request("hbcb", vec!["horizonblue.com"]),
        &settings("k-us1"),
        0,
    )
    .unwrap();
    match g.on_campaigns(true, r#"{"other": 1}"#, 0).unwrap() {
        Step::Respond { response } => {
            assert!(!response.success);
            assert_eq!(response.message, "No campaigns found in response");
        },
        _ => panic!("expected a structured failure"),
    }
}

#[test]
fn http_error_is_a_structured_failure() {
    let (mut g, _) = Generation::start(
        request("hbcb", vec!["horizonblue.com"]),
        &settings("k-us1"),
        0,
    )
    .unwrap();
    match g.on_campaigns(false, "api key invalid", 0).unwrap() {
        Step::Respond { response } => {
            assert!(!response.success);
            assert_eq!(response.message, "Mailchimp API error: api key invalid");
        },
        _ => panic!("expected a structured failure"),
    }
}

#[test]
fn unparseable_campaigns_body_is_fatal() {
    let (mut g, _) = Generation::start(
        request("hbcb", vec!["horizonblue.com"]),
        &settings("k-us1"),
        0,
    )
    .unwrap();
    match g.on_campaigns(true, "not json at all", 0) {
        Err(GenError::ApiParse(m)) => {
            assert!(m.starts_with("Failed to parse campaigns response: "))
        },
        _ => panic!("expected a parse error"),
    }
}

#[test]
fn zero_ad_clicks_yields_empty_result_failure() {
    let (mut g, _) = Generation::start(
        request("hbcb", vec!["no-such-fragment.example"]),
        &settings("k-us1"),
        0,
    )
    .unwrap();
    let step = g.on_campaigns(true, CAMPAIGNS_BODY, 0).unwrap();
    assert!(matches!(step, Step::FetchClicks { .. }));
    match g.on_clicks(true, Some(CLICKS_BODY), 0, "2026-10-12") {
        Step::Respond { response } => {
            assert!(!response.success);
            assert_eq!(
                response.message,
                "No data found for the specified tracking URLs in campaigns matching 'hbcb'. Please verify your tracking URLs and newsletter type."
            );
            let last = response.progress_updates.last().unwrap();
            assert_eq!(last.stage, Stage::ProcessingCampaigns);
            assert!(response
                .progress_updates
                .iter()
                .all(|u| u.stage != Stage::SavingReport && u.stage != Stage::Complete));
        },
        _ => panic!("expected a structured failure"),
    }
}

#[test]
fn failed_click_details_count_as_zero() {
    let (mut g, _) = Generation::start(
        request("hbcb", vec!["horizonblue.com"]),
        &settings("k-us1"),
        0,
    )
    .unwrap();
    let _ = g.on_campaigns(true, CAMPAIGNS_BODY, 0).unwrap();
    match g.on_clicks(false, None, 0, "2026-10-12") {
        Step::Respond { response } => assert!(!response.success),
        _ => panic!("a failed click fetch leaves no rows, so the result is empty"),
    }
}

#[test]
fn campaigns_without_id_or_time_are_skipped() {
    let body = r#"{
      "campaigns": [
        { "send_time": "2024-01-10T00:00:00Z", "settings": { "title": "HBCB one" } },
        { "id": "c2", "send_time": "not a timestamp", "settings": { "title": "HBCB two" } },
        {
          "id": "c3",
          "send_time": "2024-01-20T08:30:00Z",
          "settings": { "title": "HBCB three" },
          "report_summary": { "unique_opens": 50, "opens": 60 },
          "emails_sent": 100
        }
      ]
    }"#;
    let (mut g, _) = Generation::start(
        request("hbcb", vec!["horizonblue.com"]),
        &settings("k-us1"),
        0,
    )
    .unwrap();
    match g.on_campaigns(true, body, 0).unwrap() {
        Step::FetchClicks { url, .. } => {
            assert!(url.contains("/reports/c3/click-details"));
        },
        _ => panic!("the only usable campaign is the third"),
    }
}

#[test]
fn a_listing_with_only_unusable_campaigns_yields_the_empty_failure() {
    let body = r#"{
      "campaigns": [
        { "settings": { "title": "HBCB nameless" } },
        { "id": "c9", "settings": { "title": "HBCB timeless" } }
      ]
    }"#;
    let (mut g, _) = Generation::start(
        request("hbcb", vec!["horizonblue.com"]),
        &settings("k-us1"),
        0,
    )
    .unwrap();
    match g.on_campaigns(true, body, 0).unwrap() {
        Step::Respond { response } => {
            assert!(!response.success);
            assert!(response.message.starts_with("No data found"));
            let processing: Vec<u8> = response
                .progress_updates
                .iter()
                .filter(|u| u.stage == Stage::ProcessingCampaigns)
                .map(|u| u.progress)
                .collect();
            assert_eq!(processing, vec![40, 40, 60]);
        },
        _ => panic!("expected a structured failure"),
    }
}

#[test]
fn multiple_campaigns_sorted_by_send_date() {
    let body = r#"{
      "campaigns": [
        {
          "id": "late",
          "send_time": "2024-01-20T10:00:00Z",
          "settings": { "title": "HBCB late" },
          "report_summary": { "unique_opens": 100, "opens": 120 },
          "emails_sent": 500
        },
        {
          "id": "early",
          "send_time": "2024-01-05T10:00:00Z",
          "settings": { "title": "HBCB early" },
          "report_summary": { "unique_opens": 300, "opens": 330 },
          "emails_sent": 900
        }
      ]
    }"#;
    let clicks = r#"{ "urls_clicked": [ { "url": "https://www.horizonblue.com/x", "total_clicks": 3 } ] }"#;
    let (mut g, _) = Generation::start(
        request("hbcb", vec!["horizonblue.com"]),
        &settings("k-us1"),
        0,
    )
    .unwrap();
    let step = g.on_campaigns(true, body, 0).unwrap();
    assert!(matches!(step, Step::FetchClicks { .. }));
    let step = g.on_clicks(true, Some(clicks), 0, "2026-10-12");
    assert!(matches!(step, Step::FetchClicks { .. }));
    match g.on_clicks(true, Some(clicks), 7, "2026-10-12") {
        Step::Persist { report } => {
            let dates: Vec<&str> = report
                .data
                .report_data
                .iter()
                .map(|e| e.send_date.as_str())
                .collect();
            assert_eq!(dates, vec!["2024-01-05", "2024-01-20"]);
        },
        _ => panic!("expected the report to be persisted"),
    }
}

#[test]
fn multiple_fragments_add_clicks_without_deduplication() {
    let clicks = r#"{ "urls_clicked": [ { "url": "https://www.horizonblue.com/plan", "total_clicks": 5 } ] }"#;
    let (mut g, _) = Generation::start(
        request("hbcb", vec!["horizonblue", "plan"]),
        &settings("k-us1"),
        0,
    )
    .unwrap();
    let _ = g.on_campaigns(true, CAMPAIGNS_BODY, 0).unwrap();
    match g.on_clicks(true, Some(clicks), 0, "2026-10-12") {
        Step::Persist { report } => {
            assert_eq!(report.data.report_data[0].total_clicks, 10);
        },
        _ => panic!("expected the report to be persisted"),
    }
}

#[test]
fn hc_keyword_filters_by_its_alias() {
    let body = r#"{
      "campaigns": [
        {
          "id": "hc1",
          "send_time": "2024-01-08T09:00:00Z",
          "settings": { "title": "Health Care Roundup" },
          "report_summary": { "unique_opens": 10, "opens": 12 },
          "emails_sent": 40
        },
        { "id": "w1", "send_time": "2024-01-09T09:00:00Z", "settings": { "title": "Weekly Digest" } },
        {
          "id": "hc2",
          "send_time": "2024-01-10T09:00:00Z",
          "settings": { "title": "HC Briefing" },
          "report_summary": { "unique_opens": 20, "opens": 22 },
          "emails_sent": 50
        }
      ]
    }"#;
    let clicks = r#"{ "urls_clicked": [ { "url": "https://www.horizonblue.com/x", "total_clicks": 1 } ] }"#;
    let (mut g, _) = Generation::start(
        request("hc", vec!["horizonblue.com"]),
        &settings("k-us1"),
        0,
    )
    .unwrap();
    let step = g.on_campaigns(true, body, 0).unwrap();
    match step {
        Step::FetchClicks { url, .. } => assert!(url.contains("/reports/hc1/")),
        _ => panic!("expected the first matching campaign"),
    }
    let step = g.on_clicks(true, Some(clicks), 0, "2026-10-12");
    match step {
        Step::FetchClicks { url, .. } => assert!(url.contains("/reports/hc2/")),
        _ => panic!("the digest campaign is skipped by the filter"),
    }
    match g.on_clicks(true, Some(clicks), 0, "2026-10-12") {
        Step::Persist { report } => {
            assert_eq!(report.data.campaigns.len(), 2);
            assert_eq!(report.data.report_data.len(), 2);
        },
        _ => panic!("expected the report to be persisted"),
    }
}

#[test]
fn campaigns_without_ad_clicks_are_excluded_from_the_rows() {
    let body = r#"{
      "campaigns": [
        {
          "id": "quiet",
          "send_time": "2024-01-08T09:00:00Z",
          "settings": { "title": "HBCB quiet" },
          "report_summary": { "unique_opens": 10, "opens": 12 },
          "emails_sent": 40
        },
        {
          "id": "busy",
          "send_time": "2024-01-10T09:00:00Z",
          "settings": { "title": "HBCB busy" },
          "report_summary": { "unique_opens": 20, "opens": 22 },
          "emails_sent": 50
        }
      ]
    }"#;
    let no_hits = r#"{ "urls_clicked": [ { "url": "https://elsewhere.example/", "total_clicks": 9 } ] }"#;
    let hits = r#"{ "urls_clicked": [ { "url": "https://www.horizonblue.com/x", "total_clicks": 4 } ] }"#;
    let (mut g, _) = Generation::start(
        request("hbcb", vec!["horizonblue.com"]),
        &settings("k-us1"),
        0,
    )
    .unwrap();
    let _ = g.on_campaigns(true, body, 0).unwrap();
    let step = g.on_clicks(true, Some(no_hits), 0, "2026-10-12");
    assert!(matches!(step, Step::FetchClicks { .. }));
    match g.on_clicks(true, Some(hits), 0, "2026-10-12") {
        Step::Persist { report } => {
            assert_eq!(report.data.report_data.len(), 1);
            assert_eq!(report.data.report_data[0].send_date, "2024-01-10");
            assert_eq!(report.data.report_data[0].total_clicks, 4);
            assert!(report.data.report_data.iter().all(|e| e.total_clicks > 0));
        },
        _ => panic!("expected the report to be persisted"),
    }
}

#[test]
fn progress_is_monotone_and_reaches_hundred_only_on_success() {
    let (mut g, _) = Generation::start(
        request("hbcb", vec!["horizonblue.com"]),
        &settings("k-us1"),
        100,
    )
    .unwrap();
    let _ = g.on_campaigns(true, CAMPAIGNS_BODY, 150).unwrap();
    let step = g.on_clicks(true, Some(CLICKS_BODY), 900, "2026-10-12");
    assert!(matches!(step, Step::Persist { .. }));
    let response = g.on_persisted();
    let ps: Vec<u8> = response.progress_updates.iter().map(|u| u.progress).collect();
    assert!(ps.windows(2).all(|w| w[0] <= w[1]));
    assert_eq!(ps.first(), Some(&0u8));
    assert_eq!(ps.last(), Some(&100u8));
    assert!(progresses(&g).is_empty());
}
