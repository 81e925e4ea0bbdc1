use vstd::prelude::*;
use crate::json::{Json, JsonV, elems_view};

verus! {

/// Which columns a report export shows.
#[derive(Clone, Copy, PartialEq, Eq, Structural, Debug)]
pub struct Metrics {
    pub unique_opens: bool,
    pub total_opens: bool,
    pub total_recipients: bool,
    pub total_clicks: bool,
    pub ctr: bool,
}

impl Metrics {
    /// The column selection of records written before columns could be
    /// chosen: every column shown.
    pub fn all() -> (r: Metrics)
        ensures
            r == (Metrics {
                unique_opens: true,
                total_opens: true,
                total_recipients: true,
                total_clicks: true,
                ctr: true,
            }),
    {
        Metrics {
            unique_opens: true,
            total_opens: true,
            total_recipients: true,
            total_clicks: true,
            ctr: true,
        }
    }
}

/// The persisted configuration.
pub struct Settings {
    pub mailchimp_api_key: String,
    pub mailchimp_audience_id: String,
    pub advertisers: Vec<String>,
    pub download_directory: String,
}

#[verifier::ext_equal]
pub struct SettingsV {
    pub mailchimp_api_key: Seq<char>,
    pub mailchimp_audience_id: Seq<char>,
    pub advertisers: Seq<Seq<char>>,
    pub download_directory: Seq<char>,
}

impl View for Settings {
    type V = SettingsV;

    open spec fn view(&self) -> SettingsV {
        SettingsV {
            mailchimp_api_key: self.mailchimp_api_key@,
            mailchimp_audience_id: self.mailchimp_audience_id@,
            advertisers: Seq::new(self.advertisers@.len(), |i: int| self.advertisers@[i]@),
            download_directory: self.download_directory@,
        }
    }
}

pub struct DateRange {
    pub start_date: String,
    pub end_date: String,
}

#[verifier::ext_equal]
pub struct DateRangeV {
    pub start_date: Seq<char>,
    pub end_date: Seq<char>,
}

impl View for DateRange {
    type V = DateRangeV;

    open spec fn view(&self) -> DateRangeV {
        DateRangeV { start_date: self.start_date@, end_date: self.end_date@ }
    }
}

/// One row of a report: a qualifying campaign's date and engagement
/// counts. The click-through rate is derived, never stored.
pub struct ReportEntry {
    pub send_date: String,
    pub unique_opens: u64,
    pub total_opens: u64,
    pub total_recipients: u64,
    pub total_clicks: u64,
}

#[verifier::ext_equal]
pub struct ReportEntryV {
    pub send_date: Seq<char>,
    pub unique_opens: u64,
    pub total_opens: u64,
    pub total_recipients: u64,
    pub total_clicks: u64,
}

impl View for ReportEntry {
    type V = ReportEntryV;

    open spec fn view(&self) -> ReportEntryV {
        ReportEntryV {
            send_date: self.send_date@,
            unique_opens: self.unique_opens,
            total_opens: self.total_opens,
            total_recipients: self.total_recipients,
            total_clicks: self.total_clicks,
        }
    }
}

/// Click-through rate in millionths of a percent, rounded half-up:
/// `100_000_000 * clicks / opens` when `opens > 0`, else exactly zero.
pub open spec fn ctr_micro_spec(clicks: u64, opens: u64) -> u128 {
    if opens > 0 {
        (((clicks * 1_000_000_000) / (opens as int) + 5) / 10) as u128
    } else {
        0
    }
}

impl ReportEntry {
    /// The row's click-through rate as a percentage in fixed-point
    /// millionths: ad clicks over unique opens, and zero when nothing
    /// was opened.
    pub fn ctr_micro(&self) -> (r: u128)
        ensures
            r == ctr_micro_spec(self.total_clicks, self.unique_opens),
    {
        if self.unique_opens > 0 {
            ((self.total_clicks as u128 * 1_000_000_000) / (self.unique_opens as u128) + 5) / 10
        } else {
            0
        }
    }
}

/// The assembled report: the campaigns that qualified, one row per
/// campaign with ad clicks, and the chosen columns.
pub struct ReportDoc {
    pub campaigns: Vec<Json>,
    pub report_data: Vec<ReportEntry>,
    pub metrics: Metrics,
}

#[verifier::ext_equal]
pub struct ReportDocV {
    pub campaigns: Seq<JsonV>,
    pub report_data: Seq<ReportEntryV>,
    pub metrics: Metrics,
}

impl View for ReportDoc {
    type V = ReportDocV;

    open spec fn view(&self) -> ReportDocV {
        ReportDocV {
            campaigns: elems_view(self.campaigns@),
            report_data: Seq::new(self.report_data@.len(), |i: int| self.report_data@[i]@),
            metrics: self.metrics,
        }
    }
}

/// A generated report as it is persisted: identity, naming, the request
/// that produced it, and the data.
pub struct SavedReport {
    pub id: String,
    pub name: String,
    pub advertiser: String,
    pub report_type: String,
    pub date_range: DateRange,
    pub created: String,
    pub data: ReportDoc,
    pub metrics: Metrics,
}

#[verifier::ext_equal]
pub struct SavedReportV {
    pub id: Seq<char>,
    pub name: Seq<char>,
    pub advertiser: Seq<char>,
    pub report_type: Seq<char>,
    pub date_range: DateRangeV,
    pub created: Seq<char>,
    pub data: ReportDocV,
    pub metrics: Metrics,
}

impl View for SavedReport {
    type V = SavedReportV;

    open spec fn view(&self) -> SavedReportV {
        SavedReportV {
            id: self.id@,
            name: self.name@,
            advertiser: self.advertiser@,
            report_type: self.report_type@,
            date_range: self.date_range@,
            created: self.created@,
            data: self.data@,
            metrics: self.metrics,
        }
    }
}

/// What a report is generated from.
pub struct ReportRequest {
    pub newsletter_type: String,
    pub advertiser: String,
    pub tracking_urls: Vec<String>,
    pub date_range: DateRange,
    pub metrics: Metrics,
}

#[verifier::ext_equal]
pub struct ReportRequestV {
    pub newsletter_type: Seq<char>,
    pub advertiser: Seq<char>,
    pub tracking_urls: Seq<Seq<char>>,
    pub date_range: DateRangeV,
    pub metrics: Metrics,
}

impl View for ReportRequest {
    type V = ReportRequestV;

    open spec fn view(&self) -> ReportRequestV {
        ReportRequestV {
            newsletter_type: self.newsletter_type@,
            advertiser: self.advertiser@,
            tracking_urls: Seq::new(self.tracking_urls@.len(), |i: int| self.tracking_urls@[i]@),
            date_range: self.date_range@,
            metrics: self.metrics,
        }
    }
}

/// A hard failure that aborts a generation.
#[derive(Debug)]
pub enum GenError {
    /// The request was rejected before or during validation.
    Input(String),
    /// A remote response was not parseable JSON.
    ApiParse(String),
}

impl GenError {
    pub fn message(self) -> (r: String)
        ensures
            self matches GenError::Input(m) ==> r@ == m@,
            self matches GenError::ApiParse(m) ==> r@ == m@,
    {
        match self {
            GenError::Input(m) => m,
            GenError::ApiParse(m) => m,
        }
    }
}

} // verus!
