use vstd::prelude::*;
use vstd::multiset::Multiset;
use crate::json::{Json, JsonV, get_spec, elems_view, json_view, json_parse_of, parse_json,
    json_height, seq_height, lemma_elems_view, lemma_obj_get_height};
use crate::model::{DateRange, ReportEntry, ReportEntryV, ReportDoc, ReportDocV, SavedReport,
    SavedReportV, ReportRequest, ReportRequestV, Settings, GenError};
use crate::progress::{ProgressUpdate, ProgressUpdateV, monotone, last_progress,
    lemma_monotone_push, init_update, init_update_spec, connecting_update, connecting_update_spec,
    fetching_update, fetching_update_spec, filtering_update, filtering_update_spec,
    processing_start_update, processing_start_spec, campaign_update, campaign_update_spec,
    finalizing_update, finalizing_update_spec, saving_update, saving_update_spec, complete_update,
    complete_update_spec};
use crate::validate::{campaign_matches, campaign_title, validate_tracking_urls,
    validate_campaign_data, all_tracking_urls_ok};
use crate::mailchimp::{auth_header, auth_header_spec, campaigns_url, campaigns_url_spec,
    click_details_url, click_details_url_spec};
use crate::dates::{date_ok, parse_date, rfc3339_ok, rfc3339_date};
use crate::text::{contains_seq, lex_le, lemma_lex_le_total, lemma_lex_le_trans, str_le, dec_spec,
    u64_to_string};
use crate::settings::str_field;
use crate::reports::{u64_field, report_wf};

verus! {

// --- what a click-details response contributes ---

pub open spec fn sat_add(a: u64, b: u64) -> u64 {
    if a + b > u64::MAX {
        u64::MAX
    } else {
        (a + b) as u64
    }
}

/// What one clicked URL adds: its clicks once for every non-empty
/// tracking fragment it contains, without deduplication, saturating.
pub open spec fn frag_hits(url: Seq<char>, clicks: u64, tracking: Seq<Seq<char>>) -> u64
    decreases tracking.len(),
{
    if tracking.len() == 0 {
        0
    } else {
        let rest = frag_hits(url, clicks, tracking.skip(1));
        if tracking[0].len() > 0 && contains_seq(url, tracking[0]) {
            sat_add(clicks, rest)
        } else {
            rest
        }
    }
}

pub open spec fn item_clicks(item: JsonV, tracking: Seq<Seq<char>>) -> u64 {
    match str_field(item, "url"@) {
        Some(u) => frag_hits(u, u64_field(item, "total_clicks"@), tracking),
        None => 0,
    }
}

pub open spec fn items_clicks(items: Seq<JsonV>, tracking: Seq<Seq<char>>) -> u64
    decreases items.len(),
{
    if items.len() == 0 {
        0
    } else {
        sat_add(item_clicks(items[0], tracking), items_clicks(items.skip(1), tracking))
    }
}

/// The ad clicks a click-details document yields for the tracking URLs.
pub open spec fn clicks_of_body(doc: JsonV, tracking: Seq<Seq<char>>) -> u64 {
    match get_spec(doc, "urls_clicked"@) {
        Some(v) => match v {
            JsonV::Arr(items) => items_clicks(items, tracking),
            _ => 0,
        },
        _ => 0,
    }
}

/// The ad clicks a click-details exchange yields: a failed or
/// unparseable response counts as none.
pub open spec fn clicks_of_response(ok: bool, body: Option<Seq<char>>, tracking: Seq<Seq<char>>) -> u64 {
    if ok {
        match body {
            Some(b) => match json_parse_of(b) {
                Some(d) => clicks_of_body(d, tracking),
                None => 0,
            },
            None => 0,
        }
    } else {
        0
    }
}

fn frag_hits_exec(url: &str, clicks: u64, tracking: &Vec<String>) -> (r: u64)
    ensures
        r == frag_hits(url@, clicks, Seq::new(tracking@.len(), |i: int| tracking@[i]@)),
{
    let ghost tv = Seq::new(tracking@.len(), |i: int| tracking@[i]@);
    let n = tracking.len();
    let mut acc: u64 = 0;
    let mut i: usize = n;
    while i > 0
        invariant
            i <= n,
            n == tracking@.len(),
            tv.len() == n,
            forall|k: int| 0 <= k < n ==> #[trigger] tv[k] == tracking@[k]@,
            acc == frag_hits(url@, clicks, tv.skip(i as int)),
        decreases i,
    {
        i -= 1;
        let t = &tracking[i];
        if t.unicode_len() > 0 && crate::text::contains_str(url, t.as_str()) {
            if acc > u64::MAX - clicks {
                acc = u64::MAX;
            } else {
                acc = acc + clicks;
            }
        }
        proof {
            assert(tv.skip(i as int)[0] == tv[i as int]);
            assert(tv.skip(i as int).skip(1) =~= tv.skip(i + 1));
        }
    }
    proof {
        assert(tv.skip(0) =~= tv);
    }
    acc
}

fn item_clicks_exec(item: &Json, tracking: &Vec<String>) -> (r: u64)
    ensures
        r == item_clicks(item@, Seq::new(tracking@.len(), |i: int| tracking@[i]@)),
{
    match item.get("url") {
        Some(u) => match u.as_str() {
            Some(url) => {
                let clicks = match item.get("total_clicks") {
                    Some(c) => match c.as_u64() {
                        Some(n) => n,
                        None => 0,
                    },
                    None => 0,
                };
                frag_hits_exec(url, clicks, tracking)
            },
            None => 0,
        },
        None => 0,
    }
}

/// The ad clicks of one parsed click-details document.
pub fn ad_clicks(doc: &Json, tracking: &Vec<String>) -> (r: u64)
    ensures
        r == clicks_of_body(doc@, Seq::new(tracking@.len(), |i: int| tracking@[i]@)),
{
    let ghost tv = Seq::new(tracking@.len(), |i: int| tracking@[i]@);
    match doc.get("urls_clicked") {
        Some(v) => match v.as_array() {
            Some(items) => {
                let ghost iv = v@->Arr_0;
                let n = items.len();
                let mut acc: u64 = 0;
                let mut i: usize = n;
                proof {
                    lemma_elems_view(items@);
                }
                while i > 0
                    invariant
                        i <= n,
                        n == items@.len(),
                        iv.len() == n,
                        forall|k: int| 0 <= k < n ==> #[trigger] iv[k] == json_view(items@[k]),
                        tv == Seq::new(tracking@.len(), |k: int| tracking@[k]@),
                        acc == items_clicks(iv.skip(i as int), tv),
                    decreases i,
                {
                    i -= 1;
                    let one = item_clicks_exec(&items[i], tracking);
                    if one > u64::MAX - acc {
                        acc = u64::MAX;
                    } else {
                        acc = acc + one;
                    }
                    proof {
                        assert(iv.skip(i as int)[0] == iv[i as int]);
                        assert(iv.skip(i as int).skip(1) =~= iv.skip(i + 1));
                    }
                }
                proof {
                    assert(iv.skip(0) =~= iv);
                }
                acc
            },
            None => 0,
        },
        None => 0,
    }
}

// --- reading a campaign record ---

pub open spec fn campaign_summary(c: JsonV) -> JsonV {
    match get_spec(c, "report_summary"@) {
        Some(rs) => rs,
        _ => JsonV::Null,
    }
}

pub open spec fn campaign_unique_opens(c: JsonV) -> u64 {
    u64_field(campaign_summary(c), "unique_opens"@)
}

pub open spec fn campaign_total_opens(c: JsonV) -> u64 {
    u64_field(campaign_summary(c), "opens"@)
}

pub open spec fn campaign_recipients(c: JsonV) -> u64 {
    u64_field(c, "emails_sent"@)
}

/// A campaign the pipeline can report on: it names its identifier and an
/// RFC 3339 send time.
pub open spec fn campaign_usable(c: JsonV) -> bool {
    &&& str_field(c, "id"@) is Some
    &&& match str_field(c, "send_time"@) {
        Some(st) => rfc3339_ok(st),
        None => false,
    }
}

/// The calendar date a usable campaign was sent.
pub open spec fn campaign_date(c: JsonV) -> Seq<char> {
    match str_field(c, "send_time"@) {
        Some(st) => st.subrange(0, 10),
        None => Seq::empty(),
    }
}

/// The report row a usable campaign yields for a given ad-click count.
pub open spec fn campaign_entry(c: JsonV, clicks: u64) -> ReportEntryV {
    ReportEntryV {
        send_date: campaign_date(c),
        unique_opens: campaign_unique_opens(c),
        total_opens: campaign_total_opens(c),
        total_recipients: campaign_recipients(c),
        total_clicks: clicks,
    }
}

/// The identifier and send date of a usable campaign.
fn campaign_id_and_date(c: &Json) -> (r: Option<(String, String)>)
    ensures
        r is Some <==> campaign_usable(c@),
        r matches Some(p) ==> str_field(c@, "id"@) == Some(p.0@) && p.1@ == campaign_date(c@),
{
    let id = match c.get("id") {
        Some(v) => match v.as_str() {
            Some(s) => s.to_owned(),
            None => {
                return None;
            },
        },
        None => {
            return None;
        },
    };
    match c.get("send_time") {
        Some(v) => match v.as_str() {
            Some(st) => match rfc3339_date(st) {
                Some(d) => Some((id, d)),
                None => None,
            },
            None => None,
        },
        None => None,
    }
}

fn campaign_counts(c: &Json) -> (r: (u64, u64, u64))
    ensures
        r.0 == campaign_unique_opens(c@),
        r.1 == campaign_total_opens(c@),
        r.2 == campaign_recipients(c@),
{
    let (uo, to): (u64, u64) = match c.get("report_summary") {
        Some(rs) => {
            let uo = match rs.get("unique_opens") {
                Some(v) => match v.as_u64() {
                    Some(n) => n,
                    None => 0,
                },
                None => 0,
            };
            let to = match rs.get("opens") {
                Some(v) => match v.as_u64() {
                    Some(n) => n,
                    None => 0,
                },
                None => 0,
            };
            (uo, to)
        },
        None => {
            assert(get_spec(JsonV::Null, "unique_opens"@) is None);
            (0, 0)
        },
    };
    let tr = match c.get("emails_sent") {
        Some(v) => match v.as_u64() {
            Some(n) => n,
            None => 0,
        },
        None => 0,
    };
    (uo, to, tr)
}

/// The title shown for a campaign while it is processed.
pub open spec fn title_or_untitled(c: JsonV) -> Seq<char> {
    match campaign_title(c) {
        Some(t) => t,
        None => "Untitled"@,
    }
}

fn campaign_title_exec(c: &Json) -> (r: String)
    ensures
        r@ == title_or_untitled(c@),
{
    match c.get("settings") {
        Some(s) => match s.get("title") {
            Some(t) => match t.as_str() {
                Some(title) => title.to_owned(),
                None => String::from_str("Untitled"),
            },
            None => String::from_str("Untitled"),
        },
        None => String::from_str("Untitled"),
    }
}

// --- filtering ---

/// The campaigns whose titles match the newsletter-type keyword, kept
/// in the order the listing gave them.
pub open spec fn filter_matching(cs: Seq<JsonV>, kw: Seq<char>) -> Seq<JsonV>
    decreases cs,
{
    if cs.len() == 0 {
        Seq::empty()
    } else {
        (if campaign_matches(cs[0], kw) {
            seq![cs[0]]
        } else {
            Seq::empty()
        }) + filter_matching(cs.skip(1), kw)
    }
}

/// The filtered list nests no deeper than the list it came from.
pub proof fn lemma_filter_height(cs: Seq<JsonV>, kw: Seq<char>)
    ensures
        seq_height(filter_matching(cs, kw)) <= seq_height(cs),
    decreases cs,
{
    if cs.len() > 0 {
        lemma_filter_height(cs.skip(1), kw);
        if campaign_matches(cs[0], kw) {
            assert(filter_matching(cs, kw) =~= seq![cs[0]] + filter_matching(cs.skip(1), kw));
            lemma_seq_height_cons(cs[0], filter_matching(cs.skip(1), kw));
        }
    }
}

proof fn lemma_seq_height_cons(x: JsonV, rest: Seq<JsonV>)
    ensures
        seq_height(seq![x] + rest) == if json_height(x) > seq_height(rest) {
            json_height(x)
        } else {
            seq_height(rest)
        },
{
    let s = seq![x] + rest;
    assert(s[0] == x);
    assert(s.skip(1) =~= rest);
}

fn filter_campaigns(cs: Vec<Json>, kw: &str) -> (r: Vec<Json>)
    ensures
        elems_view(r@) == filter_matching(elems_view(cs@), kw@),
{
    let ghost cv = elems_view(cs@);
    let mut input = cs;
    let mut out: Vec<Json> = Vec::new();
    proof {
        assert(elems_view(out@) + filter_matching(elems_view(input@), kw@) =~= filter_matching(
            cv,
            kw@,
        ));
    }
    while input.len() > 0
        invariant
            elems_view(out@) + filter_matching(elems_view(input@), kw@) =~= filter_matching(
                cv,
                kw@,
            ),
        decreases input@.len(),
    {
        let ghost in_before = input@;
        let ghost inv0 = elems_view(input@);
        let ghost outv0 = elems_view(out@);
        proof {
            lemma_elems_view(input@);
        }
        let c = input.remove(0);
        proof {
            lemma_elems_view(input@);
            assert(input@ =~= in_before.skip(1));
            assert(elems_view(input@) =~= inv0.skip(1));
            assert(json_view(c) == inv0[0]);
        }
        let m = crate::validate::campaign_matches_exec(&c, kw);
        if m {
            let ghost ob = out@;
            out.push(c);
            proof {
                lemma_elems_view(ob);
                lemma_elems_view(out@);
                assert(elems_view(out@) =~= outv0.push(inv0[0]));
                assert(elems_view(out@) + filter_matching(elems_view(input@), kw@)
                    =~= filter_matching(cv, kw@));
            }
        } else {
            proof {
                assert(elems_view(out@) + filter_matching(elems_view(input@), kw@)
                    =~= filter_matching(cv, kw@));
            }
        }
    }
    proof {
        assert(elems_view(input@) =~= Seq::<JsonV>::empty());
        assert(filter_matching(Seq::<JsonV>::empty(), kw@) =~= Seq::<JsonV>::empty());
        assert(elems_view(out@) =~= filter_matching(cv, kw@));
    }
    out
}

// --- sorting the rows by date ---

pub open spec fn entry_views(es: Seq<ReportEntry>) -> Seq<ReportEntryV> {
    Seq::new(es.len(), |i: int| es[i]@)
}

pub open spec fn updates_view(us: Seq<ProgressUpdate>) -> Seq<ProgressUpdateV> {
    Seq::new(us.len(), |i: int| us[i]@)
}

/// Rows stand in ascending send-date order.
pub open spec fn sorted_by_date(es: Seq<ReportEntryV>) -> bool {
    forall|i: int, j: int|
        0 <= i <= j < es.len() ==> lex_le((#[trigger] es[i]).send_date, (#[trigger] es[j]).send_date)
}

/// Sorts the rows ascending by send date; the rows themselves are kept,
/// none added and none lost.
pub fn sort_entries(entries: Vec<ReportEntry>) -> (r: Vec<ReportEntry>)
    ensures
        sorted_by_date(entry_views(r@)),
        entry_views(r@).to_multiset() == entry_views(entries@).to_multiset(),
        r@.len() == entries@.len(),
{
    let ghost orig = entry_views(entries@);
    let mut input = entries;
    let mut out: Vec<ReportEntry> = Vec::new();
    proof {
        assert(entry_views(input@) =~= orig);
        assert(entry_views(out@) =~= Seq::<ReportEntryV>::empty());
        Seq::<ReportEntryV>::empty().to_multiset_ensures();
        orig.to_multiset_ensures();
        assert(entry_views(out@).to_multiset().add(entry_views(input@).to_multiset())
            =~= orig.to_multiset());
    }
    while input.len() > 0
        invariant
            sorted_by_date(entry_views(out@)),
            forall|a: int, b: int|
                0 <= a < out@.len() && 0 <= b < input@.len() ==> lex_le(
                    (#[trigger] entry_views(out@)[a]).send_date,
                    (#[trigger] entry_views(input@)[b]).send_date,
                ),
            out@.len() + input@.len() == orig.len(),
            entry_views(out@).to_multiset().add(entry_views(input@).to_multiset())
                == orig.to_multiset(),
        decreases input@.len(),
    {
        let n = input.len();
        let mut m: usize = 0;
        let mut k: usize = 1;
        proof {
            crate::text::lemma_lex_le_refl(input@[0]@.send_date);
        }
        while k < n
            invariant
                m < k <= n,
                n == input@.len(),
                forall|j: int|
                    0 <= j < k ==> lex_le(
                        entry_views(input@)[m as int].send_date,
                        (#[trigger] entry_views(input@)[j]).send_date,
                    ),
            decreases n - k,
        {
            if str_le(input[k].send_date.as_str(), input[m].send_date.as_str()) {
                proof {
                    assert forall|j: int| 0 <= j < k + 1 implies lex_le(
                        entry_views(input@)[k as int].send_date,
                        (#[trigger] entry_views(input@)[j]).send_date,
                    ) by {
                        assert(entry_views(input@)[j] == input@[j]@);
                        assert(entry_views(input@)[m as int] == input@[m as int]@);
                        assert(entry_views(input@)[k as int] == input@[k as int]@);
                        if j < k {
                            lemma_lex_le_trans(
                                input@[k as int]@.send_date,
                                input@[m as int]@.send_date,
                                input@[j]@.send_date,
                            );
                        } else {
                            crate::text::lemma_lex_le_refl(input@[k as int]@.send_date);
                        }
                    }
                }
                m = k;
            } else {
                proof {
                    lemma_lex_le_total(input@[k as int]@.send_date, input@[m as int]@.send_date);
                }
            }
            k += 1;
        }
        let ghost inv0 = entry_views(input@);
        let ghost outv0 = entry_views(out@);
        let x = input.remove(m);
        let ghost xv = x@;
        proof {
            assert(xv == inv0[m as int]);
            assert(entry_views(input@) =~= inv0.remove(m as int));
            inv0.to_multiset_ensures();
            assert(entry_views(input@).to_multiset() =~= inv0.to_multiset().remove(xv));
            assert(inv0[m as int] == xv);
            assert(inv0.contains(xv));
        }
        out.push(x);
        proof {
            assert(entry_views(out@) =~= outv0.push(xv));
            outv0.to_multiset_ensures();
            assert(entry_views(out@).to_multiset() =~= outv0.to_multiset().insert(xv));
            assert(outv0.to_multiset().insert(xv).add(inv0.to_multiset().remove(xv))
                =~= outv0.to_multiset().add(inv0.to_multiset()));
            // the pushed row is not before any row already placed
            assert(forall|a: int|
                0 <= a < outv0.len() ==> lex_le(
                    (#[trigger] outv0[a]).send_date,
                    xv.send_date,
                ));
            // and not after any row still waiting
            assert forall|b: int| 0 <= b < entry_views(input@).len() implies lex_le(
                xv.send_date,
                (#[trigger] entry_views(input@)[b]).send_date,
            ) by {
                if b < m {
                    assert(entry_views(input@)[b] == inv0[b]);
                } else {
                    assert(entry_views(input@)[b] == inv0[b + 1]);
                }
            }
        }
    }
    proof {
        assert(entry_views(input@) =~= Seq::<ReportEntryV>::empty());
        entry_views(input@).to_multiset_ensures();
        assert(entry_views(input@).to_multiset() =~= Multiset::<ReportEntryV>::empty());
        assert(entry_views(out@).to_multiset() =~= entry_views(out@).to_multiset().add(
            entry_views(input@).to_multiset(),
        ));
    }
    out
}

// --- the pipeline's outward shape ---

/// What one generation returns to the front end: a structured outcome
/// with the full progress history.
pub struct ReportResponse {
    pub success: bool,
    pub message: String,
    pub data: Option<ReportDoc>,
    pub progress_updates: Vec<ProgressUpdate>,
}

#[verifier::ext_equal]
pub struct ReportResponseV {
    pub success: bool,
    pub message: Seq<char>,
    pub data: Option<ReportDocV>,
    pub progress_updates: Seq<ProgressUpdateV>,
}

impl View for ReportResponse {
    type V = ReportResponseV;

    open spec fn view(&self) -> ReportResponseV {
        ReportResponseV {
            success: self.success,
            message: self.message@,
            data: match self.data {
                Some(d) => Some(d@),
                None => None,
            },
            progress_updates: updates_view(self.progress_updates@),
        }
    }
}

/// What the caller must do next: issue one of the two requests, persist
/// the finished report, or hand the response back.
pub enum Step {
    FetchCampaigns { url: String, auth: String },
    FetchClicks { url: String, auth: String },
    Persist { report: SavedReport },
    Respond { response: ReportResponse },
}

enum Phase {
    AwaitCampaigns,
    Processing { campaigns: Vec<Json>, idx: usize, entries: Vec<ReportEntry> },
    AwaitPersist { data: ReportDoc },
    Done,
}

/// One report generation in flight. The caller performs each returned
/// `Step` and hands the outcome back; the decisions in between are made
/// here.
pub struct Generation {
    request: ReportRequest,
    api_key: String,
    start_ms: u64,
    updates: Vec<ProgressUpdate>,
    phase: Phase,
}

/// The first usable campaign at or after `from`, or the length.
pub open spec fn next_usable(cv: Seq<JsonV>, from: int) -> int
    decreases cv.len() - from,
{
    if from >= cv.len() {
        cv.len() as int
    } else if campaign_usable(cv[from]) {
        from
    } else {
        next_usable(cv, from + 1)
    }
}

/// The updates emitted while stepping from campaign `from` to the next
/// usable one: every visited campaign announces itself, usable or not.
pub open spec fn advance_updates(cv: Seq<JsonV>, from: int, start_ms: u64, now_ms: u64) -> Seq<
    ProgressUpdateV,
>
    decreases cv.len() - from,
{
    if from >= cv.len() {
        Seq::empty()
    } else {
        let u = campaign_update_spec(
            from,
            cv.len() as int,
            title_or_untitled(cv[from]),
            start_ms,
            now_ms,
        );
        if campaign_usable(cv[from]) {
            seq![u]
        } else {
            seq![u] + advance_updates(cv, from + 1, start_ms, now_ms)
        }
    }
}

impl Generation {
    /// Every update pushed so far, in order.
    pub closed spec fn history(self) -> Seq<ProgressUpdateV> {
        updates_view(self.updates@)
    }

    pub closed spec fn req(self) -> ReportRequestV {
        self.request@
    }

    pub closed spec fn key(self) -> Seq<char> {
        self.api_key@
    }

    pub closed spec fn started(self) -> u64 {
        self.start_ms
    }

    pub closed spec fn awaiting_campaigns(self) -> bool {
        self.phase is AwaitCampaigns
    }

    pub closed spec fn processing(self) -> bool {
        self.phase is Processing
    }

    pub closed spec fn awaiting_persist(self) -> bool {
        self.phase is AwaitPersist
    }

    pub closed spec fn finished(self) -> bool {
        self.phase is Done
    }

    /// The filtered campaigns under processing.
    pub closed spec fn campaigns(self) -> Seq<JsonV> {
        match self.phase {
            Phase::Processing { campaigns, .. } => elems_view(campaigns@),
            _ => Seq::empty(),
        }
    }

    /// The campaign whose click details are awaited.
    pub closed spec fn current(self) -> int {
        match self.phase {
            Phase::Processing { idx, .. } => idx as int,
            _ => 0,
        }
    }

    /// The rows collected so far.
    pub closed spec fn entries(self) -> Seq<ReportEntryV> {
        match self.phase {
            Phase::Processing { entries, .. } => entry_views(entries@),
            _ => Seq::empty(),
        }
    }

    /// The assembled document awaiting persistence.
    pub closed spec fn pending_data(self) -> ReportDocV {
        match self.phase {
            Phase::AwaitPersist { data } => data@,
            _ => ReportDocV {
                campaigns: Seq::empty(),
                report_data: Seq::empty(),
                metrics: self.request@.metrics,
            },
        }
    }

    /// The state invariant: progress only ever climbs, and each phase
    /// stands where its stage allows.
    pub closed spec fn wf(self) -> bool {
        &&& monotone(self.history())
        &&& self.api_key@.len() <= 0x10_0000
        &&& match self.phase {
            Phase::AwaitCampaigns => last_progress(self.history()) <= 20,
            Phase::Processing { campaigns, idx, entries } => {
                let cv = elems_view(campaigns@);
                &&& 0 < cv.len()
                &&& (idx as int) < cv.len()
                &&& campaign_usable(cv[idx as int])
                &&& seq_height(cv) <= 4096
                &&& last_progress(self.history()) <= 40 + ((idx as int) * 40) / (cv.len() as int)
                &&& forall|k: int|
                    0 <= k < entries@.len() ==> (#[trigger] entry_views(entries@)[k]).total_clicks
                        > 0
            },
            Phase::AwaitPersist { data } => {
                &&& last_progress(self.history()) <= 90
                &&& sorted_by_date(data@.report_data)
                &&& forall|k: int|
                    0 <= k < data@.report_data.len() ==> (
                    #[trigger] data@.report_data[k]).total_clicks > 0
                &&& data@.metrics == self.request@.metrics
                &&& seq_height(data@.campaigns) <= 4096
            },
            Phase::Done => true,
        }
    }

    /// Begins a generation: the tracking URLs must pass, the service must
    /// be configured, and the end date must be a strict calendar date;
    /// then the campaign listing is requested.
    pub fn start(request: ReportRequest, settings: &Settings, now_ms: u64) -> (r: Result<
        (Generation, Step),
        GenError,
    >)
        requires
            settings.mailchimp_api_key@.len() <= 0x10_0000,
        ensures
            ({
                let tv = Seq::new(
                    request.tracking_urls@.len(),
                    |i: int| request.tracking_urls@[i]@,
                );
                let tracking_ok = tv.len() > 0 && all_tracking_urls_ok(tv);
                let configured = settings.mailchimp_api_key@.len() > 0
                    && settings.mailchimp_audience_id@.len() > 0;
                &&& (r is Err <==> (!tracking_ok || (configured && !date_ok(
                    request.date_range.end_date@,
                ))))
                &&& (r matches Err(e) ==> e is Input)
                &&& (tv.len() == 0 ==> (r matches Err(GenError::Input(m)) && m@
                    == "No tracking URLs provided"@))
                &&& (tv.len() > 0 && !tracking_ok ==> (r matches Err(GenError::Input(m))
                    && exists|i: int|
                    {
                        &&& 0 <= i < tv.len()
                        &&& !crate::validate::tracking_url_ok(#[trigger] tv[i])
                        &&& forall|k: int|
                            0 <= k < i ==> crate::validate::tracking_url_ok(#[trigger] tv[k])
                        &&& m@ == crate::validate::invalid_url_message(tv[i])
                    }))
                &&& (tracking_ok && configured && !date_ok(request.date_range.end_date@)
                    ==> (r matches Err(GenError::Input(m)) && m@
                    == "Failed to parse end date: not a valid YYYY-MM-DD date"@))
                &&& match r {
                    Ok((g, step)) => {
                        &&& g.wf()
                        &&& g.req() == request@
                        &&& g.key() == settings.mailchimp_api_key@
                        &&& g.started() == now_ms
                        &&& if configured {
                            &&& g.awaiting_campaigns()
                            &&& g.history() =~= seq![
                                init_update_spec(),
                                connecting_update_spec(),
                                fetching_update_spec(),
                            ]
                            &&& (step matches Step::FetchCampaigns { url, auth } && url@
                                == campaigns_url_spec(
                                settings.mailchimp_api_key@,
                                request.date_range.start_date@,
                                request.date_range.end_date@,
                            ) && auth@ == auth_header_spec(settings.mailchimp_api_key@))
                        } else {
                            &&& g.finished()
                            &&& (step matches Step::Respond { response } && !response.success
                                && response@.message == "Mailchimp API settings not configured"@
                                && response@.data is None && response@.progress_updates =~= seq![
                                init_update_spec(),
                            ])
                        }
                    },
                    Err(_) => true,
                }
            }),
    {
        match validate_tracking_urls(&request.tracking_urls) {
            Ok(()) => {},
            Err(e) => {
                proof {
                    let tv = Seq::new(
                        request.tracking_urls@.len(),
                        |i: int| request.tracking_urls@[i]@,
                    );
                    if tv.len() > 0 {
                        let i = choose|i: int|
                            {
                                &&& 0 <= i < request.tracking_urls@.len()
                                &&& !crate::validate::tracking_url_ok(
                                    #[trigger] request.tracking_urls@[i]@,
                                )
                                &&& forall|k: int|
                                    0 <= k < i ==> crate::validate::tracking_url_ok(
                                        #[trigger] request.tracking_urls@[k]@,
                                    )
                                &&& (e matches GenError::Input(m) && m@
                                    == crate::validate::invalid_url_message(
                                    request.tracking_urls@[i]@,
                                ))
                            };
                        assert(tv[i] == request.tracking_urls@[i]@);
                        assert forall|k: int|
                            0 <= k < i implies crate::validate::tracking_url_ok(
                            #[trigger] tv[k],
                        ) by {
                            assert(tv[k] == request.tracking_urls@[k]@);
                        }
                        assert(!crate::validate::tracking_url_ok(tv[i]));
                    }
                }
                return Err(e);
            },
        }
        let mut updates: Vec<ProgressUpdate> = Vec::new();
        updates.push(init_update());
        if settings.mailchimp_api_key.as_str().is_empty()
            || settings.mailchimp_audience_id.as_str().is_empty() {
            let response = ReportResponse {
                success: false,
                message: String::from_str("Mailchimp API settings not configured"),
                data: None,
                progress_updates: updates,
            };
            proof {
                assert(updates_view(response.progress_updates@) =~= seq![init_update_spec()]);
            }
            let g = Generation {
                request,
                api_key: settings.mailchimp_api_key.clone(),
                start_ms: now_ms,
                updates: Vec::new(),
                phase: Phase::Done,
            };
            proof {
                assert(updates_view(g.updates@) =~= Seq::<ProgressUpdateV>::empty());
            }
            return Ok((g, Step::Respond { response }));
        }
        updates.push(connecting_update());
        if parse_date(request.date_range.end_date.as_str()).is_none() {
            return Err(
                GenError::Input(
                    String::from_str("Failed to parse end date: not a valid YYYY-MM-DD date"),
                ),
            );
        }
        updates.push(fetching_update());
        let url = campaigns_url(
            settings.mailchimp_api_key.as_str(),
            request.date_range.start_date.as_str(),
            request.date_range.end_date.as_str(),
        );
        let auth = auth_header(settings.mailchimp_api_key.as_str());
        let g = Generation {
            request,
            api_key: settings.mailchimp_api_key.clone(),
            start_ms: now_ms,
            updates,
            phase: Phase::AwaitCampaigns,
        };
        proof {
            assert(g.history() =~= seq![
                init_update_spec(),
                connecting_update_spec(),
                fetching_update_spec(),
            ]);
            assert(monotone(g.history()));
        }
        Ok((g, Step::FetchCampaigns { url, auth }))
    }
}

// --- stepping over the filtered campaigns ---

pub open spec fn some_str(o: Option<Seq<char>>) -> Seq<char> {
    match o {
        Some(s) => s,
        None => Seq::empty(),
    }
}

/// The identifier of a usable campaign.
pub open spec fn campaign_id_spec(c: JsonV) -> Seq<char> {
    some_str(str_field(c, "id"@))
}

proof fn lemma_mul40_div_mono(i: int, n: int)
    requires
        0 <= i < n,
    ensures
        (i * 40) / n <= ((i + 1) * 40) / n,
        ((i + 1) * 40) / n <= 40,
        (i * 40) / n >= 0,
{
    assert((i * 40) / n <= ((i + 1) * 40) / n) by (nonlinear_arith)
        requires
            0 <= i < n,
    ;
    assert(((i + 1) * 40) / n <= 40) by (nonlinear_arith)
        requires
            0 <= i < n,
    ;
    assert((i * 40) / n >= 0) by (nonlinear_arith)
        requires
            0 <= i < n,
    ;
}

/// Emits one update per campaign from `from` on, and stops at the first
/// usable one with its click-details request prepared; `None` when only
/// unusable campaigns remained.
fn advance(
    campaigns: &Vec<Json>,
    from: usize,
    api_key: &str,
    start_ms: u64,
    now_ms: u64,
    updates: &mut Vec<ProgressUpdate>,
) -> (r: Option<(usize, String, String)>)
    requires
        0 < campaigns@.len(),
        from <= campaigns@.len(),
        api_key@.len() <= 0x10_0000,
        monotone(updates_view(old(updates)@)),
        last_progress(updates_view(old(updates)@)) <= 40 + ((from as int) * 40) / (
        campaigns@.len() as int),
    ensures
        ({
            let cv = elems_view(campaigns@);
            let nu = next_usable(cv, from as int);
            &&& updates_view(final(updates)@) =~= updates_view(old(updates)@) + advance_updates(
                cv,
                from as int,
                start_ms,
                now_ms,
            )
            &&& monotone(updates_view(final(updates)@))
            &&& (r is Some <==> nu < cv.len())
            &&& match r {
                Some(p) => {
                    &&& p.0 == nu
                    &&& campaign_usable(cv[nu])
                    &&& p.1@ == click_details_url_spec(api_key@, campaign_id_spec(cv[nu]))
                    &&& p.2@ == auth_header_spec(api_key@)
                    &&& last_progress(updates_view(final(updates)@)) <= 40 + (nu * 40) / (
                    cv.len() as int)
                },
                None => last_progress(updates_view(final(updates)@)) <= 80,
            }
        }),
{
    let ghost cv = elems_view(campaigns@);
    let ghost base = updates_view(old(updates)@);
    let n = campaigns.len();
    let mut i = from;
    proof {
        lemma_elems_view(campaigns@);
        assert(updates_view(updates@) =~= base + Seq::<ProgressUpdateV>::empty());
    }
    while i < n
        invariant
            from <= i <= n,
            next_usable(cv, from as int) == next_usable(cv, i as int),
            advance_updates(cv, from as int, start_ms, now_ms) =~= updates_view(updates@).skip(
                base.len() as int,
            ) + advance_updates(cv, i as int, start_ms, now_ms),
            updates_view(updates@).subrange(0, base.len() as int) =~= base,
            updates_view(updates@).len() >= base.len(),
            monotone(updates_view(updates@)),
            last_progress(updates_view(updates@)) <= 40 + ((i as int) * 40) / (n as int),
        decreases n - i,
    {
        let title = campaign_title_exec(&campaigns[i]);
        let u = campaign_update(i, n, title.as_str(), start_ms, now_ms);
        let ghost ub = updates_view(updates@);
        proof {
            lemma_mul40_div_mono(i as int, n as int);
            lemma_monotone_push(ub, u@);
        }
        updates.push(u);
        proof {
            assert(updates_view(updates@) =~= ub.push(u@));
            assert(updates_view(updates@).subrange(0, base.len() as int) =~= ub.subrange(
                0,
                base.len() as int,
            ));
            assert(updates_view(updates@).skip(base.len() as int) =~= ub.skip(base.len() as int)
                + seq![u@]);
        }
        match campaign_id_and_date(&campaigns[i]) {
            Some(p) => {
                let url = click_details_url(api_key, p.0.as_str());
                let auth = auth_header(api_key);
                proof {
                    assert(campaign_usable(cv[i as int]));
                    assert(next_usable(cv, i as int) == i as int);
                    assert(advance_updates(cv, i as int, start_ms, now_ms) =~= seq![u@]);
                    assert(advance_updates(cv, from as int, start_ms, now_ms) =~= updates_view(
                        updates@,
                    ).skip(base.len() as int));
                    assert(updates_view(updates@) =~= updates_view(updates@).subrange(
                        0,
                        base.len() as int,
                    ) + updates_view(updates@).skip(base.len() as int));
                }
                return Some((i, url, auth));
            },
            None => {
                proof {
                    assert(!campaign_usable(cv[i as int]));
                    assert(next_usable(cv, i as int) == next_usable(cv, i + 1));
                    assert(advance_updates(cv, i as int, start_ms, now_ms) =~= seq![u@]
                        + advance_updates(cv, i + 1, start_ms, now_ms));
                    assert(advance_updates(cv, from as int, start_ms, now_ms) =~= updates_view(
                        updates@,
                    ).skip(base.len() as int) + advance_updates(cv, i + 1, start_ms, now_ms));
                }
                i += 1;
            },
        }
    }
    proof {
        assert(advance_updates(cv, i as int, start_ms, now_ms) =~= Seq::<ProgressUpdateV>::empty());
        assert(advance_updates(cv, from as int, start_ms, now_ms) =~= updates_view(updates@).skip(
            base.len() as int,
        ));
        assert(updates_view(updates@) =~= updates_view(updates@).subrange(0, base.len() as int)
            + updates_view(updates@).skip(base.len() as int));
        assert(next_usable(cv, i as int) == cv.len());
        assert(((n as int) * 40) / (n as int) == 40) by (nonlinear_arith)
            requires
                n >= 1,
        ;
        assert(last_progress(updates_view(updates@)) <= 80);
    }
    None
}

// --- the remaining steps ---

/// The campaign array of a campaign-listing response.
pub open spec fn campaigns_of(doc: JsonV) -> Option<Seq<JsonV>> {
    match get_spec(doc, "campaigns"@) {
        Some(v) => match v {
            JsonV::Arr(cs) => Some(cs),
            _ => None,
        },
        _ => None,
    }
}

/// The message of the structured failure when no row was produced.
pub open spec fn empty_result_message(kw: Seq<char>) -> Seq<char> {
    "No data found for the specified tracking URLs in campaigns matching '"@ + kw
        + "'. Please verify your tracking URLs and newsletter type."@
}

/// A title matched, so the filtered list is not empty.
proof fn lemma_filter_nonempty(cs: Seq<JsonV>, kw: Seq<char>)
    requires
        exists|i: int| 0 <= i < cs.len() && campaign_matches(#[trigger] cs[i], kw),
    ensures
        filter_matching(cs, kw).len() > 0,
    decreases cs,
{
    if !campaign_matches(cs[0], kw) {
        let i = choose|i: int| 0 <= i < cs.len() && campaign_matches(#[trigger] cs[i], kw);
        assert(cs.skip(1)[i - 1] == cs[i]);
        lemma_filter_nonempty(cs.skip(1), kw);
    }
}

impl Generation {
    /// Consumes the campaign-listing response: a failed fetch or an
    /// empty listing becomes a structured failure; a listing with no
    /// matching title is rejected; otherwise the matching campaigns are
    /// kept and the first usable one's click details are requested.
    pub fn on_campaigns(&mut self, ok: bool, body: &str, now_ms: u64) -> (r: Result<
        Step,
        GenError,
    >)
        requires
            old(self).wf(),
            old(self).awaiting_campaigns(),
        ensures
            final(self).wf(),
            final(self).req() == old(self).req(),
            final(self).key() == old(self).key(),
            final(self).started() == old(self).started(),
            r is Err ==> *final(self) == *old(self),
            !ok ==> (r matches Ok(s) && (s matches Step::Respond { response } && {
                &&& !response.success
                &&& response@.message == "Mailchimp API error: "@ + body@
                &&& response@.data is None
                &&& response@.progress_updates == old(self).history()
                &&& monotone(response@.progress_updates)
                &&& last_progress(response@.progress_updates) < 100
                &&& final(self).finished()
            })),
            ok ==> match json_parse_of(body@) {
                None => r matches Err(e) && (e matches GenError::ApiParse(m) && exists|err: Seq<
                    char,
                >| m@ == "Failed to parse campaigns response: "@ + err),
                Some(doc) => match campaigns_of(doc) {
                    None => (r matches Ok(s) && (s matches Step::Respond { response } && {
                        &&& !response.success
                        &&& response@.message == "No campaigns found in response"@
                        &&& response@.data is None
                        &&& response@.progress_updates == old(self).history()
                        &&& monotone(response@.progress_updates)
                        &&& last_progress(response@.progress_updates) < 100
                        &&& final(self).finished()
                    })),
                    Some(cs) => {
                        let kw = old(self).req().newsletter_type;
                        let matched = exists|i: int|
                            0 <= i < cs.len() && campaign_matches(#[trigger] cs[i], kw);
                        if cs.len() == 0 {
                            r matches Err(GenError::Input(m)) && m@
                                == crate::validate::no_campaigns_message()
                        } else if !matched {
                            r matches Err(GenError::Input(m)) && m@
                                == crate::validate::no_matching_campaigns_message(kw)
                        } else {
                            let filtered = filter_matching(cs, kw);
                            let nu = next_usable(filtered, 0);
                            let hist = old(self).history() + seq![
                                filtering_update_spec(cs.len() as int),
                                processing_start_spec(filtered.len() as int),
                            ] + advance_updates(filtered, 0, old(self).started(), now_ms);
                            if nu < filtered.len() {
                                &&& (r matches Ok(s) && (s matches Step::FetchClicks {
                                    url,
                                    auth,
                                } && {
                                    &&& url@ == click_details_url_spec(
                                        old(self).key(),
                                        campaign_id_spec(filtered[nu]),
                                    )
                                    &&& auth@ == auth_header_spec(old(self).key())
                                }))
                                &&& final(self).processing()
                                &&& final(self).campaigns() == filtered
                                &&& final(self).current() == nu
                                &&& final(self).entries() =~= Seq::<ReportEntryV>::empty()
                                &&& final(self).history() =~= hist
                            } else {
                                &&& (r matches Ok(s) && (s matches Step::Respond { response } && {
                                    &&& !response.success
                                    &&& response@.message == empty_result_message(kw)
                                    &&& response@.data is None
                                    &&& response@.progress_updates =~= hist
                                    &&& monotone(response@.progress_updates)
                                    &&& last_progress(response@.progress_updates) < 100
                                }))
                                &&& final(self).finished()
                            }
                        }
                    },
                },
            },
    {
        if !ok {
            let mut m = String::from_str("Mailchimp API error: ");
            m.append(body);
            let mut ups: Vec<ProgressUpdate> = Vec::new();
            core::mem::swap(&mut ups, &mut self.updates);
            self.phase = Phase::Done;
            let response = ReportResponse {
                success: false,
                message: m,
                data: None,
                progress_updates: ups,
            };
            proof {
                assert(updates_view(self.updates@) =~= Seq::<ProgressUpdateV>::empty());
            }
            return Ok(Step::Respond { response });
        }
        let doc = match parse_json(body) {
            Ok(d) => d,
            Err(e) => {
                let mut m = String::from_str("Failed to parse campaigns response: ");
                m.append(e.as_str());
                proof {
                    assert(m@ == "Failed to parse campaigns response: "@ + e@);
                }
                return Err(GenError::ApiParse(m));
            },
        };
        let ghost docv = doc@;
        let cs: Vec<Json> = match doc.take_field("campaigns") {
            Some(campaigns_json) => {
                match campaigns_json {
                    Json::Arr(cs) => {
                        proof {
                            assert(campaigns_of(docv) == Some(elems_view(cs@)));
                        }
                        cs
                    },
                    _ => {
                        let mut ups: Vec<ProgressUpdate> = Vec::new();
                        core::mem::swap(&mut ups, &mut self.updates);
                        self.phase = Phase::Done;
                        let response = ReportResponse {
                            success: false,
                            message: String::from_str("No campaigns found in response"),
                            data: None,
                            progress_updates: ups,
                        };
                        proof {
                            assert(updates_view(self.updates@) =~= Seq::<ProgressUpdateV>::empty());
                        }
                        return Ok(Step::Respond { response });
                    },
                }
            },
            None => {
                let mut ups: Vec<ProgressUpdate> = Vec::new();
                core::mem::swap(&mut ups, &mut self.updates);
                self.phase = Phase::Done;
                let response = ReportResponse {
                    success: false,
                    message: String::from_str("No campaigns found in response"),
                    data: None,
                    progress_updates: ups,
                };
                proof {
                    assert(updates_view(self.updates@) =~= Seq::<ProgressUpdateV>::empty());
                }
                return Ok(Step::Respond { response });
            },
        };
        let ghost csv = elems_view(cs@);
        proof {
            lemma_elems_view(cs@);
        }
        validate_campaign_data(&cs, self.request.newsletter_type.as_str())?;
        let ghost base = self.history();
        let u30 = filtering_update(cs.len());
        proof {
            lemma_monotone_push(self.history(), u30@);
        }
        self.updates.push(u30);
        proof {
            assert(self.history() =~= base.push(u30@));
        }
        let filtered = filter_campaigns(cs, self.request.newsletter_type.as_str());
        proof {
            lemma_elems_view(filtered@);
            assert(elems_view(filtered@) == filter_matching(csv, self.request.newsletter_type@));
            lemma_filter_nonempty(csv, self.request.newsletter_type@);
            lemma_filter_height(csv, self.request.newsletter_type@);
            if docv is Obj {
                lemma_obj_get_height(docv->Obj_0, "campaigns"@);
            }
            assert(seq_height(csv) <= 4096);
        }
        let ghost base2 = self.history();
        let u40 = processing_start_update(filtered.len());
        proof {
            lemma_monotone_push(self.history(), u40@);
        }
        self.updates.push(u40);
        proof {
            assert(self.history() =~= base2.push(u40@));
            assert(self.history() =~= base + seq![u30@, u40@]);
        }
        let ghost started = self.start_ms;
        let r = advance(
            &filtered,
            0,
            self.api_key.as_str(),
            self.start_ms,
            now_ms,
            &mut self.updates,
        );
        proof {
            assert(self.history() =~= base + seq![u30@, u40@] + advance_updates(
                elems_view(filtered@),
                0,
                started,
                now_ms,
            ));
        }
        match r {
            Some(p) => {
                let (idx, url, auth) = p;
                self.phase = Phase::Processing { campaigns: filtered, idx, entries: Vec::new() };
                proof {
                    assert(entry_views(Seq::<ReportEntry>::empty()) =~= Seq::<
                        ReportEntryV,
                    >::empty());
                }
                Ok(Step::FetchClicks { url, auth })
            },
            None => {
                let mut m = String::from_str(
                    "No data found for the specified tracking URLs in campaigns matching '",
                );
                m.append(self.request.newsletter_type.as_str());
                m.append("'. Please verify your tracking URLs and newsletter type.");
                let mut ups: Vec<ProgressUpdate> = Vec::new();
                core::mem::swap(&mut ups, &mut self.updates);
                self.phase = Phase::Done;
                let response = ReportResponse {
                    success: false,
                    message: m,
                    data: None,
                    progress_updates: ups,
                };
                proof {
                    assert(updates_view(self.updates@) =~= Seq::<ProgressUpdateV>::empty());
                }
                Ok(Step::Respond { response })
            },
        }
    }
}

impl Generation {
    /// Consumes one click-details response: the campaign's ad clicks are
    /// tallied (a failed or unparseable response counts none), a row is
    /// kept only when clicks were found, and the pipeline moves on to
    /// the next usable campaign, or assembles and saves the report.
    pub fn on_clicks(&mut self, ok: bool, body: Option<&str>, now_ms: u64, today: &str) -> (r:
        Step)
        requires
            old(self).wf(),
            old(self).processing(),
        ensures
            final(self).wf(),
            final(self).req() == old(self).req(),
            final(self).key() == old(self).key(),
            final(self).started() == old(self).started(),
            ({
                let cv = old(self).campaigns();
                let idx = old(self).current();
                let clicks = clicks_of_response(
                    ok,
                    match body {
                        Some(b) => Some(b@),
                        None => None,
                    },
                    old(self).req().tracking_urls,
                );
                let new_entries = if clicks > 0 {
                    old(self).entries().push(campaign_entry(cv[idx], clicks))
                } else {
                    old(self).entries()
                };
                let nu = next_usable(cv, idx + 1);
                let hist = old(self).history() + advance_updates(
                    cv,
                    idx + 1,
                    old(self).started(),
                    now_ms,
                );
                &&& (nu < cv.len() ==> {
                    &&& (r matches Step::FetchClicks { url, auth } && url@
                        == click_details_url_spec(old(self).key(), campaign_id_spec(cv[nu]))
                        && auth@ == auth_header_spec(old(self).key()))
                    &&& final(self).processing()
                    &&& final(self).campaigns() == cv
                    &&& final(self).current() == nu
                    &&& final(self).entries() =~= new_entries
                    &&& final(self).history() =~= hist
                })
                &&& (nu == cv.len() && new_entries.len() == 0 ==> {
                    &&& (r matches Step::Respond { response } && {
                        &&& !response.success
                        &&& response@.message == empty_result_message(
                            old(self).req().newsletter_type,
                        )
                        &&& response@.data is None
                        &&& response@.progress_updates =~= hist
                        &&& monotone(response@.progress_updates)
                        &&& last_progress(response@.progress_updates) < 100
                    })
                    &&& final(self).finished()
                })
                &&& (nu == cv.len() && new_entries.len() > 0 ==> {
                    &&& (r matches Step::Persist { report } && {
                        &&& report@.id == "report-"@ + dec_spec(now_ms as nat)
                        &&& report@.name == old(self).req().advertiser + "-"@ + old(
                            self,
                        ).req().newsletter_type + "-"@ + today@
                        &&& report@.advertiser == old(self).req().advertiser
                        &&& report@.report_type == old(self).req().newsletter_type
                        &&& report@.date_range == old(self).req().date_range
                        &&& report@.created == today@
                        &&& report@.metrics == old(self).req().metrics
                        &&& report@.data.metrics == old(self).req().metrics
                        &&& report@.data.campaigns == cv
                        &&& sorted_by_date(report@.data.report_data)
                        &&& report@.data.report_data.to_multiset() == new_entries.to_multiset()
                        &&& (forall|k: int|
                            0 <= k < report@.data.report_data.len() ==> (
                            #[trigger] report@.data.report_data[k]).total_clicks > 0)
                        &&& report_wf(report@)
                        &&& final(self).pending_data() == report@.data
                    })
                    &&& final(self).awaiting_persist()
                    &&& final(self).history() =~= hist + seq![
                        finalizing_update_spec(),
                        saving_update_spec(),
                    ]
                })
            }),
    {
        let clicks: u64 = if ok {
            match body {
                Some(b) => match parse_json(b) {
                    Ok(doc) => ad_clicks(&doc, &self.request.tracking_urls),
                    Err(_) => 0,
                },
                None => 0,
            }
        } else {
            0
        };
        let mut ph = Phase::Done;
        core::mem::swap(&mut ph, &mut self.phase);
        match ph {
            Phase::Processing { campaigns, idx, mut entries } => {
                let ghost cv = elems_view(campaigns@);
                let ghost oldentries = entry_views(entries@);
                proof {
                    lemma_elems_view(campaigns@);
                }
                if clicks > 0 {
                    let p = match campaign_id_and_date(&campaigns[idx]) {
                        Some(p) => p,
                        None => {
                            proof {
                                assert(false);
                            }
                            (String::new(), String::new())
                        },
                    };
                    let counts = campaign_counts(&campaigns[idx]);
                    let ghost eb = entry_views(entries@);
                    entries.push(
                        ReportEntry {
                            send_date: p.1,
                            unique_opens: counts.0,
                            total_opens: counts.1,
                            total_recipients: counts.2,
                            total_clicks: clicks,
                        },
                    );
                    proof {
                        assert(entry_views(entries@) =~= eb.push(
                            campaign_entry(cv[idx as int], clicks),
                        ));
                    }
                }
                let ghost new_entries = entry_views(entries@);
                let total = campaigns.len();
                proof {
                    lemma_mul40_div_mono(idx as int, total as int);
                }
                proof {
                    assert(idx < total);
                }
                let r = advance(
                    &campaigns,
                    idx + 1,
                    self.api_key.as_str(),
                    self.start_ms,
                    now_ms,
                    &mut self.updates,
                );
                match r {
                    Some(p) => {
                        let (nxt, url, auth) = p;
                        self.phase = Phase::Processing { campaigns, idx: nxt, entries };
                        Step::FetchClicks { url, auth }
                    },
                    None => {
                        if entries.len() == 0 {
                            let mut m = String::from_str(
                                "No data found for the specified tracking URLs in campaigns matching '",
                            );
                            m.append(self.request.newsletter_type.as_str());
                            m.append("'. Please verify your tracking URLs and newsletter type.");
                            let mut ups: Vec<ProgressUpdate> = Vec::new();
                            core::mem::swap(&mut ups, &mut self.updates);
                            self.phase = Phase::Done;
                            let response = ReportResponse {
                                success: false,
                                message: m,
                                data: None,
                                progress_updates: ups,
                            };
                            proof {
                                assert(updates_view(self.updates@) =~= Seq::<
                                    ProgressUpdateV,
                                >::empty());
                                assert(new_entries.len() == 0);
                            }
                            Step::Respond { response }
                        } else {
                            let ghost hb = self.history();
                            let uf = finalizing_update();
                            proof {
                                lemma_monotone_push(self.history(), uf@);
                            }
                            self.updates.push(uf);
                            proof {
                                assert(self.history() =~= hb.push(uf@));
                            }
                            let sorted = sort_entries(entries);
                            let data = ReportDoc {
                                campaigns,
                                report_data: sorted,
                                metrics: self.request.metrics,
                            };
                            let ghost hb2 = self.history();
                            let us = saving_update();
                            proof {
                                lemma_monotone_push(self.history(), us@);
                            }
                            self.updates.push(us);
                            proof {
                                assert(self.history() =~= hb2.push(us@));
                            }
                            let mut id = String::from_str("report-");
                            let ms = u64_to_string(now_ms);
                            id.append(ms.as_str());
                            let mut name = self.request.advertiser.clone();
                            name.append("-");
                            name.append(self.request.newsletter_type.as_str());
                            name.append("-");
                            name.append(today);
                            proof {
                                reveal_strlit("-");
                                assert("-"@ =~= seq!['-']);
                                assert(name@ == self.request.advertiser@ + "-"@
                                    + self.request.newsletter_type@ + "-"@ + today@);
                            }
                            let dr = DateRange {
                                start_date: self.request.date_range.start_date.clone(),
                                end_date: self.request.date_range.end_date.clone(),
                            };
                            let data2 = ReportDoc {
                                campaigns: crate::reports::campaigns_duplicate(&data.campaigns),
                                report_data: crate::reports::entries_duplicate(&data.report_data),
                                metrics: data.metrics,
                            };
                            proof {
                                assert(data2@ =~= data@);
                            }
                            let report = SavedReport {
                                id,
                                name,
                                advertiser: self.request.advertiser.clone(),
                                report_type: self.request.newsletter_type.clone(),
                                date_range: dr,
                                created: today.to_owned(),
                                data,
                                metrics: self.request.metrics,
                            };
                            self.phase = Phase::AwaitPersist { data: data2 };
                            proof {
                                // every kept row holds clicks
                                let rows = report@.data.report_data;
                                rows.to_multiset_ensures();
                                new_entries.to_multiset_ensures();
                                assert forall|k: int| 0 <= k < rows.len() implies (
                                #[trigger] rows[k]).total_clicks > 0 by {
                                    assert(rows.contains(rows[k]));
                                    assert(rows.to_multiset().count(rows[k]) > 0);
                                    assert(new_entries.to_multiset().count(rows[k]) > 0);
                                    assert(new_entries.contains(rows[k]));
                                    let j = choose|j: int|
                                        0 <= j < new_entries.len() && new_entries[j] == rows[k];
                                    if clicks > 0 && j == new_entries.len() - 1 {
                                    } else {
                                        assert(oldentries[j].total_clicks > 0);
                                    }
                                }
                                assert(report@.date_range =~= old(self).req().date_range);
                            }
                            Step::Persist { report }
                        }
                    },
                }
            },
            _ => {
                proof {
                    assert(false);
                }
                Step::Respond {
                    response: ReportResponse {
                        success: false,
                        message: String::new(),
                        data: None,
                        progress_updates: Vec::new(),
                    },
                }
            },
        }
    }

    /// Acknowledges that the report was persisted: the generation
    /// completes and the successful response carries the data and the
    /// whole progress history, ending at one hundred.
    pub fn on_persisted(&mut self) -> (r: ReportResponse)
        requires
            old(self).wf(),
            old(self).awaiting_persist(),
        ensures
            final(self).finished(),
            final(self).wf(),
            r@.success,
            r@.message == "Report generated successfully"@,
            r@.data == Some(old(self).pending_data()),
            r@.progress_updates =~= old(self).history().push(complete_update_spec()),
            monotone(r@.progress_updates),
            last_progress(r@.progress_updates) == 100,
            sorted_by_date(old(self).pending_data().report_data),
            forall|k: int|
                0 <= k < old(self).pending_data().report_data.len() ==> (#[trigger] old(
                    self,
                ).pending_data().report_data[k]).total_clicks > 0,
            old(self).pending_data().metrics == old(self).req().metrics,
    {
        let ghost hb = self.history();
        let uc = complete_update();
        proof {
            lemma_monotone_push(self.history(), uc@);
        }
        self.updates.push(uc);
        proof {
            assert(self.history() =~= hb.push(uc@));
        }
        let mut ups: Vec<ProgressUpdate> = Vec::new();
        core::mem::swap(&mut ups, &mut self.updates);
        let mut ph = Phase::Done;
        core::mem::swap(&mut ph, &mut self.phase);
        proof {
            assert(updates_view(self.updates@) =~= Seq::<ProgressUpdateV>::empty());
        }
        match ph {
            Phase::AwaitPersist { data } => ReportResponse {
                success: true,
                message: String::from_str("Report generated successfully"),
                data: Some(data),
                progress_updates: ups,
            },
            _ => {
                proof {
                    assert(false);
                }
                ReportResponse {
                    success: false,
                    message: String::new(),
                    data: None,
                    progress_updates: Vec::new(),
                }
            },
        }
    }

    /// How many updates stand in the history.
    pub fn update_count(&self) -> (r: usize)
        ensures
            r == self.history().len(),
    {
        self.updates.len()
    }

    /// The update at one position of the history.
    pub fn update_at(&self, i: usize) -> (r: &ProgressUpdate)
        requires
            i < self.history().len(),
        ensures
            r@ == self.history()[i as int],
    {
        &self.updates[i]
    }
}

} // verus!
