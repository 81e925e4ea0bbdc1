use vstd::prelude::*;
use crate::json::{Json, JsonV, get_spec, obj_get, elems_view, fields_view, json_view,
    json_parse_of, parse_json, json_height, seq_height, fields_height, lemma_elems_view,
    lemma_fields_view, lemma_seq_height_le, lemma_fields_height_le, lemma_seq_height_ge,
    lemma_obj_get_height, as_u64_spec, json_pretty, pretty};
use crate::model::{Metrics, DateRange, DateRangeV, ReportEntry, ReportEntryV, ReportDoc,
    ReportDocV, SavedReport, SavedReportV, ctr_micro_spec};
use crate::text::{dec_spec, frac6_spec, lemma_dec_val, u64_to_string, u128_to_string, frac6};
use crate::settings::str_field;

verus! {

// --- column selections ---

pub open spec fn metrics_to_json_spec(m: Metrics) -> JsonV {
    JsonV::Obj(
        seq![
            ("unique_opens"@, JsonV::Bool(m.unique_opens)),
            ("total_opens"@, JsonV::Bool(m.total_opens)),
            ("total_recipients"@, JsonV::Bool(m.total_recipients)),
            ("total_clicks"@, JsonV::Bool(m.total_clicks)),
            ("ctr"@, JsonV::Bool(m.ctr)),
        ],
    )
}

pub open spec fn bool_field(j: JsonV, key: Seq<char>) -> Option<bool> {
    match get_spec(j, key) {
        Some(v) => match v {
            JsonV::Bool(b) => Some(b),
            _ => None,
        },
        _ => None,
    }
}

/// The column selection a document denotes when all five flags are
/// present: older records without them show every column.
pub open spec fn metrics_of_doc(j: JsonV) -> Metrics {
    match (
        bool_field(j, "unique_opens"@),
        bool_field(j, "total_opens"@),
        bool_field(j, "total_recipients"@),
        bool_field(j, "total_clicks"@),
        bool_field(j, "ctr"@),
    ) {
        (Some(uo), Some(to), Some(tr), Some(tc), Some(c)) => Metrics {
            unique_opens: uo,
            total_opens: to,
            total_recipients: tr,
            total_clicks: tc,
            ctr: c,
        },
        _ => Metrics {
            unique_opens: true,
            total_opens: true,
            total_recipients: true,
            total_clicks: true,
            ctr: true,
        },
    }
}

pub fn metrics_to_json(m: &Metrics) -> (r: Json)
    ensures
        r@ == metrics_to_json_spec(*m),
{
    let mut fields: Vec<(String, Json)> = Vec::new();
    fields.push((String::from_str("unique_opens"), Json::Bool(m.unique_opens)));
    fields.push((String::from_str("total_opens"), Json::Bool(m.total_opens)));
    fields.push((String::from_str("total_recipients"), Json::Bool(m.total_recipients)));
    fields.push((String::from_str("total_clicks"), Json::Bool(m.total_clicks)));
    fields.push((String::from_str("ctr"), Json::Bool(m.ctr)));
    let r = Json::Obj(fields);
    proof {
        lemma_fields_view(fields@);
        assert(r@->Obj_0 =~= metrics_to_json_spec(*m)->Obj_0);
    }
    r
}

fn get_bool_field(doc: &Json, key: &str) -> (r: Option<bool>)
    ensures
        r == bool_field(doc@, key@),
{
    match doc.get(key) {
        Some(v) => v.as_bool(),
        None => None,
    }
}

pub fn metrics_of_json(doc: &Json) -> (r: Metrics)
    ensures
        r == metrics_of_doc(doc@),
{
    match (
        get_bool_field(doc, "unique_opens"),
        get_bool_field(doc, "total_opens"),
        get_bool_field(doc, "total_recipients"),
        get_bool_field(doc, "total_clicks"),
        get_bool_field(doc, "ctr"),
    ) {
        (Some(uo), Some(to), Some(tr), Some(tc), Some(c)) => Metrics {
            unique_opens: uo,
            total_opens: to,
            total_recipients: tr,
            total_clicks: tc,
            ctr: c,
        },
        _ => Metrics::all(),
    }
}

proof fn lemma_metrics_round_trip(m: Metrics)
    ensures
        metrics_of_doc(metrics_to_json_spec(m)) == m,
        json_height(metrics_to_json_spec(m)) == 1,
{
    reveal_strlit("unique_opens");
    reveal_strlit("total_opens");
    reveal_strlit("total_recipients");
    reveal_strlit("total_clicks");
    reveal_strlit("ctr");
    assert("unique_opens"@.len() == 12);
    assert("total_opens"@.len() == 11);
    assert("total_recipients"@.len() == 16);
    assert("total_clicks"@.len() == 12);
    assert("ctr"@.len() == 3);
    assert("total_opens"@[6] == 'o');
    assert("total_clicks"@[6] == 'c');
    let fs = metrics_to_json_spec(m)->Obj_0;
    assert(fs.skip(1).skip(1) =~= fs.skip(2));
    assert(fs.skip(2).skip(1) =~= fs.skip(3));
    assert(fs.skip(3).skip(1) =~= fs.skip(4));
    assert(obj_get(fs, "unique_opens"@) == Some(JsonV::Bool(m.unique_opens)));
    assert(obj_get(fs.skip(1), "total_opens"@) == Some(JsonV::Bool(m.total_opens)));
    assert(obj_get(fs, "total_opens"@) == Some(JsonV::Bool(m.total_opens)));
    assert(obj_get(fs.skip(2), "total_recipients"@) == Some(JsonV::Bool(m.total_recipients)));
    assert(obj_get(fs.skip(1), "total_recipients"@) == Some(JsonV::Bool(m.total_recipients)));
    assert(obj_get(fs, "total_recipients"@) == Some(JsonV::Bool(m.total_recipients)));
    assert(obj_get(fs.skip(3), "total_clicks"@) == Some(JsonV::Bool(m.total_clicks)));
    assert(obj_get(fs.skip(2), "total_clicks"@) == Some(JsonV::Bool(m.total_clicks)));
    assert(obj_get(fs.skip(1), "total_clicks"@) == Some(JsonV::Bool(m.total_clicks)));
    assert(obj_get(fs, "total_clicks"@) == Some(JsonV::Bool(m.total_clicks)));
    assert(obj_get(fs.skip(4), "ctr"@) == Some(JsonV::Bool(m.ctr)));
    assert(obj_get(fs.skip(3), "ctr"@) == Some(JsonV::Bool(m.ctr)));
    assert(obj_get(fs.skip(2), "ctr"@) == Some(JsonV::Bool(m.ctr)));
    assert(obj_get(fs.skip(1), "ctr"@) == Some(JsonV::Bool(m.ctr)));
    assert(obj_get(fs, "ctr"@) == Some(JsonV::Bool(m.ctr)));
    lemma_fields_height_le(fs, 0);
}

// --- date ranges ---

pub open spec fn date_range_to_json_spec(d: DateRangeV) -> JsonV {
    JsonV::Obj(
        seq![
            ("start_date"@, JsonV::Str(d.start_date)),
            ("end_date"@, JsonV::Str(d.end_date)),
        ],
    )
}

/// The date range a document denotes when both bounds are present as
/// strings; otherwise an empty range.
pub open spec fn date_range_of_doc(j: JsonV) -> DateRangeV {
    match (str_field(j, "start_date"@), str_field(j, "end_date"@)) {
        (Some(s), Some(e)) => DateRangeV { start_date: s, end_date: e },
        _ => DateRangeV { start_date: Seq::empty(), end_date: Seq::empty() },
    }
}

pub fn date_range_to_json(d: &DateRange) -> (r: Json)
    ensures
        r@ == date_range_to_json_spec(d@),
{
    let mut fields: Vec<(String, Json)> = Vec::new();
    fields.push((String::from_str("start_date"), Json::of_str(d.start_date.as_str())));
    fields.push((String::from_str("end_date"), Json::of_str(d.end_date.as_str())));
    let r = Json::Obj(fields);
    proof {
        lemma_fields_view(fields@);
        assert(r@->Obj_0 =~= date_range_to_json_spec(d@)->Obj_0);
    }
    r
}

fn get_str_field_owned(doc: &Json, key: &str) -> (r: Option<String>)
    ensures
        match r {
            Some(s) => str_field(doc@, key@) == Some(s@),
            None => str_field(doc@, key@) is None,
        },
{
    match doc.get(key) {
        Some(v) => match v.as_str() {
            Some(s) => Some(s.to_owned()),
            None => None,
        },
        None => None,
    }
}

pub fn date_range_of_json(doc: &Json) -> (r: DateRange)
    ensures
        r@ == date_range_of_doc(doc@),
{
    match (get_str_field_owned(doc, "start_date"), get_str_field_owned(doc, "end_date")) {
        (Some(s), Some(e)) => DateRange { start_date: s, end_date: e },
        _ => DateRange { start_date: String::new(), end_date: String::new() },
    }
}

proof fn lemma_date_range_round_trip(d: DateRangeV)
    ensures
        date_range_of_doc(date_range_to_json_spec(d)) == d,
        json_height(date_range_to_json_spec(d)) == 1,
{
    reveal_strlit("start_date");
    reveal_strlit("end_date");
    assert("start_date"@.len() == 10);
    assert("end_date"@.len() == 8);
    let fs = date_range_to_json_spec(d)->Obj_0;
    assert(obj_get(fs, "start_date"@) == Some(JsonV::Str(d.start_date)));
    assert(obj_get(fs.skip(1), "end_date"@) == Some(JsonV::Str(d.end_date)));
    assert(obj_get(fs, "end_date"@) == Some(JsonV::Str(d.end_date)));
    lemma_fields_height_le(fs, 0);
}

// --- report rows ---

/// The text of a click-through rate: the integer percent, a point, and
/// six fractional digits.
pub open spec fn ctr_text_spec(v: u128) -> Seq<char> {
    dec_spec((v / 1_000_000) as nat) + seq!['.'] + frac6_spec((v % 1_000_000) as nat)
}

/// The fixed-point click-through-rate text of a row.
pub fn ctr_text(v: u128) -> (r: String)
    ensures
        r@ == ctr_text_spec(v),
{
    let mut s = u128_to_string(v / 1_000_000);
    proof {
        reveal_strlit(".");
        assert("."@ =~= seq!['.']);
    }
    s.append(".");
    let f = frac6(v % 1_000_000);
    s.append(f.as_str());
    s
}

pub open spec fn entry_to_json_spec(e: ReportEntryV) -> JsonV {
    JsonV::Obj(
        seq![
            ("send_date"@, JsonV::Str(e.send_date)),
            ("unique_opens"@, JsonV::Num(dec_spec(e.unique_opens as nat))),
            ("total_opens"@, JsonV::Num(dec_spec(e.total_opens as nat))),
            ("total_recipients"@, JsonV::Num(dec_spec(e.total_recipients as nat))),
            ("total_clicks"@, JsonV::Num(dec_spec(e.total_clicks as nat))),
            ("ctr"@, JsonV::Num(ctr_text_spec(ctr_micro_spec(e.total_clicks, e.unique_opens)))),
        ],
    )
}

pub open spec fn u64_field(j: JsonV, key: Seq<char>) -> u64 {
    match get_spec(j, key) {
        Some(v) => match as_u64_spec(v) {
            Some(n) => n,
            None => 0,
        },
        _ => 0,
    }
}

/// The row a document denotes, field by field: a missing or ill-typed
/// date reads as the `N/A` marker, a missing or ill-typed count as
/// zero. The stored rate is derived from the counts, so it is not read
/// back.
pub open spec fn entry_of_doc(j: JsonV) -> ReportEntryV {
    ReportEntryV {
        send_date: match str_field(j, "send_date"@) {
            Some(s) => s,
            None => "N/A"@,
        },
        unique_opens: u64_field(j, "unique_opens"@),
        total_opens: u64_field(j, "total_opens"@),
        total_recipients: u64_field(j, "total_recipients"@),
        total_clicks: u64_field(j, "total_clicks"@),
    }
}

pub fn entry_to_json(e: &ReportEntry) -> (r: Json)
    ensures
        r@ == entry_to_json_spec(e@),
{
    let ctr = e.ctr_micro();
    let mut fields: Vec<(String, Json)> = Vec::new();
    fields.push((String::from_str("send_date"), Json::of_str(e.send_date.as_str())));
    fields.push((String::from_str("unique_opens"), Json::of_u64(e.unique_opens)));
    fields.push((String::from_str("total_opens"), Json::of_u64(e.total_opens)));
    fields.push((String::from_str("total_recipients"), Json::of_u64(e.total_recipients)));
    fields.push((String::from_str("total_clicks"), Json::of_u64(e.total_clicks)));
    fields.push((String::from_str("ctr"), Json::Num(ctr_text(ctr))));
    let r = Json::Obj(fields);
    proof {
        lemma_fields_view(fields@);
        assert(r@->Obj_0 =~= entry_to_json_spec(e@)->Obj_0);
    }
    r
}

fn get_u64_field(doc: &Json, key: &str) -> (r: u64)
    ensures
        r == u64_field(doc@, key@),
{
    match doc.get(key) {
        Some(v) => match v.as_u64() {
            Some(n) => n,
            None => 0,
        },
        None => 0,
    }
}

pub fn entry_of_json(doc: &Json) -> (r: ReportEntry)
    ensures
        r@ == entry_of_doc(doc@),
{
    let send_date = match get_str_field_owned(doc, "send_date") {
        Some(s) => s,
        None => String::from_str("N/A"),
    };
    ReportEntry {
        send_date,
        unique_opens: get_u64_field(doc, "unique_opens"),
        total_opens: get_u64_field(doc, "total_opens"),
        total_recipients: get_u64_field(doc, "total_recipients"),
        total_clicks: get_u64_field(doc, "total_clicks"),
    }
}

proof fn lemma_entry_round_trip(e: ReportEntryV)
    ensures
        entry_of_doc(entry_to_json_spec(e)) == e,
        json_height(entry_to_json_spec(e)) == 1,
{
    reveal_strlit("send_date");
    reveal_strlit("unique_opens");
    reveal_strlit("total_opens");
    reveal_strlit("total_recipients");
    reveal_strlit("total_clicks");
    reveal_strlit("ctr");
    assert("send_date"@.len() == 9);
    assert("unique_opens"@.len() == 12);
    assert("total_opens"@.len() == 11);
    assert("total_recipients"@.len() == 16);
    assert("total_clicks"@.len() == 12);
    assert("ctr"@.len() == 3);
    assert("total_opens"@[6] == 'o');
    assert("total_clicks"@[6] == 'c');
    let fs = entry_to_json_spec(e)->Obj_0;
    assert(fs.skip(1).skip(1) =~= fs.skip(2));
    assert(fs.skip(2).skip(1) =~= fs.skip(3));
    assert(fs.skip(3).skip(1) =~= fs.skip(4));
    assert(fs.skip(4).skip(1) =~= fs.skip(5));
    lemma_dec_val(e.unique_opens as nat);
    lemma_dec_val(e.total_opens as nat);
    lemma_dec_val(e.total_recipients as nat);
    lemma_dec_val(e.total_clicks as nat);
    assert(obj_get(fs, "send_date"@) == Some(JsonV::Str(e.send_date)));
    assert(obj_get(fs.skip(1), "unique_opens"@) == Some(
        JsonV::Num(dec_spec(e.unique_opens as nat)),
    ));
    assert(obj_get(fs, "unique_opens"@) == Some(JsonV::Num(dec_spec(e.unique_opens as nat))));
    assert(obj_get(fs.skip(2), "total_opens"@) == Some(JsonV::Num(dec_spec(e.total_opens as nat))));
    assert(obj_get(fs.skip(1), "total_opens"@) == Some(JsonV::Num(dec_spec(e.total_opens as nat))));
    assert(obj_get(fs, "total_opens"@) == Some(JsonV::Num(dec_spec(e.total_opens as nat))));
    assert(obj_get(fs.skip(3), "total_recipients"@) == Some(
        JsonV::Num(dec_spec(e.total_recipients as nat)),
    ));
    assert(obj_get(fs.skip(2), "total_recipients"@) == Some(
        JsonV::Num(dec_spec(e.total_recipients as nat)),
    ));
    assert(obj_get(fs.skip(1), "total_recipients"@) == Some(
        JsonV::Num(dec_spec(e.total_recipients as nat)),
    ));
    assert(obj_get(fs, "total_recipients"@) == Some(
        JsonV::Num(dec_spec(e.total_recipients as nat)),
    ));
    assert(obj_get(fs.skip(4), "total_clicks"@) == Some(
        JsonV::Num(dec_spec(e.total_clicks as nat)),
    ));
    assert(obj_get(fs.skip(3), "total_clicks"@) == Some(
        JsonV::Num(dec_spec(e.total_clicks as nat)),
    ));
    assert(obj_get(fs.skip(2), "total_clicks"@) == Some(
        JsonV::Num(dec_spec(e.total_clicks as nat)),
    ));
    assert(obj_get(fs.skip(1), "total_clicks"@) == Some(
        JsonV::Num(dec_spec(e.total_clicks as nat)),
    ));
    assert(obj_get(fs, "total_clicks"@) == Some(JsonV::Num(dec_spec(e.total_clicks as nat))));
    lemma_fields_height_le(fs, 0);
}

// --- the report document ---

pub open spec fn entries_to_json_spec(es: Seq<ReportEntryV>) -> Seq<JsonV> {
    es.map(|i: int, e: ReportEntryV| entry_to_json_spec(e))
}

pub open spec fn doc_to_json_spec(d: ReportDocV) -> JsonV {
    JsonV::Obj(
        seq![
            ("campaigns"@, JsonV::Arr(d.campaigns)),
            ("report_data"@, JsonV::Arr(entries_to_json_spec(d.report_data))),
            ("metrics"@, metrics_to_json_spec(d.metrics)),
        ],
    )
}

/// The report document a stored value denotes: the campaigns as they
/// stand, the rows read field by field, and the column selection.
pub open spec fn doc_of_doc(j: JsonV) -> ReportDocV {
    ReportDocV {
        campaigns: match get_spec(j, "campaigns"@) {
            Some(v) => match v {
                JsonV::Arr(cs) => cs,
                _ => Seq::empty(),
            },
            _ => Seq::empty(),
        },
        report_data: match get_spec(j, "report_data"@) {
            Some(v) => match v {
                JsonV::Arr(es) => es.map(|i: int, c: JsonV| entry_of_doc(c)),
                _ => Seq::empty(),
            },
            _ => Seq::empty(),
        },
        metrics: match get_spec(j, "metrics"@) {
            Some(m) => metrics_of_doc(m),
            _ => metrics_of_doc(JsonV::Null),
        },
    }
}

pub(crate) fn campaigns_duplicate(cs: &Vec<Json>) -> (r: Vec<Json>)
    ensures
        elems_view(r@) =~= elems_view(cs@),
{
    let n = cs.len();
    let mut out: Vec<Json> = Vec::new();
    let mut i: usize = 0;
    while i < n
        invariant
            i <= n,
            n == cs@.len(),
            out@.len() == i,
            forall|k: int| 0 <= k < i ==> json_view(#[trigger] out@[k]) == json_view(cs@[k]),
        decreases n - i,
    {
        let c = cs[i].duplicate();
        out.push(c);
        i += 1;
    }
    proof {
        lemma_elems_view(out@);
        lemma_elems_view(cs@);
    }
    out
}

pub fn doc_to_json(d: &ReportDoc) -> (r: Json)
    ensures
        r@ == doc_to_json_spec(d@),
{
    let campaigns = campaigns_duplicate(&d.campaigns);
    let n = d.report_data.len();
    let mut rows: Vec<Json> = Vec::new();
    let mut i: usize = 0;
    while i < n
        invariant
            i <= n,
            n == d.report_data@.len(),
            rows@.len() == i,
            forall|k: int|
                0 <= k < i ==> json_view(#[trigger] rows@[k]) == entry_to_json_spec(
                    d.report_data@[k]@,
                ),
        decreases n - i,
    {
        let row = entry_to_json(&d.report_data[i]);
        rows.push(row);
        i += 1;
    }
    let mut fields: Vec<(String, Json)> = Vec::new();
    fields.push((String::from_str("campaigns"), Json::Arr(campaigns)));
    fields.push((String::from_str("report_data"), Json::Arr(rows)));
    fields.push((String::from_str("metrics"), metrics_to_json(&d.metrics)));
    let r = Json::Obj(fields);
    proof {
        lemma_fields_view(fields@);
        lemma_elems_view(rows@);
        assert(elems_view(rows@) =~= entries_to_json_spec(d@.report_data));
        assert(r@->Obj_0 =~= doc_to_json_spec(d@)->Obj_0);
    }
    r
}

pub fn doc_of_json(doc: &Json) -> (r: ReportDoc)
    ensures
        r@ == doc_of_doc(doc@),
{
    let campaigns: Vec<Json> = match doc.get("campaigns") {
        Some(v) => match v.as_array() {
            Some(cs) => {
                let ghost cv = v@->Arr_0;
                let out = campaigns_duplicate(cs);
                proof {
                    lemma_elems_view(cs@);
                    assert(elems_view(out@) =~= cv);
                }
                out
            },
            None => Vec::new(),
        },
        None => Vec::new(),
    };
    let rows: Vec<ReportEntry> = match doc.get("report_data") {
        Some(v) => match v.as_array() {
            Some(es) => {
                let ghost ev = v@->Arr_0;
                let n = es.len();
                let mut out: Vec<ReportEntry> = Vec::new();
                let mut i: usize = 0;
                proof {
                    lemma_elems_view(es@);
                }
                while i < n
                    invariant
                        i <= n,
                        n == es@.len(),
                        ev.len() == n,
                        forall|k: int| 0 <= k < n ==> #[trigger] ev[k] == json_view(es@[k]),
                        out@.len() == i,
                        forall|k: int| 0 <= k < i ==> (#[trigger] out@[k])@ == entry_of_doc(ev[k]),
                    decreases n - i,
                {
                    let e = entry_of_json(&es[i]);
                    out.push(e);
                    i += 1;
                }
                out
            },
            None => Vec::new(),
        },
        None => Vec::new(),
    };
    let metrics: Metrics = match doc.get("metrics") {
        Some(m) => metrics_of_json(m),
        None => Metrics::all(),
    };
    let r = ReportDoc { campaigns, report_data: rows, metrics };
    proof {
        assert(r@.campaigns =~= doc_of_doc(doc@).campaigns);
        assert(r@.report_data =~= doc_of_doc(doc@).report_data);
        assert(metrics_of_doc(JsonV::Null) == Metrics {
            unique_opens: true,
            total_opens: true,
            total_recipients: true,
            total_clicks: true,
            ctr: true,
        });
    }
    r
}

// --- a saved report ---

pub open spec fn report_to_json_spec(r: SavedReportV) -> JsonV {
    JsonV::Obj(
        seq![
            ("id"@, JsonV::Str(r.id)),
            ("name"@, JsonV::Str(r.name)),
            ("advertiser"@, JsonV::Str(r.advertiser)),
            ("report_type"@, JsonV::Str(r.report_type)),
            ("date_range"@, date_range_to_json_spec(r.date_range)),
            ("created"@, JsonV::Str(r.created)),
            ("data"@, doc_to_json_spec(r.data)),
            ("metrics"@, metrics_to_json_spec(r.metrics)),
        ],
    )
}

/// The saved report a stored value denotes, read field by field with
/// defaults for anything missing or ill-typed.
pub open spec fn report_of_doc(j: JsonV) -> SavedReportV {
    SavedReportV {
        id: match str_field(j, "id"@) {
            Some(s) => s,
            None => Seq::empty(),
        },
        name: match str_field(j, "name"@) {
            Some(s) => s,
            None => Seq::empty(),
        },
        advertiser: match str_field(j, "advertiser"@) {
            Some(s) => s,
            None => Seq::empty(),
        },
        report_type: match str_field(j, "report_type"@) {
            Some(s) => s,
            None => Seq::empty(),
        },
        date_range: match get_spec(j, "date_range"@) {
            Some(d) => date_range_of_doc(d),
            _ => DateRangeV { start_date: Seq::empty(), end_date: Seq::empty() },
        },
        created: match str_field(j, "created"@) {
            Some(s) => s,
            None => Seq::empty(),
        },
        data: match get_spec(j, "data"@) {
            Some(d) => doc_of_doc(d),
            _ => doc_of_doc(JsonV::Null),
        },
        metrics: match get_spec(j, "metrics"@) {
            Some(m) => metrics_of_doc(m),
            _ => metrics_of_doc(JsonV::Null),
        },
    }
}

pub fn report_to_json(r: &SavedReport) -> (res: Json)
    ensures
        res@ == report_to_json_spec(r@),
{
    let mut fields: Vec<(String, Json)> = Vec::new();
    fields.push((String::from_str("id"), Json::of_str(r.id.as_str())));
    fields.push((String::from_str("name"), Json::of_str(r.name.as_str())));
    fields.push((String::from_str("advertiser"), Json::of_str(r.advertiser.as_str())));
    fields.push((String::from_str("report_type"), Json::of_str(r.report_type.as_str())));
    fields.push((String::from_str("date_range"), date_range_to_json(&r.date_range)));
    fields.push((String::from_str("created"), Json::of_str(r.created.as_str())));
    fields.push((String::from_str("data"), doc_to_json(&r.data)));
    fields.push((String::from_str("metrics"), metrics_to_json(&r.metrics)));
    let res = Json::Obj(fields);
    proof {
        lemma_fields_view(fields@);
        assert(res@->Obj_0 =~= report_to_json_spec(r@)->Obj_0);
    }
    res
}

pub fn report_of_json(doc: &Json) -> (r: SavedReport)
    ensures
        r@ == report_of_doc(doc@),
{
    let id = match get_str_field_owned(doc, "id") {
        Some(s) => s,
        None => String::new(),
    };
    let name = match get_str_field_owned(doc, "name") {
        Some(s) => s,
        None => String::new(),
    };
    let advertiser = match get_str_field_owned(doc, "advertiser") {
        Some(s) => s,
        None => String::new(),
    };
    let report_type = match get_str_field_owned(doc, "report_type") {
        Some(s) => s,
        None => String::new(),
    };
    let date_range = match doc.get("date_range") {
        Some(d) => date_range_of_json(d),
        None => DateRange { start_date: String::new(), end_date: String::new() },
    };
    let created = match get_str_field_owned(doc, "created") {
        Some(s) => s,
        None => String::new(),
    };
    let data = match doc.get("data") {
        Some(d) => doc_of_json(d),
        None => ReportDoc { campaigns: Vec::new(), report_data: Vec::new(), metrics: Metrics::all() },
    };
    let metrics = match doc.get("metrics") {
        Some(m) => metrics_of_json(m),
        None => Metrics::all(),
    };
    let r = SavedReport { id, name, advertiser, report_type, date_range, created, data, metrics };
    proof {
        assert(doc_of_doc(JsonV::Null).campaigns =~= Seq::<JsonV>::empty());
        assert(doc_of_doc(JsonV::Null).report_data =~= Seq::<ReportEntryV>::empty());
        assert(r@.data =~= report_of_doc(doc@).data);
    }
    r
}

// --- the stored list ---

/// A report whose campaign documents are not absurdly nested, as every
/// report read from a parsed document or assembled by a generation is;
/// the bound keeps pretty-printing indents within the machine.
pub open spec fn report_wf(r: SavedReportV) -> bool {
    seq_height(r.data.campaigns) <= 4096
}

pub open spec fn reports_to_json_spec(rs: Seq<SavedReportV>) -> JsonV {
    JsonV::Arr(rs.map(|i: int, r: SavedReportV| report_to_json_spec(r)))
}

/// The stored list a document denotes: an array of reports, each read
/// tolerantly; anything else is unreadable.
pub open spec fn reports_of_doc(j: JsonV) -> Option<Seq<SavedReportV>> {
    match j {
        JsonV::Arr(es) => Some(es.map(|i: int, c: JsonV| report_of_doc(c))),
        _ => None,
    }
}

proof fn lemma_report_of_doc_wf(c: JsonV)
    requires
        json_height(c) <= 4000,
    ensures
        report_wf(report_of_doc(c)),
{
    let r = report_of_doc(c);
    if c is Obj {
        lemma_obj_get_height_spec(c, "data"@);
        match get_spec(c, "data"@) {
            Some(d) => {
                if d is Obj {
                    lemma_obj_get_height_spec(d, "campaigns"@);
                    match get_spec(d, "campaigns"@) {
                        Some(cs) => {
                            if cs is Arr {
                                assert(seq_height(cs->Arr_0) < json_height(cs));
                            }
                        },
                        _ => {},
                    }
                }
            },
            _ => {},
        }
    }
}

proof fn lemma_obj_get_height_spec(j: JsonV, key: Seq<char>)
    requires
        j is Obj,
    ensures
        get_spec(j, key) matches Some(v) ==> json_height(v) < json_height(j),
{
    lemma_obj_get_height(j->Obj_0, key);
}

/// Reads the stored report list from the reports file's text: the empty
/// list where the file is absent, and each record read tolerantly. The
/// text must parse as a JSON array.
pub fn load_reports(content: Option<&str>) -> (r: Result<Vec<SavedReport>, String>)
    ensures
        match content {
            None => r matches Ok(v) && v@.len() == 0,
            Some(text) => {
                &&& (json_parse_of(text@) is None ==> r is Err)
                &&& (r matches Ok(v) ==> json_parse_of(text@) matches Some(j) && reports_of_doc(j)
                    == Some(Seq::new(v@.len(), |i: int| v@[i]@)))
                &&& (match json_parse_of(text@) {
                    Some(j) => reports_of_doc(j) is Some ==> r is Ok,
                    None => true,
                })
            },
        },
        r matches Ok(v) ==> forall|i: int| 0 <= i < v@.len() ==> report_wf(#[trigger] v@[i]@),
{
    match content {
        None => Ok(Vec::new()),
        Some(text) => {
            match parse_json(text) {
                Err(e) => {
                    let mut m = String::from_str("Failed to parse reports JSON: ");
                    m.append(e.as_str());
                    Err(m)
                },
                Ok(doc) => {
                    let ghost dv = doc@;
                    match doc {
                        Json::Arr(es) => {
                            let ghost ev = dv->Arr_0;
                            let n = es.len();
                            let mut out: Vec<SavedReport> = Vec::new();
                            let mut i: usize = 0;
                            proof {
                                lemma_elems_view(es@);
                                assert forall|k: int| 0 <= k < n implies json_height(
                                    #[trigger] ev[k],
                                ) <= 4000 by {
                                    lemma_seq_height_ge(ev, k);
                                }
                            }
                            while i < n
                                invariant
                                    i <= n,
                                    n == es@.len(),
                                    ev.len() == n,
                                    forall|k: int|
                                        0 <= k < n ==> #[trigger] ev[k] == json_view(es@[k]),
                                    forall|k: int| 0 <= k < n ==> json_height(ev[k]) <= 4000,
                                    out@.len() == i,
                                    forall|k: int|
                                        0 <= k < i ==> (#[trigger] out@[k])@ == report_of_doc(
                                            ev[k],
                                        ),
                                    forall|k: int|
                                        0 <= k < i ==> report_wf((#[trigger] out@[k])@),
                                decreases n - i,
                            {
                                let rep = report_of_json(&es[i]);
                                proof {
                                    lemma_report_of_doc_wf(ev[i as int]);
                                }
                                out.push(rep);
                                i += 1;
                            }
                            proof {
                                assert(Seq::new(out@.len(), |k: int| out@[k]@) =~= ev.map(
                                    |k: int, c: JsonV| report_of_doc(c),
                                ));
                            }
                            Ok(out)
                        },
                        _ => Err(String::from_str("Failed to parse reports JSON: expected an array")),
                    }
                },
            }
        },
    }
}

/// What remains of a stored list after the reports with one identifier
/// are removed; the others keep their order.
pub open spec fn remove_spec(rs: Seq<SavedReportV>, id: Seq<char>) -> Seq<SavedReportV>
    decreases rs,
{
    if rs.len() == 0 {
        Seq::empty()
    } else if rs[0].id == id {
        remove_spec(rs.skip(1), id)
    } else {
        seq![rs[0]] + remove_spec(rs.skip(1), id)
    }
}

/// Nothing with the removed identifier remains.
pub proof fn lemma_remove_no_id(rs: Seq<SavedReportV>, id: Seq<char>)
    ensures
        forall|i: int|
            0 <= i < remove_spec(rs, id).len() ==> (#[trigger] remove_spec(rs, id)[i]).id != id,
    decreases rs,
{
    if rs.len() > 0 {
        lemma_remove_no_id(rs.skip(1), id);
        if rs[0].id != id {
            assert forall|i: int| 0 <= i < remove_spec(rs, id).len() implies (
            #[trigger] remove_spec(rs, id)[i]).id != id by {
                if i > 0 {
                    assert(remove_spec(rs, id)[i] == remove_spec(rs.skip(1), id)[i - 1]);
                }
            }
        }
    }
}

/// Deletes every report with the given identifier, keeping the rest in
/// order.
pub fn delete_report(reports: &mut Vec<SavedReport>, report_id: &str)
    ensures
        Seq::new(final(reports)@.len(), |i: int| final(reports)@[i]@) == remove_spec(
            Seq::new(old(reports)@.len(), |i: int| old(reports)@[i]@),
            report_id@,
        ),
        forall|i: int|
            0 <= i < final(reports)@.len() ==> (#[trigger] final(reports)@[i])@.id != report_id@,
{
    let ghost rv = Seq::new(reports@.len(), |i: int| reports@[i]@);
    let n = reports.len();
    let mut out: Vec<SavedReport> = Vec::new();
    let mut i: usize = 0;
    proof {
        assert(rv.skip(0) =~= rv);
    }
    while i < n
        invariant
            i <= n,
            n == old(reports)@.len(),
            reports == old(reports),
            rv == Seq::new(old(reports)@.len(), |k: int| old(reports)@[k]@),
            remove_spec(rv, report_id@) =~= Seq::new(out@.len(), |k: int| out@[k]@) + remove_spec(
                rv.skip(i as int),
                report_id@,
            ),
        decreases n - i,
    {
        let ghost out0 = out@;
        if !crate::text::str_eq(reports[i].id.as_str(), report_id) {
            let ghost orig = reports@[i as int];
            let kept = SavedReport {
                id: reports[i].id.clone(),
                name: reports[i].name.clone(),
                advertiser: reports[i].advertiser.clone(),
                report_type: reports[i].report_type.clone(),
                date_range: DateRange {
                    start_date: reports[i].date_range.start_date.clone(),
                    end_date: reports[i].date_range.end_date.clone(),
                },
                created: reports[i].created.clone(),
                data: ReportDoc {
                    campaigns: campaigns_duplicate(&reports[i].data.campaigns),
                    report_data: entries_duplicate(&reports[i].data.report_data),
                    metrics: reports[i].data.metrics,
                },
                metrics: reports[i].metrics,
            };
            proof {
                assert(kept@.data =~= orig@.data);
                assert(kept@ =~= orig@);
            }
            out.push(kept);
            proof {
                assert(Seq::new(out@.len(), |k: int| out@[k]@) =~= Seq::new(
                    out0.len(),
                    |k: int| out0[k]@,
                ) + seq![rv[i as int]]);
            }
        }
        proof {
            assert(rv.skip(i as int)[0] == rv[i as int]);
            assert(rv.skip(i as int).skip(1) =~= rv.skip(i + 1));
            assert(remove_spec(rv, report_id@) =~= Seq::new(out@.len(), |k: int| out@[k]@)
                + remove_spec(rv.skip(i + 1), report_id@));
        }
        i += 1;
    }
    proof {
        assert(rv.skip(n as int) =~= Seq::<SavedReportV>::empty());
        assert(remove_spec(Seq::<SavedReportV>::empty(), report_id@) =~= Seq::<
            SavedReportV,
        >::empty());
        assert(remove_spec(rv, report_id@) =~= Seq::new(out@.len(), |k: int| out@[k]@));
        lemma_remove_no_id(rv, report_id@);
        assert(forall|k: int|
            0 <= k < out@.len() ==> Seq::new(out@.len(), |j: int| out@[j]@)[k] == (
            #[trigger] out@[k])@);
    }
    *reports = out;
}

pub(crate) fn entries_duplicate(es: &Vec<ReportEntry>) -> (r: Vec<ReportEntry>)
    ensures
        Seq::new(r@.len(), |i: int| r@[i]@) =~= Seq::new(es@.len(), |i: int| es@[i]@),
{
    let n = es.len();
    let mut out: Vec<ReportEntry> = Vec::new();
    let mut i: usize = 0;
    while i < n
        invariant
            i <= n,
            n == es@.len(),
            out@.len() == i,
            forall|k: int| 0 <= k < i ==> (#[trigger] out@[k])@ == es@[k]@,
        decreases n - i,
    {
        let e = ReportEntry {
            send_date: es[i].send_date.clone(),
            unique_opens: es[i].unique_opens,
            total_opens: es[i].total_opens,
            total_recipients: es[i].total_recipients,
            total_clicks: es[i].total_clicks,
        };
        out.push(e);
        i += 1;
    }
    out
}

// --- the stored document's text ---

proof fn lemma_report_height(r: SavedReportV)
    requires
        report_wf(r),
    ensures
        json_height(report_to_json_spec(r)) <= 4099,
{
    lemma_fields_height_le(metrics_to_json_spec(r.metrics)->Obj_0, 0);
    lemma_fields_height_le(metrics_to_json_spec(r.data.metrics)->Obj_0, 0);
    lemma_fields_height_le(date_range_to_json_spec(r.date_range)->Obj_0, 0);
    let rows = entries_to_json_spec(r.data.report_data);
    assert forall|i: int| 0 <= i < rows.len() implies json_height(#[trigger] rows[i]) <= 1 by {
        lemma_fields_height_le(entry_to_json_spec(r.data.report_data[i])->Obj_0, 0);
    }
    lemma_seq_height_le(rows, 1);
    let data = doc_to_json_spec(r.data);
    assert forall|i: int| 0 <= i < data->Obj_0.len() implies json_height(
        (#[trigger] data->Obj_0[i]).1,
    ) <= 4097 by {
        assert(json_height(data->Obj_0[0].1) <= 4097);
        assert(json_height(data->Obj_0[1].1) <= 2);
        assert(json_height(data->Obj_0[2].1) <= 1);
    }
    lemma_fields_height_le(data->Obj_0, 4097);
    let fs = report_to_json_spec(r)->Obj_0;
    assert forall|i: int| 0 <= i < fs.len() implies json_height((#[trigger] fs[i]).1) <= 4098 by {
        assert(json_height(fs[4].1) <= 1);
        assert(json_height(fs[6].1) <= 4098);
        assert(json_height(fs[7].1) <= 1);
    }
    lemma_fields_height_le(fs, 4098);
}

/// A well-formed report's record nests only a few levels beyond its
/// campaigns.
pub proof fn lemma_report_height_pub(r: SavedReportV)
    requires
        report_wf(r),
    ensures
        json_height(report_to_json_spec(r)) <= 4099,
{
    lemma_report_height(r);
}

/// The stored document of a report list: the array of report records,
/// pretty-printed.
pub fn reports_document(reports: &Vec<SavedReport>) -> (r: String)
    requires
        forall|i: int| 0 <= i < reports@.len() ==> report_wf(#[trigger] reports@[i]@),
    ensures
        r@ == json_pretty(
            reports_to_json_spec(Seq::new(reports@.len(), |i: int| reports@[i]@)),
            0,
        ),
{
    let ghost rv = Seq::new(reports@.len(), |i: int| reports@[i]@);
    let n = reports.len();
    let mut elems: Vec<Json> = Vec::new();
    let mut i: usize = 0;
    while i < n
        invariant
            i <= n,
            n == reports@.len(),
            rv == Seq::new(reports@.len(), |k: int| reports@[k]@),
            elems@.len() == i,
            forall|k: int|
                0 <= k < i ==> json_view(#[trigger] elems@[k]) == report_to_json_spec(rv[k]),
        decreases n - i,
    {
        let j = report_to_json(&reports[i]);
        elems.push(j);
        i += 1;
    }
    let doc = Json::Arr(elems);
    proof {
        lemma_elems_view(elems@);
        assert(doc@->Arr_0 =~= rv.map(|k: int, x: SavedReportV| report_to_json_spec(x)));
        assert forall|k: int| 0 <= k < rv.len() implies json_height(
            #[trigger] doc@->Arr_0[k],
        ) <= 4099 by {
            lemma_report_height(rv[k]);
        }
        lemma_seq_height_le(doc@->Arr_0, 4099);
    }
    pretty(&doc)
}

/// Appends a newly generated report to the list and renders the whole
/// store, ready to be written back.
pub fn save_report(reports: &mut Vec<SavedReport>, report: SavedReport) -> (r: String)
    requires
        forall|i: int| 0 <= i < old(reports)@.len() ==> report_wf(#[trigger] old(reports)@[i]@),
        report_wf(report@),
    ensures
        final(reports)@ == old(reports)@.push(report),
        r@ == json_pretty(
            reports_to_json_spec(Seq::new(final(reports)@.len(), |i: int| final(reports)@[i]@)),
            0,
        ),
{
    reports.push(report);
    reports_document(reports)
}

// --- the round trip ---

proof fn lemma_doc_round_trip(d: ReportDocV)
    ensures
        doc_of_doc(doc_to_json_spec(d)) == d,
{
    reveal_strlit("campaigns");
    reveal_strlit("report_data");
    reveal_strlit("metrics");
    assert("campaigns"@.len() == 9);
    assert("report_data"@.len() == 11);
    assert("metrics"@.len() == 7);
    let fs = doc_to_json_spec(d)->Obj_0;
    crate::json::lemma_obj_get_at(fs, 0, "campaigns"@);
    crate::json::lemma_obj_get_at(fs, 1, "report_data"@);
    crate::json::lemma_obj_get_at(fs, 2, "metrics"@);
    lemma_metrics_round_trip(d.metrics);
    let mapped = entries_to_json_spec(d.report_data).map(|k: int, c: JsonV| entry_of_doc(c));
    assert forall|i: int| 0 <= i < d.report_data.len() implies mapped[i] == #[trigger] d
        .report_data[i] by {
        lemma_entry_round_trip(d.report_data[i]);
    }
    assert(mapped =~= d.report_data);
    assert(doc_of_doc(doc_to_json_spec(d)) =~= d);
}

/// Writing a report record and reading it back yields the same record.
pub proof fn lemma_report_round_trip(r: SavedReportV)
    ensures
        report_of_doc(report_to_json_spec(r)) == r,
{
    reveal_strlit("id");
    reveal_strlit("name");
    reveal_strlit("advertiser");
    reveal_strlit("report_type");
    reveal_strlit("date_range");
    reveal_strlit("created");
    reveal_strlit("data");
    reveal_strlit("metrics");
    assert("id"@.len() == 2);
    assert("name"@.len() == 4);
    assert("advertiser"@.len() == 10);
    assert("report_type"@.len() == 11);
    assert("date_range"@.len() == 10);
    assert("created"@.len() == 7);
    assert("data"@.len() == 4);
    assert("metrics"@.len() == 7);
    assert("name"@[0] == 'n');
    assert("data"@[0] == 'd');
    assert("advertiser"@[0] == 'a');
    assert("date_range"@[0] == 'd');
    assert("created"@[0] == 'c');
    assert("metrics"@[0] == 'm');
    let fs = report_to_json_spec(r)->Obj_0;
    crate::json::lemma_obj_get_at(fs, 0, "id"@);
    crate::json::lemma_obj_get_at(fs, 1, "name"@);
    crate::json::lemma_obj_get_at(fs, 2, "advertiser"@);
    crate::json::lemma_obj_get_at(fs, 3, "report_type"@);
    crate::json::lemma_obj_get_at(fs, 4, "date_range"@);
    crate::json::lemma_obj_get_at(fs, 5, "created"@);
    crate::json::lemma_obj_get_at(fs, 6, "data"@);
    crate::json::lemma_obj_get_at(fs, 7, "metrics"@);
    lemma_date_range_round_trip(r.date_range);
    lemma_doc_round_trip(r.data);
    lemma_metrics_round_trip(r.metrics);
    assert(report_of_doc(report_to_json_spec(r)) =~= r);
}

/// Writing a report list and reading the document back yields the same
/// list.
pub proof fn lemma_reports_round_trip(rs: Seq<SavedReportV>)
    ensures
        reports_of_doc(reports_to_json_spec(rs)) == Some(rs),
{
    let mapped = rs.map(|k: int, x: SavedReportV| report_to_json_spec(x)).map(
        |k: int, c: JsonV| report_of_doc(c),
    );
    assert forall|i: int| 0 <= i < rs.len() implies mapped[i] == #[trigger] rs[i] by {
        lemma_report_round_trip(rs[i]);
    }
    assert(mapped =~= rs);
}

/// A saved report is found again after the store is written and read
/// back, and deleting its identifier leaves no report that carries it.
pub proof fn lemma_report_store_round_trip(rs: Seq<SavedReportV>, r: SavedReportV)
    ensures
        reports_of_doc(reports_to_json_spec(rs.push(r))) == Some(rs.push(r)),
        rs.push(r)[rs.len() as int] == r,
        forall|i: int|
            0 <= i < remove_spec(rs.push(r), r.id).len() ==> (#[trigger] remove_spec(
                rs.push(r),
                r.id,
            )[i]).id != r.id,
{
    lemma_reports_round_trip(rs.push(r));
    lemma_remove_no_id(rs.push(r), r.id);
}

} // verus!
