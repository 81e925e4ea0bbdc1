use vstd::prelude::*;
use crate::model::{Metrics, ReportEntryV, ReportDocV, SavedReport, SavedReportV, ctr_micro_spec};
use crate::reports::{ctr_text_spec, ctr_text, report_wf, report_to_json_spec, report_to_json};
use crate::json::json_pretty;
use crate::text::{dec_spec, u64_to_string};

verus! {

// --- the column-selected CSV ---

/// The header row: `Date` always, then the chosen columns.
pub open spec fn csv_header_spec(m: Metrics) -> Seq<char> {
    "Date"@ + (if m.unique_opens {
        ",Unique Opens"@
    } else {
        Seq::empty()
    }) + (if m.total_opens {
        ",Total Opens"@
    } else {
        Seq::empty()
    }) + (if m.total_recipients {
        ",Total Recipients"@
    } else {
        Seq::empty()
    }) + (if m.total_clicks {
        ",Total Clicks"@
    } else {
        Seq::empty()
    }) + (if m.ctr {
        ",CTR"@
    } else {
        Seq::empty()
    }) + seq!['\n']
}

/// One row: the date, then the chosen counts as plain decimal digits,
/// and the rate with six fractional digits.
pub open spec fn csv_row_spec(e: ReportEntryV, m: Metrics) -> Seq<char> {
    e.send_date + (if m.unique_opens {
        seq![','] + dec_spec(e.unique_opens as nat)
    } else {
        Seq::empty()
    }) + (if m.total_opens {
        seq![','] + dec_spec(e.total_opens as nat)
    } else {
        Seq::empty()
    }) + (if m.total_recipients {
        seq![','] + dec_spec(e.total_recipients as nat)
    } else {
        Seq::empty()
    }) + (if m.total_clicks {
        seq![','] + dec_spec(e.total_clicks as nat)
    } else {
        Seq::empty()
    }) + (if m.ctr {
        seq![','] + ctr_text_spec(ctr_micro_spec(e.total_clicks, e.unique_opens))
    } else {
        Seq::empty()
    }) + seq!['\n']
}

pub open spec fn csv_rows_spec(es: Seq<ReportEntryV>, m: Metrics) -> Seq<char>
    decreases es.len(),
{
    if es.len() == 0 {
        Seq::empty()
    } else {
        csv_row_spec(es[0], m) + csv_rows_spec(es.skip(1), m)
    }
}

/// The whole export: the header, then one line per row in stored order.
pub open spec fn csv_spec(d: ReportDocV) -> Seq<char> {
    csv_header_spec(d.metrics) + csv_rows_spec(d.report_data, d.metrics)
}

fn push_header(m: &Metrics, out: &mut String)
    ensures
        final(out)@ == old(out)@ + csv_header_spec(*m),
{
    proof {
        reveal_strlit("\n");
        assert("\n"@ =~= seq!['\n']);
    }
    out.append("Date");
    if m.unique_opens {
        out.append(",Unique Opens");
    }
    if m.total_opens {
        out.append(",Total Opens");
    }
    if m.total_recipients {
        out.append(",Total Recipients");
    }
    if m.total_clicks {
        out.append(",Total Clicks");
    }
    if m.ctr {
        out.append(",CTR");
    }
    out.append("\n");
    proof {
        assert(final(out)@ =~= old(out)@ + csv_header_spec(*m));
    }
}

#[verifier::rlimit(60)]
fn push_row(e: &crate::model::ReportEntry, m: &Metrics, out: &mut String)
    ensures
        final(out)@ == old(out)@ + csv_row_spec(e@, *m),
{
    proof {
        reveal_strlit(",");
        assert(","@ =~= seq![',']);
        reveal_strlit("\n");
        assert("\n"@ =~= seq!['\n']);
    }
    out.append(e.send_date.as_str());
    if m.unique_opens {
        out.append(",");
        let v = u64_to_string(e.unique_opens);
        out.append(v.as_str());
    }
    if m.total_opens {
        out.append(",");
        let v = u64_to_string(e.total_opens);
        out.append(v.as_str());
    }
    if m.total_recipients {
        out.append(",");
        let v = u64_to_string(e.total_recipients);
        out.append(v.as_str());
    }
    if m.total_clicks {
        out.append(",");
        let v = u64_to_string(e.total_clicks);
        out.append(v.as_str());
    }
    if m.ctr {
        out.append(",");
        let c = ctr_text(e.ctr_micro());
        out.append(c.as_str());
    }
    out.append("\n");
    proof {
        assert(final(out)@ =~= old(out)@ + csv_row_spec(e@, *m));
    }
}

/// The CSV text of a saved report: its chosen columns over its rows, in
/// stored order.
pub fn csv_document(report: &SavedReport) -> (r: String)
    ensures
        r@ == csv_spec(report@.data),
{
    let ghost rows = report@.data.report_data;
    let mut out = String::new();
    push_header(&report.data.metrics, &mut out);
    let n = report.data.report_data.len();
    let mut i: usize = 0;
    proof {
        assert(rows.skip(0) =~= rows);
        assert(out@ =~= csv_header_spec(report@.data.metrics) + Seq::<char>::empty());
    }
    while i < n
        invariant
            i <= n,
            n == report.data.report_data@.len(),
            rows == report@.data.report_data,
            csv_spec(report@.data) =~= out@ + csv_rows_spec(rows.skip(i as int), report@.data.metrics),
        decreases n - i,
    {
        push_row(&report.data.report_data[i], &report.data.metrics, &mut out);
        proof {
            assert(rows.skip(i as int)[0] == rows[i as int]);
            assert(rows.skip(i as int).skip(1) =~= rows.skip(i + 1));
        }
        i += 1;
    }
    proof {
        assert(rows.skip(n as int) =~= Seq::<ReportEntryV>::empty());
        assert(csv_spec(report@.data) =~= out@);
    }
    out
}

// --- file names ---

/// The characters the advertiser's name sheds in a file name.
pub open spec fn special_char(c: char) -> bool {
    ||| c == ' '
    ||| c == ','
    ||| c == '.'
    ||| c == '/'
    ||| c == '\\'
    ||| c == ':'
    ||| c == ';'
    ||| c == '"'
    ||| c == '\''
    ||| c == '!'
    ||| c == '?'
    ||| c == '*'
    ||| c == '('
    ||| c == ')'
    ||| c == '['
    ||| c == ']'
    ||| c == '{'
    ||| c == '}'
    ||| c == '<'
    ||| c == '>'
}

/// The advertiser's name with every special character an underscore.
pub open spec fn clean_name_spec(s: Seq<char>) -> Seq<char> {
    s.map(
        |i: int, c: char|
            if special_char(c) {
                '_'
            } else {
                c
            },
    )
}

fn special_char_exec(c: char) -> (r: bool)
    ensures
        r == special_char(c),
{
    c == ' ' || c == ',' || c == '.' || c == '/' || c == '\\' || c == ':' || c == ';' || c == '"'
        || c == '\'' || c == '!' || c == '?' || c == '*' || c == '(' || c == ')' || c == '['
        || c == ']' || c == '{' || c == '}' || c == '<' || c == '>'
}

/// Replaces the advertiser's special characters with underscores.
pub fn clean_advertiser(s: &str) -> (r: String)
    ensures
        r@ == clean_name_spec(s@),
{
    let len = s.unicode_len();
    let mut out = String::new();
    let mut i: usize = 0;
    proof {
        assert(out@ =~= clean_name_spec(s@.subrange(0, 0)));
    }
    while i < len
        invariant
            i <= len,
            len == s@.len(),
            out@ == clean_name_spec(s@.subrange(0, i as int)),
        decreases len - i,
    {
        let c = s.get_char(i);
        if special_char_exec(c) {
            proof {
                reveal_strlit("_");
                assert("_"@ =~= seq!['_']);
            }
            out.append("_");
        } else {
            let piece = s.substring_char(i, i + 1);
            proof {
                assert(piece@ =~= seq![c]);
            }
            out.append(piece);
        }
        proof {
            assert(out@ =~= clean_name_spec(s@.subrange(0, i + 1)));
        }
        i += 1;
    }
    proof {
        assert(s@.subrange(0, len as int) =~= s@);
    }
    out
}

/// The date-range piece of a CSV file name: `start_end`, or a marker
/// when either bound is empty.
pub open spec fn date_part_spec(start: Seq<char>, end: Seq<char>) -> Seq<char> {
    if start.len() > 0 && end.len() > 0 {
        start + "_"@ + end
    } else {
        "unknown-dates"@
    }
}

/// The name of a CSV export: cleaned advertiser, newsletter type, date
/// range and a timestamp.
pub open spec fn csv_file_name_spec(r: SavedReportV, ts: Seq<char>) -> Seq<char> {
    clean_name_spec(r.advertiser) + "_"@ + r.report_type + "_"@ + date_part_spec(
        r.date_range.start_date,
        r.date_range.end_date,
    ) + "_"@ + ts + ".csv"@
}

/// The file name a CSV export is written under.
pub fn csv_file_name(report: &SavedReport, timestamp: &str) -> (r: String)
    ensures
        r@ == csv_file_name_spec(report@, timestamp@),
{
    let mut out = clean_advertiser(report.advertiser.as_str());
    out.append("_");
    out.append(report.report_type.as_str());
    out.append("_");
    if report.date_range.start_date.as_str().is_empty()
        || report.date_range.end_date.as_str().is_empty() {
        out.append("unknown-dates");
    } else {
        out.append(report.date_range.start_date.as_str());
        out.append("_");
        out.append(report.date_range.end_date.as_str());
    }
    out.append("_");
    out.append(timestamp);
    out.append(".csv");
    out
}

/// The name of a JSON export: the report's name and a timestamp.
pub open spec fn json_file_name_spec(name: Seq<char>, ts: Seq<char>) -> Seq<char> {
    name + "_"@ + ts + ".json"@
}

/// The file name a JSON export is written under.
pub fn json_file_name(name: &str, timestamp: &str) -> (r: String)
    ensures
        r@ == json_file_name_spec(name@, timestamp@),
{
    let mut out = name.to_owned();
    out.append("_");
    out.append(timestamp);
    out.append(".json");
    out
}

/// The JSON text of a saved report, as it is downloaded.
pub fn report_document(report: &SavedReport) -> (r: String)
    requires
        report_wf(report@),
    ensures
        r@ == json_pretty(report_to_json_spec(report@), 0),
{
    let doc = report_to_json(report);
    proof {
        crate::reports::lemma_report_height_pub(report@);
    }
    crate::json::pretty(&doc)
}

} // verus!
