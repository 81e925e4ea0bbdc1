use vstd::prelude::*;
use crate::json::{Json, JsonV, get_spec, obj_get, elems_view, fields_view, json_view, json_parse_of,
    parse_json, lemma_elems_view, lemma_fields_view};
use crate::model::Settings;
use crate::model::SettingsV;

verus! {

// --- defaults ---

pub open spec fn default_audience_spec() -> Seq<char> {
    "6732b2b110"@
}

pub open spec fn default_advertisers_spec() -> Seq<Seq<char>> {
    seq![
        "HBCB (Horizon Blue Cross Blue Shield)"@,
        "NJUA"@,
        "NJ American Water"@,
        "EisnerAmper"@,
        "Gibbons Law"@,
        "Valley Health Systems"@,
        "Withum"@,
        "Grassi"@,
        "ACG"@,
        "Local 825"@,
        "Mizuho"@,
        "Caucus"@,
        "MSU"@,
        "Jersey City Summit"@,
        "NJ Bankers"@,
    ]
}

/// The advertiser list of a fresh configuration.
pub fn default_advertisers() -> (r: Vec<String>)
    ensures
        Seq::new(r@.len(), |i: int| r@[i]@) =~= default_advertisers_spec(),
{
    let mut v: Vec<String> = Vec::new();
    v.push(String::from_str("HBCB (Horizon Blue Cross Blue Shield)"));
    v.push(String::from_str("NJUA"));
    v.push(String::from_str("NJ American Water"));
    v.push(String::from_str("EisnerAmper"));
    v.push(String::from_str("Gibbons Law"));
    v.push(String::from_str("Valley Health Systems"));
    v.push(String::from_str("Withum"));
    v.push(String::from_str("Grassi"));
    v.push(String::from_str("ACG"));
    v.push(String::from_str("Local 825"));
    v.push(String::from_str("Mizuho"));
    v.push(String::from_str("Caucus"));
    v.push(String::from_str("MSU"));
    v.push(String::from_str("Jersey City Summit"));
    v.push(String::from_str("NJ Bankers"));
    v
}

/// The configuration of a first run: no credential, the fixed audience
/// identifier, the built-in advertisers, and the given directory.
pub open spec fn default_settings_spec(dir: Seq<char>) -> SettingsV {
    SettingsV {
        mailchimp_api_key: Seq::empty(),
        mailchimp_audience_id: default_audience_spec(),
        advertisers: default_advertisers_spec(),
        download_directory: dir,
    }
}

// --- the platform directories, through dirs ---

/// Relies on `dirs::download_dir`: the platform download directory, when
/// the platform reports one.
#[verifier::external_body]
pub(crate) fn os_download_dir() -> (r: Option<String>) {
    dirs::download_dir().map(|p| p.to_string_lossy().to_string())
}

/// Relies on `dirs::home_dir`: the user's home directory, when the
/// platform reports one.
#[verifier::external_body]
pub(crate) fn os_home_dir() -> (r: Option<String>) {
    dirs::home_dir().map(|p| p.to_string_lossy().to_string())
}

/// The directory downloads go to when none is configured: what the
/// platform reports, else `Downloads` under the home directory.
pub fn default_download_directory() -> (r: Result<String, String>)
    ensures
        r matches Err(m) ==> m@ == "Could not determine home directory"@,
{
    match os_download_dir() {
        Some(d) => Ok(d),
        None => match os_home_dir() {
            Some(h) => {
                let mut d = h;
                d.append("/Downloads");
                Ok(d)
            },
            None => Err(String::from_str("Could not determine home directory")),
        },
    }
}

// --- reading a configuration document ---

/// A string field of an object document.
pub open spec fn str_field(j: JsonV, key: Seq<char>) -> Option<Seq<char>> {
    match get_spec(j, key) {
        Some(v) => match v {
            JsonV::Str(s) => Some(s),
            _ => None,
        },
        _ => None,
    }
}

pub open spec fn all_strings(es: Seq<JsonV>) -> bool {
    forall|i: int| 0 <= i < es.len() ==> (#[trigger] es[i]) is Str
}

/// The string elements of an array, in order, others skipped.
pub open spec fn strs_of(es: Seq<JsonV>) -> Seq<Seq<char>>
    decreases es,
{
    if es.len() == 0 {
        Seq::empty()
    } else if es[0] is Str {
        seq![es[0]->Str_0] + strs_of(es.skip(1))
    } else {
        strs_of(es.skip(1))
    }
}

/// The configuration a document yields when every field is present and
/// well-typed, with every advertiser a string.
pub open spec fn strict_settings_of(j: JsonV) -> Option<SettingsV> {
    match (
        str_field(j, "mailchimp_api_key"@),
        str_field(j, "mailchimp_audience_id"@),
        get_spec(j, "advertisers"@),
        str_field(j, "download_directory"@),
    ) {
        (Some(key), Some(aud), Some(JsonV::Arr(es)), Some(dir)) => if all_strings(es) {
            Some(
                SettingsV {
                    mailchimp_api_key: key,
                    mailchimp_audience_id: aud,
                    advertisers: strs_of(es),
                    download_directory: dir,
                },
            )
        } else {
            None
        },
        _ => None,
    }
}

/// The configuration a malformed document yields, field by field: every
/// field present and well-typed is kept — the string advertisers among a
/// mixed array too — and only what is missing or ill-typed is replaced
/// by its default.
pub open spec fn fallback_settings_of(j: JsonV, default_dir: Seq<char>) -> SettingsV {
    SettingsV {
        mailchimp_api_key: match str_field(j, "mailchimp_api_key"@) {
            Some(k) => k,
            None => Seq::empty(),
        },
        mailchimp_audience_id: match str_field(j, "mailchimp_audience_id"@) {
            Some(a) => a,
            None => default_audience_spec(),
        },
        advertisers: match get_spec(j, "advertisers"@) {
            Some(v) => match v {
                JsonV::Arr(es) => strs_of(es),
                _ => Seq::empty(),
            },
            _ => Seq::empty(),
        },
        download_directory: match str_field(j, "download_directory"@) {
            Some(d) => d,
            None => default_dir,
        },
    }
}

/// What a configuration document denotes: the strict reading where it
/// holds, the per-field fallback elsewhere, and in either case the
/// default directory where the stored one is empty.
pub open spec fn settings_of_doc(j: JsonV, default_dir: Seq<char>) -> SettingsV {
    let base = match strict_settings_of(j) {
        Some(s) => s,
        None => fallback_settings_of(j, default_dir),
    };
    if base.download_directory.len() == 0 {
        SettingsV { download_directory: default_dir, ..base }
    } else {
        base
    }
}

fn get_str_field(doc: &Json, key: &str) -> (r: Option<String>)
    ensures
        match r {
            Some(s) => str_field(doc@, key@) == Some(s@),
            None => str_field(doc@, key@) is None,
        },
{
    match doc.get(key) {
        Some(v) => match v.as_str() {
            Some(s) => Some(s.to_owned()),
            None => None,
        },
        None => None,
    }
}

/// Collects the string advertisers of the document. The flag says
/// whether the document held an advertiser array with strings only.
fn advertiser_strings(doc: &Json) -> (r: (bool, Vec<String>))
    ensures
        r.0 == match get_spec(doc@, "advertisers"@) {
            Some(v) => v is Arr && all_strings(v->Arr_0),
            _ => false,
        },
        Seq::new(r.1@.len(), |i: int| r.1@[i]@) =~= (match get_spec(doc@, "advertisers"@) {
            Some(v) => match v {
                JsonV::Arr(es) => strs_of(es),
                _ => Seq::<Seq<char>>::empty(),
            },
            _ => Seq::<Seq<char>>::empty(),
        }),
{
    match doc.get("advertisers") {
        Some(a) => match a.as_array() {
            Some(es) => {
                let ghost ev = a@->Arr_0;
                let n = es.len();
                let mut all: bool = true;
                let mut out: Vec<String> = Vec::new();
                let mut i: usize = 0;
                proof {
                    lemma_elems_view(es@);
                    assert(ev =~= elems_view(es@));
                    assert(ev.skip(0) =~= ev);
                }
                while i < n
                    invariant
                        i <= n,
                        n == es@.len(),
                        ev == elems_view(es@),
                        ev.len() == n,
                        forall|k: int| 0 <= k < n ==> #[trigger] ev[k] == json_view(es@[k]),
                        all == (forall|k: int| 0 <= k < i ==> (#[trigger] ev[k]) is Str),
                        strs_of(ev) =~= Seq::new(out@.len(), |k: int| out@[k]@) + strs_of(
                            ev.skip(i as int),
                        ),
                    decreases n - i,
                {
                    let ghost out0 = out@;
                    match es[i].as_str() {
                        Some(s) => {
                            out.push(s.to_owned());
                            proof {
                                assert(Seq::new(out@.len(), |k: int| out@[k]@) =~= Seq::new(
                                    out0.len(),
                                    |k: int| out0[k]@,
                                ) + seq![ev[i as int]->Str_0]);
                            }
                        },
                        None => {
                            all = false;
                        },
                    }
                    proof {
                        assert(ev.skip(i as int)[0] == ev[i as int]);
                        assert(ev.skip(i as int).skip(1) =~= ev.skip(i + 1));
                        assert(strs_of(ev) =~= Seq::new(out@.len(), |k: int| out@[k]@) + strs_of(
                            ev.skip(i + 1),
                        ));
                    }
                    i += 1;
                }
                proof {
                    assert(ev.skip(n as int) =~= Seq::<JsonV>::empty());
                    assert(strs_of(Seq::<JsonV>::empty()) =~= Seq::<Seq<char>>::empty());
                    assert(Seq::new(out@.len(), |k: int| out@[k]@) =~= strs_of(ev));
                }
                (all, out)
            },
            None => (false, Vec::new()),
        },
        None => (false, Vec::new()),
    }
}

/// The strict reading of a configuration document, where it holds.
pub fn strict_settings(doc: &Json) -> (r: Option<Settings>)
    ensures
        match r {
            Some(s) => strict_settings_of(doc@) == Some(s@),
            None => strict_settings_of(doc@) is None,
        },
{
    let key = get_str_field(doc, "mailchimp_api_key");
    let aud = get_str_field(doc, "mailchimp_audience_id");
    let dir = get_str_field(doc, "download_directory");
    let (all, advs) = advertiser_strings(doc);
    match (key, aud, dir) {
        (Some(key), Some(aud), Some(dir)) => {
            if all {
                let s = Settings {
                    mailchimp_api_key: key,
                    mailchimp_audience_id: aud,
                    advertisers: advs,
                    download_directory: dir,
                };
                proof {
                    assert(s@.advertisers =~= strict_settings_of(doc@)->Some_0.advertisers);
                }
                Some(s)
            } else {
                None
            }
        },
        _ => None,
    }
}

/// Reads a configuration document, strictly where it holds and field by
/// field elsewhere, substituting `default_dir` for a missing or empty
/// download directory.
pub fn decode_settings(doc: &Json, default_dir: &str) -> (r: Settings)
    ensures
        r@ == settings_of_doc(doc@, default_dir@),
{
    let mut s: Settings = match strict_settings(doc) {
        Some(s) => s,
        None => {
            let key = match get_str_field(doc, "mailchimp_api_key") {
                Some(k) => k,
                None => String::new(),
            };
            let audience = match get_str_field(doc, "mailchimp_audience_id") {
                Some(a) => a,
                None => String::from_str("6732b2b110"),
            };
            let dir = match get_str_field(doc, "download_directory") {
                Some(d) => d,
                None => default_dir.to_owned(),
            };
            let (_all, advs) = advertiser_strings(doc);
            Settings {
                mailchimp_api_key: key,
                mailchimp_audience_id: audience,
                advertisers: advs,
                download_directory: dir,
            }
        },
    };
    if s.download_directory.as_str().is_empty() {
        s.download_directory = default_dir.to_owned();
    }
    proof {
        assert(s@.advertisers =~= settings_of_doc(doc@, default_dir@).advertisers);
    }
    s
}

/// Reads the configuration from the settings file's text, or none when
/// the file is absent. An unparseable file and an undeterminable
/// platform directory are the two errors; a strictly readable document
/// with a non-empty download directory is owed success, the platform
/// never being consulted for it.
pub fn load_settings(content: Option<&str>) -> (r: Result<Settings, String>)
    ensures
        match content {
            None => {
                &&& (r matches Ok(s) ==> s@ == default_settings_spec(s@.download_directory))
                &&& (r matches Err(m) ==> m@ == "Could not determine home directory"@)
            },
            Some(text) => match json_parse_of(text@) {
                None => r matches Err(m) && (exists|e: Seq<char>|
                    m@ == "Failed to parse settings JSON: "@ + e),
                Some(doc) => {
                    &&& (r matches Ok(s) ==> s@ == settings_of_doc(doc, s@.download_directory))
                    &&& (r matches Err(m) ==> m@ == "Could not determine home directory"@)
                    &&& match strict_settings_of(doc) {
                        Some(sv) => sv.download_directory.len() > 0 ==> (r matches Ok(s) && s@
                            == sv),
                        None => true,
                    }
                },
            },
        },
{
    match content {
        None => {
            let dir = default_download_directory()?;
            Ok(
                Settings {
                    mailchimp_api_key: String::new(),
                    mailchimp_audience_id: String::from_str("6732b2b110"),
                    advertisers: default_advertisers(),
                    download_directory: dir,
                },
            )
        },
        Some(text) => {
            match parse_json(text) {
                Err(e) => {
                    let mut m = String::from_str("Failed to parse settings JSON: ");
                    m.append(e.as_str());
                    proof {
                        assert(m@ == "Failed to parse settings JSON: "@ + e@);
                    }
                    Err(m)
                },
                Ok(doc) => {
                    match strict_settings(&doc) {
                        Some(s) => {
                            if !s.download_directory.as_str().is_empty() {
                                return Ok(s);
                            }
                            let dir = default_download_directory()?;
                            Ok(decode_settings(&doc, dir.as_str()))
                        },
                        None => {
                            let dir = default_download_directory()?;
                            Ok(decode_settings(&doc, dir.as_str()))
                        },
                    }
                },
            }
        },
    }
}

// --- writing a configuration document ---

/// The document a configuration is written as.
pub open spec fn settings_to_json_spec(s: SettingsV) -> JsonV {
    JsonV::Obj(
        seq![
            ("mailchimp_api_key"@, JsonV::Str(s.mailchimp_api_key)),
            ("mailchimp_audience_id"@, JsonV::Str(s.mailchimp_audience_id)),
            ("advertisers"@, JsonV::Arr(s.advertisers.map(|i: int, a: Seq<char>| JsonV::Str(a)))),
            ("download_directory"@, JsonV::Str(s.download_directory)),
        ],
    )
}

/// Builds the document a configuration is written as.
pub fn settings_to_json(s: &Settings) -> (r: Json)
    ensures
        r@ == settings_to_json_spec(s@),
{
    let mut advs: Vec<Json> = Vec::new();
    let n = s.advertisers.len();
    let mut i: usize = 0;
    while i < n
        invariant
            i <= n,
            n == s.advertisers@.len(),
            advs@.len() == i,
            forall|k: int|
                0 <= k < i ==> json_view(#[trigger] advs@[k]) == JsonV::Str(s.advertisers@[k]@),
        decreases n - i,
    {
        advs.push(Json::of_str(s.advertisers[i].as_str()));
        i += 1;
    }
    let mut fields: Vec<(String, Json)> = Vec::new();
    fields.push((String::from_str("mailchimp_api_key"), Json::of_str(s.mailchimp_api_key.as_str())));
    fields.push((
        String::from_str("mailchimp_audience_id"),
        Json::of_str(s.mailchimp_audience_id.as_str()),
    ));
    fields.push((String::from_str("advertisers"), Json::Arr(advs)));
    fields.push((
        String::from_str("download_directory"),
        Json::of_str(s.download_directory.as_str()),
    ));
    let r = Json::Obj(fields);
    proof {
        lemma_fields_view(fields@);
        assert(r@->Obj_0[2].1->Arr_0 =~= s@.advertisers.map(|i: int, a: Seq<char>| JsonV::Str(a)))
            by {
            lemma_elems_view(advs@);
        }
        assert(r@->Obj_0 =~= settings_to_json_spec(s@)->Obj_0);
    }
    r
}

proof fn lemma_settings_height(sv: SettingsV)
    ensures
        crate::json::json_height(settings_to_json_spec(sv)) <= 2,
{
    let advs = sv.advertisers.map(|i: int, a: Seq<char>| JsonV::Str(a));
    crate::json::lemma_seq_height_le(advs, 0);
    crate::json::lemma_fields_height_le(settings_to_json_spec(sv)->Obj_0, 1);
}

/// The settings file's text: the configuration document,
/// pretty-printed.
pub fn settings_document(s: &Settings) -> (r: String)
    ensures
        r@ == crate::json::json_pretty(settings_to_json_spec(s@), 0),
{
    let doc = settings_to_json(s);
    proof {
        lemma_settings_height(s@);
    }
    crate::json::pretty(&doc)
}

// --- the round trip ---

proof fn lemma_strs_of_all_strings(advs: Seq<Seq<char>>)
    ensures
        strs_of(advs.map(|i: int, a: Seq<char>| JsonV::Str(a))) == advs,
    decreases advs.len(),
{
    let es = advs.map(|i: int, a: Seq<char>| JsonV::Str(a));
    if advs.len() == 0 {
        assert(strs_of(es) =~= advs);
    } else {
        lemma_strs_of_all_strings(advs.skip(1));
        assert(es.skip(1) =~= advs.skip(1).map(|i: int, a: Seq<char>| JsonV::Str(a)));
        assert(strs_of(es) =~= seq![advs[0]] + strs_of(es.skip(1)));
        assert(seq![advs[0]] + advs.skip(1) =~= advs);
    }
}

/// Writing a configuration and reading the document back yields the same
/// configuration, for any configuration whose download directory is not
/// empty (an empty one is replaced by the platform default on read).
pub proof fn lemma_settings_round_trip(s: SettingsV, default_dir: Seq<char>)
    requires
        s.download_directory.len() > 0,
    ensures
        settings_of_doc(settings_to_json_spec(s), default_dir) == s,
{
    reveal_strlit("mailchimp_api_key");
    reveal_strlit("mailchimp_audience_id");
    reveal_strlit("advertisers");
    reveal_strlit("download_directory");
    let j = settings_to_json_spec(s);
    let fs = j->Obj_0;
    let advs = JsonV::Arr(s.advertisers.map(|i: int, a: Seq<char>| JsonV::Str(a)));
    assert("mailchimp_api_key"@.len() == 17);
    assert("mailchimp_audience_id"@.len() == 21);
    assert("advertisers"@.len() == 11);
    assert("download_directory"@.len() == 18);
    assert(fs.skip(1).skip(1) =~= fs.skip(2));
    assert(fs.skip(2).skip(1) =~= fs.skip(3));
    assert(obj_get(fs, "mailchimp_api_key"@) == Some(JsonV::Str(s.mailchimp_api_key)));
    assert(obj_get(fs.skip(1), "mailchimp_audience_id"@) == Some(
        JsonV::Str(s.mailchimp_audience_id),
    ));
    assert(obj_get(fs, "mailchimp_audience_id"@) == Some(JsonV::Str(s.mailchimp_audience_id)));
    assert(obj_get(fs.skip(2), "advertisers"@) == Some(advs));
    assert(obj_get(fs.skip(1), "advertisers"@) == Some(advs));
    assert(obj_get(fs, "advertisers"@) == Some(advs));
    assert(obj_get(fs.skip(3), "download_directory"@) == Some(JsonV::Str(s.download_directory)));
    assert(obj_get(fs.skip(2), "download_directory"@) == Some(JsonV::Str(s.download_directory)));
    assert(obj_get(fs.skip(1), "download_directory"@) == Some(JsonV::Str(s.download_directory)));
    assert(obj_get(fs, "download_directory"@) == Some(JsonV::Str(s.download_directory)));
    lemma_strs_of_all_strings(s.advertisers);
    assert(strict_settings_of(j) == Some(s));
}

} // verus!
