use vstd::prelude::*;
use vstd::utf8::encode_utf8;

verus! {

// --- the data-center tag inside the credential ---

pub open spec fn has_dash(s: Seq<char>) -> bool {
    exists|i: int| 0 <= i < s.len() && s[i] == '-'
}

/// The characters after the last `-`, or the whole string when it has
/// none.
pub open spec fn after_last_dash(s: Seq<char>) -> Seq<char>
    decreases s.len(),
{
    if s.len() == 0 {
        s
    } else if s.last() == '-' {
        Seq::empty()
    } else {
        after_last_dash(s.drop_last()).push(s.last())
    }
}

/// The data-center tag: what follows the last `-` of the credential, or
/// `us1` when the credential has no `-`.
pub open spec fn dc_spec(key: Seq<char>) -> Seq<char> {
    if has_dash(key) {
        after_last_dash(key)
    } else {
        "us1"@
    }
}

proof fn lemma_after_last_dash_at(s: Seq<char>, j: int)
    requires
        0 <= j < s.len(),
        s[j] == '-',
        forall|k: int| j < k < s.len() ==> s[k] != '-',
    ensures
        after_last_dash(s) == s.subrange(j + 1, s.len() as int),
    decreases s.len(),
{
    if j == s.len() - 1 {
        assert(s.subrange(j + 1, s.len() as int) =~= Seq::<char>::empty());
    } else {
        lemma_after_last_dash_at(s.drop_last(), j);
        assert(s.drop_last().subrange(j + 1, s.len() - 1) =~= s.subrange(j + 1, s.len() - 1));
        assert(s.subrange(j + 1, s.len() - 1).push(s.last()) =~= s.subrange(j + 1, s.len() as int));
    }
}

proof fn lemma_after_last_dash_none(s: Seq<char>)
    requires
        !has_dash(s),
    ensures
        after_last_dash(s) == s,
    decreases s.len(),
{
    if s.len() > 0 {
        assert(!has_dash(s.drop_last()));
        lemma_after_last_dash_none(s.drop_last());
        assert(s.drop_last().push(s.last()) =~= s);
    }
}

/// The data-center tag derived from the credential.
pub fn data_center(key: &str) -> (r: String)
    ensures
        r@ == dc_spec(key@),
{
    let len = key.unicode_len();
    let mut i: usize = len;
    while i > 0
        invariant
            i <= len,
            len == key@.len(),
            forall|k: int| i <= k < len ==> key@[k] != '-',
        decreases i,
    {
        if key.get_char(i - 1) == '-' {
            let tail = key.substring_char(i, len);
            proof {
                lemma_after_last_dash_at(key@, i - 1);
            }
            return tail.to_owned();
        }
        i -= 1;
    }
    proof {
        lemma_after_last_dash_none(key@);
    }
    String::from_str("us1")
}

// --- URLs of the two endpoints ---

pub open spec fn base_url_spec(key: Seq<char>) -> Seq<char> {
    "https://"@ + dc_spec(key) + ".api.mailchimp.com/3.0"@
}

/// The service base URL, routed to the credential's data center.
pub fn base_url(key: &str) -> (r: String)
    ensures
        r@ == base_url_spec(key@),
{
    let dc = data_center(key);
    let mut r = String::from_str("https://");
    r.append(dc.as_str());
    r.append(".api.mailchimp.com/3.0");
    r
}

pub open spec fn campaigns_url_spec(key: Seq<char>, start: Seq<char>, end: Seq<char>) -> Seq<
    char,
> {
    base_url_spec(key) + "/campaigns?since_send_time="@ + start + "T00:00:00Z&before_send_time="@
        + end + "T23:59:59Z&count=1000"@
}

/// The campaign-listing URL for an inclusive date range.
pub fn campaigns_url(key: &str, start_date: &str, end_date: &str) -> (r: String)
    ensures
        r@ == campaigns_url_spec(key@, start_date@, end_date@),
{
    let mut r = base_url(key);
    r.append("/campaigns?since_send_time=");
    r.append(start_date);
    r.append("T00:00:00Z&before_send_time=");
    r.append(end_date);
    r.append("T23:59:59Z&count=1000");
    r
}

pub open spec fn click_details_url_spec(key: Seq<char>, campaign_id: Seq<char>) -> Seq<char> {
    base_url_spec(key) + "/reports/"@ + campaign_id + "/click-details?count=1000"@
}

/// The click-details URL for one campaign.
pub fn click_details_url(key: &str, campaign_id: &str) -> (r: String)
    ensures
        r@ == click_details_url_spec(key@, campaign_id@),
{
    let mut r = base_url(key);
    r.append("/reports/");
    r.append(campaign_id);
    r.append("/click-details?count=1000");
    r
}

// --- the authorization header, through base64 ---

/// The base64 text that the STANDARD engine writes for a byte string.
pub uninterp spec fn b64_of(b: Seq<u8>) -> Seq<char>;

/// Relies on base64's STANDARD engine: the encoding depends on the bytes
/// alone, four characters for every started group of three bytes.
#[verifier::external_body]
pub(crate) fn b64_standard(b: &[u8]) -> (r: String)
    requires
        b@.len() <= 0x1000_0000,
    ensures
        r@ == b64_of(b@),
        r@.len() == 4 * ((b@.len() + 2) / 3),
{
    base64::Engine::encode(&base64::engine::general_purpose::STANDARD, b)
}

proof fn lemma_encode_utf8_len(s: Seq<char>)
    ensures
        encode_utf8(s).len() <= 4 * s.len(),
    decreases s.len(),
{
    if s.len() > 0 {
        lemma_encode_utf8_len(s.drop_first());
    }
}

pub open spec fn auth_header_spec(key: Seq<char>) -> Seq<char> {
    "Basic "@ + b64_of(encode_utf8("anystring:"@ + key))
}

/// The HTTP Basic authorization header: user name `anystring`, the
/// credential as the password, base64-encoded.
pub fn auth_header(key: &str) -> (r: String)
    requires
        key@.len() <= 0x10_0000,
    ensures
        r@ == auth_header_spec(key@),
{
    let mut joined = String::from_str("anystring:");
    joined.append(key);
    let bytes = joined.as_str().as_bytes();
    proof {
        reveal_strlit("anystring:");
        lemma_encode_utf8_len(joined@);
    }
    let b = b64_standard(bytes);
    let mut r = String::from_str("Basic ");
    r.append(b.as_str());
    r
}

} // verus!
