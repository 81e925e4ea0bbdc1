use vstd::prelude::*;
use crate::text::{contains_seq, contains_str, starts_with_seq, starts_with_str, str_eq};
use crate::json::{Json, JsonV, get_spec, elems_view};
use crate::model::GenError;

verus! {

// --- case folding, through std ---

/// The lowercase form of a text, as `str::to_lowercase` folds it.
pub uninterp spec fn lower_of(s: Seq<char>) -> Seq<char>;

/// Relies on `str::to_lowercase`: the lowercase form depends on the
/// characters alone, and an empty string stays empty.
#[verifier::external_body]
pub(crate) fn lowercase(s: &str) -> (r: String)
    ensures
        r@ == lower_of(s@),
        s@.len() == 0 ==> r@.len() == 0,
{
    s.to_lowercase()
}

// --- the newsletter-type keyword rule ---

/// The keyword rule on an already-lowercased keyword and title: the
/// keyword `hc` also stands for `health care`; any other keyword matches
/// as a substring.
pub open spec fn matches_keyword(kw: Seq<char>, title: Seq<char>) -> bool {
    if kw == "hc"@ {
        contains_seq(title, "hc"@) || contains_seq(title, "health care"@)
    } else {
        contains_seq(title, kw)
    }
}

/// Decides the keyword rule on already-lowercased keyword and title.
pub fn matches_lowered(kw: &str, title: &str) -> (r: bool)
    ensures
        r == matches_keyword(kw@, title@),
{
    if str_eq(kw, "hc") {
        contains_str(title, "hc") || contains_str(title, "health care")
    } else {
        contains_str(title, kw)
    }
}

/// Whether a title matches the newsletter-type keyword,
/// case-insensitively.
pub open spec fn title_matches(kw: Seq<char>, title: Seq<char>) -> bool {
    matches_keyword(lower_of(kw), lower_of(title))
}

/// Decides the keyword rule, folding both sides to lowercase first.
pub fn keyword_title_match(kw: &str, title: &str) -> (r: bool)
    ensures
        r == title_matches(kw@, title@),
{
    let kl = lowercase(kw);
    let tl = lowercase(title);
    matches_lowered(kl.as_str(), tl.as_str())
}

/// The `settings.title` string of a campaign document, if it has one.
pub open spec fn campaign_title(c: JsonV) -> Option<Seq<char>> {
    match get_spec(c, "settings"@) {
        Some(s) => match get_spec(s, "title"@) {
            Some(t) => match t {
                JsonV::Str(title) => Some(title),
                _ => None,
            },
            _ => None,
        },
        _ => None,
    }
}

/// Whether a campaign document has a title matching the keyword.
pub open spec fn campaign_matches(c: JsonV, kw: Seq<char>) -> bool {
    match campaign_title(c) {
        Some(title) => title_matches(kw, title),
        None => false,
    }
}

/// Decides whether a campaign document's title matches the keyword.
pub fn campaign_matches_exec(c: &Json, kw: &str) -> (r: bool)
    ensures
        r == campaign_matches(c@, kw@),
{
    match c.get("settings") {
        Some(s) => match s.get("title") {
            Some(t) => match t.as_str() {
                Some(title) => keyword_title_match(kw, title),
                None => false,
            },
            None => false,
        },
        None => false,
    }
}

// --- tracking-URL validation ---

/// Whether `url::Url::parse` accepts the text, which depends on the text
/// alone.
pub uninterp spec fn url_ok(s: Seq<char>) -> bool;

/// Relies on `url::Url::parse`: syntactic URL validity.
#[verifier::external_body]
pub(crate) fn url_parses(s: &str) -> (r: bool)
    ensures
        r == url_ok(s@),
{
    url::Url::parse(s).is_ok()
}

/// The characters `char::is_whitespace` reports as white space: the
/// Unicode `White_Space` set.
pub open spec fn whitespace_char(c: char) -> bool {
    ||| c == ' '
    ||| c == '\t'
    ||| c == '\n'
    ||| c == '\r'
    ||| c == '\u{b}'
    ||| c == '\u{c}'
    ||| c == '\u{85}'
    ||| c == '\u{a0}'
    ||| c == '\u{1680}'
    ||| (0x2000 <= c as int && c as int <= 0x200a)
    ||| c == '\u{2028}'
    ||| c == '\u{2029}'
    ||| c == '\u{202f}'
    ||| c == '\u{205f}'
    ||| c == '\u{3000}'
}

fn whitespace_exec(c: char) -> (r: bool)
    ensures
        r == whitespace_char(c),
{
    let u = c as u32;
    u == 0x20 || u == 0x9 || u == 0xa || u == 0xd || u == 0xb || u == 0xc || u == 0x85 || u == 0xa0
        || u == 0x1680 || (0x2000 <= u && u <= 0x200a) || u == 0x2028 || u == 0x2029 || u == 0x202f
        || u == 0x205f || u == 0x3000
}

/// Whether a tracking URL begins like a full URL.
pub open spec fn full_url_prefix(u: Seq<char>) -> bool {
    starts_with_seq(u, "http://"@) || starts_with_seq(u, "https://"@)
}

/// One tracking URL is acceptable: empty entries pass (they are skipped
/// later); a full URL must parse; a bare fragment must hold no white
/// space and no angle bracket.
pub open spec fn tracking_url_ok(u: Seq<char>) -> bool {
    if u.len() == 0 {
        true
    } else if full_url_prefix(u) {
        url_ok(u)
    } else {
        forall|i: int|
            0 <= i < u.len() ==> !whitespace_char(#[trigger] u[i]) && u[i] != '<' && u[i] != '>'
    }
}

pub open spec fn all_tracking_urls_ok(urls: Seq<Seq<char>>) -> bool {
    forall|i: int| 0 <= i < urls.len() ==> tracking_url_ok(#[trigger] urls[i])
}

/// The message that rejects one tracking URL.
pub open spec fn invalid_url_message(u: Seq<char>) -> Seq<char> {
    if full_url_prefix(u) {
        "Invalid tracking URL format: "@ + u
    } else {
        "Invalid tracking URL or path component: "@ + u
    }
}

fn one_tracking_url_ok(u: &str) -> (r: bool)
    ensures
        r == tracking_url_ok(u@),
{
    let len = u.unicode_len();
    if len == 0 {
        return true;
    }
    if starts_with_str(u, "http://") || starts_with_str(u, "https://") {
        url_parses(u)
    } else {
        let mut i: usize = 0;
        while i < len
            invariant
                i <= len,
                len == u@.len(),
                forall|k: int|
                    0 <= k < i ==> !whitespace_char(#[trigger] u@[k]) && u@[k] != '<' && u@[k]
                        != '>',
            decreases len - i,
        {
            let c = u.get_char(i);
            if whitespace_exec(c) || c == '<' || c == '>' {
                return false;
            }
            i += 1;
        }
        true
    }
}

/// Rejects an empty tracking-URL list, and any entry that is neither a
/// parseable full URL nor a clean path fragment. The error names the
/// first entry at fault.
pub fn validate_tracking_urls(urls: &Vec<String>) -> (r: Result<(), GenError>)
    ensures
        r is Ok <==> (urls@.len() > 0 && all_tracking_urls_ok(
            Seq::new(urls@.len(), |i: int| urls@[i]@),
        )),
        r matches Err(e) ==> e is Input,
        urls@.len() == 0 ==> (r matches Err(GenError::Input(m)) && m@
            == "No tracking URLs provided"@),
        r matches Err(GenError::Input(m)) ==> urls@.len() == 0 || exists|i: int|
            {
                &&& 0 <= i < urls@.len()
                &&& !tracking_url_ok(#[trigger] urls@[i]@)
                &&& forall|k: int| 0 <= k < i ==> tracking_url_ok(#[trigger] urls@[k]@)
                &&& m@ == invalid_url_message(urls@[i]@)
            },
{
    let n = urls.len();
    if n == 0 {
        return Err(GenError::Input(String::from_str("No tracking URLs provided")));
    }
    let mut i: usize = 0;
    while i < n
        invariant
            i <= n,
            n == urls@.len(),
            forall|k: int| 0 <= k < i ==> tracking_url_ok(#[trigger] urls@[k]@),
        decreases n - i,
    {
        let u = &urls[i];
        if !one_tracking_url_ok(u.as_str()) {
            let mut m: String = if starts_with_str(u.as_str(), "http://") || starts_with_str(
                u.as_str(),
                "https://",
            ) {
                String::from_str("Invalid tracking URL format: ")
            } else {
                String::from_str("Invalid tracking URL or path component: ")
            };
            m.append(u.as_str());
            proof {
                let uv = Seq::new(urls@.len(), |k: int| urls@[k]@);
                assert(uv[i as int] == urls@[i as int]@);
                assert(!all_tracking_urls_ok(uv));
                assert(!tracking_url_ok(urls@[i as int]@));
                assert(m@ == invalid_url_message(urls@[i as int]@));
            }
            return Err(GenError::Input(m));
        }
        i += 1;
    }
    assert(all_tracking_urls_ok(Seq::new(urls@.len(), |i: int| urls@[i]@)));
    Ok(())
}

/// The message that rejects an empty campaign list.
pub open spec fn no_campaigns_message() -> Seq<char> {
    "No campaigns found for the specified date range"@
}

/// The message that rejects a campaign list with no matching title.
pub open spec fn no_matching_campaigns_message(kw: Seq<char>) -> Seq<char> {
    "No campaigns found matching the newsletter type '"@ + kw
        + "'. Please check if the newsletter type is correct."@
}

/// Rejects a fetched campaign list that is empty or holds no campaign
/// whose title matches the newsletter-type keyword.
pub fn validate_campaign_data(campaigns: &Vec<Json>, newsletter_type: &str) -> (r: Result<
    (),
    GenError,
>)
    ensures
        r is Ok <==> (campaigns@.len() > 0 && exists|i: int|
            0 <= i < campaigns@.len() && campaign_matches(
                #[trigger] elems_view(campaigns@)[i],
                newsletter_type@,
            )),
        r matches Err(e) ==> e is Input,
        campaigns@.len() == 0 ==> (r matches Err(GenError::Input(m)) && m@
            == no_campaigns_message()),
        r matches Err(GenError::Input(m)) ==> campaigns@.len() == 0 || m@
            == no_matching_campaigns_message(newsletter_type@),
{
    let n = campaigns.len();
    if n == 0 {
        return Err(
            GenError::Input(String::from_str("No campaigns found for the specified date range")),
        );
    }
    let mut i: usize = 0;
    while i < n
        invariant
            i <= n,
            n == campaigns@.len(),
            forall|k: int|
                0 <= k < i ==> !campaign_matches(
                    #[trigger] elems_view(campaigns@)[k],
                    newsletter_type@,
                ),
        decreases n - i,
    {
        proof {
            crate::json::lemma_elems_view(campaigns@);
        }
        if campaign_matches_exec(&campaigns[i], newsletter_type) {
            proof {
                assert(campaign_matches(elems_view(campaigns@)[i as int], newsletter_type@));
            }
            return Ok(());
        }
        i += 1;
    }
    let mut m = String::from_str("No campaigns found matching the newsletter type '");
    m.append(newsletter_type);
    m.append("'. Please check if the newsletter type is correct.");
    Err(GenError::Input(m))
}

} // verus!
