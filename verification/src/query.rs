use crate::selection::ResolvedIds;
use crate::version::cmp_segments;
use crate::version::compare_versions;
use crate::version::parse_version;
use crate::version::version_fits;
use crate::version::version_values;
use crate::version::version_wf;
use vstd::prelude::*;
use vstd::string::StrSliceExecFns;
use vstd::string::StringExecFns;

verus! {

/// Why a query ended without a comparison: the installed version could not
/// be read, or the remote lookup did not yield a usable latest version.
#[derive(Clone, Copy, Debug, PartialEq, Eq, Structural)]
pub enum VersionCheckFailure {
    CurrentVersionUnreadable,
    RemoteLookupFailed,
}

/// The terminal outcome of one query: no update (current, latest), an
/// available update (current, latest, download link), or a failure reason.
#[derive(Debug, PartialEq, Eq)]
pub enum VersionCheckResult {
    NoUpdate(String, String),
    UpdateAvailable(String, String, String),
    Failure(VersionCheckFailure),
}

/// The index of the first `c` in `s` at or after `from`; the length of `s`
/// when there is none.
pub open spec fn index_of_from(s: Seq<char>, c: char, from: int) -> int
    decreases s.len() - from,
{
    if from < 0 || from >= s.len() {
        s.len() as int
    } else if s[from] == c {
        from
    } else {
        index_of_from(s, c, from + 1)
    }
}

proof fn lemma_index_of_from_is(s: Seq<char>, c: char, from: int, j: int)
    requires
        0 <= from <= j <= s.len(),
        forall|t: int| from <= t < j ==> s[t] != c,
        j == s.len() || s[j] == c,
    ensures
        index_of_from(s, c, from) == j,
    decreases j - from,
{
    if from < j {
        lemma_index_of_from_is(s, c, from + 1, j);
    }
}

/// Whether the probe output has a second line at all.
pub open spec fn has_second_line(s: Seq<char>) -> bool {
    index_of_from(s, '\n', 0) < s.len()
}

/// The second line of the probe output: the characters between the first
/// newline and the next one (or the end).
pub open spec fn second_line(s: Seq<char>) -> Seq<char> {
    let i = index_of_from(s, '\n', 0);
    let j = index_of_from(s, '\n', i + 1);
    s.subrange(i + 1, j)
}

/// A trailing carriage return is stripped.
pub open spec fn strip_cr(l: Seq<char>) -> Seq<char> {
    if l.len() > 0 && l.last() == '\r' {
        l.drop_last()
    } else {
        l
    }
}

/// The installed version as the probe reports it: the second output line,
/// without a trailing carriage return.
pub open spec fn probe_version(s: Seq<char>) -> Seq<char> {
    strip_cr(second_line(s))
}

/// Reads the installed version out of the raw probe output: the second line,
/// stripped of a trailing carriage return; nothing when the output has fewer
/// than two lines.
pub fn parse_probe_output(raw: &str) -> (r: Option<String>)
    ensures
        r is Some <==> has_second_line(raw@),
        r is Some ==> r.unwrap()@ == probe_version(raw@),
{
    let len = raw.unicode_len();
    let mut i: usize = 0;
    while i < len && !(raw.get_char(i) == '\n')
        invariant
            0 <= i <= len,
            len == raw@.len(),
            forall|t: int| 0 <= t < i ==> raw@[t] != '\n',
        decreases len - i,
    {
        i = i + 1;
    }
    proof {
        lemma_index_of_from_is(raw@, '\n', 0, i as int);
    }
    if i == len {
        return None;
    }
    let mut j: usize = i + 1;
    while j < len && !(raw.get_char(j) == '\n')
        invariant
            i + 1 <= j <= len,
            len == raw@.len(),
            forall|t: int| i + 1 <= t < j ==> raw@[t] != '\n',
        decreases len - j,
    {
        j = j + 1;
    }
    proof {
        lemma_index_of_from_is(raw@, '\n', i + 1, j as int);
    }
    let line = raw.substring_char(i + 1, j);
    let llen = j - (i + 1);
    assert(line@.len() == llen);
    if llen > 0 && line.get_char(llen - 1) == '\r' {
        let stripped = line.substring_char(0, llen - 1);
        proof {
            assert(line@.last() == '\r');
            assert(stripped@ =~= strip_cr(line@));
        }
        Some(String::from_str(stripped))
    } else {
        proof {
            assert(strip_cr(line@) == line@);
        }
        Some(String::from_str(line))
    }
}

/// Whether the pattern occurs in `s` starting at position `i`.
pub open spec fn matches_at(s: Seq<char>, pat: Seq<char>, i: int) -> bool {
    0 <= i && i + pat.len() <= s.len() && s.subrange(i, i + pat.len()) == pat
}

/// The position of the first occurrence of the pattern at or after `from`;
/// the length of `s` when there is none.
pub open spec fn first_match_from(s: Seq<char>, pat: Seq<char>, from: int) -> int
    decreases s.len() - from,
{
    if from < 0 || from >= s.len() || from + pat.len() > s.len() {
        s.len() as int
    } else if matches_at(s, pat, from) {
        from
    } else {
        first_match_from(s, pat, from + 1)
    }
}

proof fn lemma_first_match_found(s: Seq<char>, pat: Seq<char>, from: int, j: int)
    requires
        0 <= from <= j,
        matches_at(s, pat, j),
        forall|t: int| from <= t < j ==> !matches_at(s, pat, t),
    ensures
        first_match_from(s, pat, from) == j,
    decreases j - from,
{
    if from < j {
        lemma_first_match_found(s, pat, from + 1, j);
    }
}

proof fn lemma_first_match_none(s: Seq<char>, pat: Seq<char>, from: int)
    requires
        0 <= from,
        forall|t: int| t >= from ==> !matches_at(s, pat, t),
    ensures
        first_match_from(s, pat, from) == s.len(),
    decreases s.len() - from,
{
    if from < s.len() && from + pat.len() <= s.len() {
        lemma_first_match_none(s, pat, from + 1);
    }
}

/// The position of the first occurrence of `pat` in `s`; the length of `s`
/// when there is none.
pub fn find_substring(s: &str, pat: &str) -> (r: usize)
    requires
        pat@.len() >= 1,
    ensures
        r as int == first_match_from(s@, pat@, 0),
{
    let slen = s.unicode_len();
    let plen = pat.unicode_len();
    if plen > slen {
        proof {
            lemma_first_match_none(s@, pat@, 0);
        }
        return slen;
    }
    let mut i: usize = 0;
    while i <= slen - plen
        invariant
            0 <= i <= slen - plen + 1,
            plen <= slen,
            slen == s@.len(),
            plen == pat@.len(),
            plen >= 1,
            forall|t: int| 0 <= t < i ==> !matches_at(s@, pat@, t),
        decreases slen - plen - i + 1,
    {
        let mut j: usize = 0;
        let mut hit = true;
        while j < plen && hit
            invariant
                0 <= j <= plen,
                i + plen <= slen,
                slen == s@.len(),
                plen == pat@.len(),
                hit ==> forall|t: int| 0 <= t < j ==> s@[i + t] == pat@[t],
                !hit ==> !matches_at(s@, pat@, i as int),
            decreases plen - j,
        {
            if !(s.get_char(i + j) == pat.get_char(j)) {
                proof {
                    if matches_at(s@, pat@, i as int) {
                        assert(s@.subrange(i as int, i + plen)[j as int] == pat@[j as int]);
                    }
                }
                hit = false;
            }
            j = j + 1;
        }
        if hit {
            proof {
                assert(s@.subrange(i as int, i + plen) =~= pat@);
                lemma_first_match_found(s@, pat@, 0, i as int);
            }
            return i;
        }
        i = i + 1;
    }
    proof {
        assert forall|t: int| t >= 0 implies !matches_at(s@, pat@, t) by {
            if t < i {
            } else {
                assert(t + pat@.len() > s@.len());
            }
        }
        lemma_first_match_none(s@, pat@, 0);
    }
    slen
}

/// The marker that precedes the two-letter region code in the region
/// endpoint's response body.
pub open spec fn region_marker() -> Seq<char> {
    "alt=\\\""@
}

/// The region code in a response body: the two characters after the first
/// occurrence of the marker; empty when the marker is absent or the body
/// ends too early after it.
pub open spec fn region_of(body: Seq<char>) -> Seq<char> {
    let i = first_match_from(body, region_marker(), 0);
    if i < body.len() && i + region_marker().len() + 2 <= body.len() {
        body.subrange(i + region_marker().len(), i + region_marker().len() + 2)
    } else {
        Seq::empty()
    }
}

/// Extracts the two-letter region code from the region endpoint's response
/// body; empty when the marker is absent or cut short.
pub fn extract_region(body: &str) -> (r: String)
    ensures
        r@ == region_of(body@),
{
    let pat = "alt=\\\"";
    proof {
        reveal_strlit("alt=\\\"");
        assert(pat@ == region_marker());
        assert(region_marker().len() == 6);
    }
    let len = body.unicode_len();
    let i = find_substring(body, pat);
    if i < len && len - i >= 8 {
        let code = body.substring_char(i + 6, i + 8);
        proof {
            assert(code@ =~= region_of(body@));
        }
        String::from_str(code)
    } else {
        proof {
            assert(region_of(body@) =~= Seq::<char>::empty());
        }
        String::new()
    }
}

fn str_eq(a: &str, b: &str) -> (r: bool)
    ensures
        r == (a@ == b@),
{
    let sa = String::from_str(a);
    let sb = String::from_str(b);
    sa == sb
}

/// The host suffix the region selects: the regional host for "CN", the
/// generic one otherwise.
pub open spec fn suffix_of(region: Seq<char>) -> Seq<char> {
    if region == "CN"@ {
        "cn"@
    } else {
        "com"@
    }
}

pub fn region_suffix(region: &str) -> (r: &'static str)
    ensures
        r@ == suffix_of(region@),
{
    if str_eq(region, "CN") {
        "cn"
    } else {
        "com"
    }
}

/// The remote lookup URL: the fixed query template with the resolved ids and
/// the region-dependent host suffix substituted in.
pub open spec fn lookup_url_model(
    psid: Seq<char>,
    pfid: Seq<char>,
    osid: Seq<char>,
    langid: Seq<char>,
    typeid: Seq<char>,
    suffix: Seq<char>,
) -> Seq<char> {
    "https://gfwsl.geforce."@ + suffix
        + "/services_toolkit/services/com/nvidia/services/AjaxDriverService.php?func=DriverManualLookup&psid="@
        + psid + "&pfid="@ + pfid + "&osID="@ + osid + "&languageCode="@ + langid
        + "&beta=0&isWHQL=0&dltype=-1&dch=1&upCRD="@ + typeid
        + "&qnf=0&sort1=0&numberOfResults=100"@
}

/// The lookup URL for the resolved ids under the given region.
pub open spec fn ids_url(ids: ResolvedIds, region: Seq<char>) -> Seq<char> {
    lookup_url_model(
        ids.psid@,
        ids.pfid@,
        ids.osid@,
        ids.langid@,
        ids.typeid@,
        suffix_of(region),
    )
}

/// Builds the remote lookup URL from the resolved ids and the host suffix.
pub fn build_lookup_url(ids: &ResolvedIds, suffix: &str) -> (r: String)
    ensures
        r@ == lookup_url_model(
            ids.psid@,
            ids.pfid@,
            ids.osid@,
            ids.langid@,
            ids.typeid@,
            suffix@,
        ),
{
    let mut url = String::from_str("https://gfwsl.geforce.");
    url.append(suffix);
    url.append(
        "/services_toolkit/services/com/nvidia/services/AjaxDriverService.php?func=DriverManualLookup&psid=",
    );
    url.append(ids.psid.as_str());
    url.append("&pfid=");
    url.append(ids.pfid.as_str());
    url.append("&osID=");
    url.append(ids.osid.as_str());
    url.append("&languageCode=");
    url.append(ids.langid.as_str());
    url.append("&beta=0&isWHQL=0&dltype=-1&dch=1&upCRD=");
    url.append(ids.typeid.as_str());
    url.append("&qnf=0&sort1=0&numberOfResults=100");
    proof {
        assert(url@ =~= lookup_url_model(
            ids.psid@,
            ids.pfid@,
            ids.osid@,
            ids.langid@,
            ids.typeid@,
            suffix@,
        ));
    }
    url
}

/// A version string the comparison can work with: well-formed, and every
/// segment within the machine word.
pub open spec fn version_ok(s: Seq<char>) -> bool {
    version_wf(s) && version_fits(s)
}

/// The decision the comparison step owes: an unreadable
/// installed version fails the query; an unreadable latest version fails the
/// lookup; otherwise a strictly newer latest version reports the update, and
/// anything else reports no update.
pub open spec fn decision_matches(
    cur: Seq<char>,
    lat: Seq<char>,
    url: Seq<char>,
    r: VersionCheckResult,
) -> bool {
    if !version_ok(cur) {
        r == VersionCheckResult::Failure(VersionCheckFailure::CurrentVersionUnreadable)
    } else if !version_ok(lat) {
        r == VersionCheckResult::Failure(VersionCheckFailure::RemoteLookupFailed)
    } else if cmp_segments(version_values(lat), version_values(cur)) == 1 {
        (r matches VersionCheckResult::UpdateAvailable(c, l, u) && c@ == cur && l@ == lat && u@
            == url)
    } else {
        (r matches VersionCheckResult::NoUpdate(c, l) && c@ == cur && l@ == lat)
    }
}

/// Compares the installed and the latest published version and produces the
/// terminal outcome.
pub fn decide_outcome(current: &str, latest: &str, download_url: &str) -> (r: VersionCheckResult)
    ensures
        decision_matches(current@, latest@, download_url@, r),
{
    let cur_vals = match parse_version(current) {
        Some(v) => v,
        None => {
            return VersionCheckResult::Failure(VersionCheckFailure::CurrentVersionUnreadable);
        },
    };
    let lat_vals = match parse_version(latest) {
        Some(v) => v,
        None => {
            return VersionCheckResult::Failure(VersionCheckFailure::RemoteLookupFailed);
        },
    };
    let c = compare_versions(&lat_vals, &cur_vals);
    if c == 1 {
        VersionCheckResult::UpdateAvailable(
            String::from_str(current),
            String::from_str(latest),
            String::from_str(download_url),
        )
    } else {
        VersionCheckResult::NoUpdate(String::from_str(current), String::from_str(latest))
    }
}

/// What the remote lookup response yields: the first candidate's version
/// string and direct download link, exactly when the body is a JSON document
/// whose `IDS` field is a non-empty array and whose first element carries
/// string fields `Version` and `DownloadURL` under `downloadInfo`; nothing
/// on any decode or shape failure, and on an empty candidate list. All later
/// candidates are ignored. The outcome is a function of the body text alone.
pub uninterp spec fn lookup_payload_of(body: Seq<char>) -> Option<(Seq<char>, Seq<char>)>;

/// Relies on serde_json::from_str, Value::get, Value::as_array and
/// Value::as_str: decodes the lookup response body and walks it to the first
/// candidate's version and direct download link, as `lookup_payload_of`
/// describes.
#[verifier::external_body]
fn parse_lookup_response(body: &str) -> (r: Option<(String, String)>)
    ensures
        r is Some <==> lookup_payload_of(body@) is Some,
        r is Some ==> r.unwrap().0@ == lookup_payload_of(body@).unwrap().0 && r.unwrap().1@
            == lookup_payload_of(body@).unwrap().1,
{
    let v: serde_json::Value = serde_json::from_str(body).ok()?;
    let first = v.get("IDS")?.as_array()?.first()?;
    let info = first.get("downloadInfo")?;
    let version = info.get("Version")?.as_str()?;
    let link = info.get("DownloadURL")?.as_str()?;
    Some((String::from(version), String::from(link)))
}

/// Where one query stands: waiting for the local probe, for the region hint
/// (carrying the installed version), for the remote lookup (the same), or
/// finished.
pub enum QueryPhase {
    Probing,
    FetchingRegion(String),
    LookingUp(String),
    Done,
}

/// What the outside world reports back to the workflow: the raw probe
/// output, the region endpoint's response body, and the lookup endpoint's
/// response body. `None` stands for the failure of the probe or of the
/// respective fetch.
pub enum QueryEvent {
    ProbeReturned(Option<String>),
    RegionReturned(Option<String>),
    LookupReturned(Option<String>),
}

/// What the workflow asks for next: run the local version probe, fetch the
/// region hint, fetch the lookup URL, or finish with the terminal outcome.
pub enum QueryAction {
    RunProbe,
    FetchRegion,
    FetchLookup(String),
    Finish(VersionCheckResult),
}

/// One version-check workflow: a state machine whose steps decide,
/// and whose outside work (subprocess, network) the caller performs between
/// steps.
pub struct QueryMachine {
    pub ids: ResolvedIds,
    pub phase: QueryPhase,
}

/// Which event each phase is waiting for.
pub open spec fn event_expected(m: QueryMachine, e: QueryEvent) -> bool {
    ||| (m.phase is Probing && e is ProbeReturned)
    ||| (m.phase is FetchingRegion && e is RegionReturned)
    ||| (m.phase is LookingUp && e is LookupReturned)
}

/// Starts a query for the resolved ids. The first step is the local version
/// probe: no network request happens before it succeeds.
pub fn query_start(ids: ResolvedIds) -> (r: (QueryMachine, QueryAction))
    ensures
        r.0.ids == ids,
        r.0.phase is Probing,
        r.1 is RunProbe,
{
    (QueryMachine { ids, phase: QueryPhase::Probing }, QueryAction::RunProbe)
}

/// Advances the workflow by one outside event. A failed or unreadable probe
/// ends the query at once with `CurrentVersionUnreadable` — in particular no
/// network action is ever requested after it. A failed region fetch falls
/// back to the generic host. A failed lookup fetch, and a lookup body that
/// does not decode to a first candidate's version and download link, end
/// with `RemoteLookupFailed`; anything else ends with the version
/// comparison's decision on that candidate.
pub fn query_step(m: &mut QueryMachine, e: QueryEvent) -> (a: QueryAction)
    requires
        event_expected(*old(m), e),
    ensures
        final(m).ids == old(m).ids,
        (e matches QueryEvent::ProbeReturned(raw) ==> (match raw {
            Option::None => (final(m).phase is Done && a == QueryAction::Finish(
                VersionCheckResult::Failure(VersionCheckFailure::CurrentVersionUnreadable),
            )),
            Option::Some(out) => {
                if has_second_line(out@) {
                    (final(m).phase matches QueryPhase::FetchingRegion(cur) && cur@
                        == probe_version(out@)) && a is FetchRegion
                } else {
                    (final(m).phase is Done && a == QueryAction::Finish(
                        VersionCheckResult::Failure(VersionCheckFailure::CurrentVersionUnreadable),
                    ))
                }
            },
        })),
        (old(m).phase matches QueryPhase::FetchingRegion(cur) ==> (e matches
        QueryEvent::RegionReturned(body) ==> ({
            let region = match body {
                Option::Some(b) => region_of(b@),
                Option::None => Seq::<char>::empty(),
            };
            final(m).phase == QueryPhase::LookingUp(cur) && (a matches QueryAction::FetchLookup(url)
                && url@ == ids_url(old(m).ids, region))
        }))),
        (old(m).phase matches QueryPhase::LookingUp(cur) ==> (e matches QueryEvent::LookupReturned(
            res,
        ) ==> (match res {
            Option::None => (final(m).phase is Done && a == QueryAction::Finish(
                VersionCheckResult::Failure(VersionCheckFailure::RemoteLookupFailed),
            )),
            Option::Some(body) => (final(m).phase is Done && (match lookup_payload_of(body@) {
                Option::None => a == QueryAction::Finish(
                    VersionCheckResult::Failure(VersionCheckFailure::RemoteLookupFailed),
                ),
                Option::Some(payload) => (a matches QueryAction::Finish(out) && decision_matches(
                    cur@,
                    payload.0,
                    payload.1,
                    out,
                )),
            })),
        }))),
{
    match e {
        QueryEvent::ProbeReturned(raw) => {
            match raw {
                Option::None => {
                    m.phase = QueryPhase::Done;
                    QueryAction::Finish(
                        VersionCheckResult::Failure(VersionCheckFailure::CurrentVersionUnreadable),
                    )
                },
                Option::Some(out) => {
                    match parse_probe_output(out.as_str()) {
                        Option::Some(cur) => {
                            m.phase = QueryPhase::FetchingRegion(cur);
                            QueryAction::FetchRegion
                        },
                        Option::None => {
                            m.phase = QueryPhase::Done;
                            QueryAction::Finish(
                                VersionCheckResult::Failure(
                                    VersionCheckFailure::CurrentVersionUnreadable,
                                ),
                            )
                        },
                    }
                },
            }
        },
        QueryEvent::RegionReturned(body) => {
            let cur: String = match &m.phase {
                QueryPhase::FetchingRegion(c) => c.clone(),
                _ => {
                    proof {
                        assert(false);
                    }
                    String::new()
                },
            };
            let region: String = match body {
                Option::Some(b) => extract_region(b.as_str()),
                Option::None => String::new(),
            };
            let suffix = region_suffix(region.as_str());
            let url = build_lookup_url(&m.ids, suffix);
            m.phase = QueryPhase::LookingUp(cur);
            QueryAction::FetchLookup(url)
        },
        QueryEvent::LookupReturned(res) => {
            let cur: String = match &m.phase {
                QueryPhase::LookingUp(c) => c.clone(),
                _ => {
                    proof {
                        assert(false);
                    }
                    String::new()
                },
            };
            m.phase = QueryPhase::Done;
            match res {
                Option::None => QueryAction::Finish(
                    VersionCheckResult::Failure(VersionCheckFailure::RemoteLookupFailed),
                ),
                Option::Some(body) => {
                    match parse_lookup_response(body.as_str()) {
                        Option::None => QueryAction::Finish(
                            VersionCheckResult::Failure(VersionCheckFailure::RemoteLookupFailed),
                        ),
                        Option::Some((v, u)) => {
                            let out = decide_outcome(cur.as_str(), v.as_str(), u.as_str());
                            QueryAction::Finish(out)
                        },
                    }
                },
            }
        },
    }
}

} // verus!
