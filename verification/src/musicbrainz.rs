//! MusicBrainz lookups: the request URLs and query, how responses are
//! judged, how releases become candidates and track listings, and the
//! one-request-per-second spacing MusicBrainz asks for.

use vstd::prelude::*;
use crate::models::{opt_view, string_views};
use crate::text::{extend_str, from_chars, remove_char, remove_char_chars, to_chars};

verus! {

/// MusicBrainz ToS requires a descriptive User-Agent identifying the app;
/// this one is used until the user sets their own in Settings.
pub fn default_user_agent() -> (r: &'static str)
    ensures
        r@ == "Podforge/0.1.0 ( https://github.com/pranav-r13/podforge )"@,
{
    "Podforge/0.1.0 ( https://github.com/pranav-r13/podforge )"
}

/// One release offered for manual disambiguation.
#[derive(Debug, Clone)]
pub struct MbCandidate {
    pub release_id: String,
    pub title: String,
    pub artist: String,
    pub date: Option<String>,
    pub country: Option<String>,
    pub disambiguation: Option<String>,
}

/// One credited artist of a release or track.
#[derive(Debug, Clone)]
pub struct ArtistCreditJson {
    pub name: String,
}

/// A release as MusicBrainz lists it in search and disc-ID results.
#[derive(Debug, Clone)]
pub struct ReleaseJson {
    pub id: String,
    pub title: String,
    pub date: Option<String>,
    pub country: Option<String>,
    pub disambiguation: Option<String>,
    pub artist_credit: Vec<ArtistCreditJson>,
}

/// One track's title/artist as listed on a specific MusicBrainz release.
#[derive(Debug, Clone)]
pub struct MbReleaseTrack {
    pub number: i64,
    pub title: String,
    pub artist: Option<String>,
}

/// A release's title, artist and track listing.
#[derive(Debug, Clone)]
pub struct ReleaseDetail {
    pub title: String,
    pub artist: String,
    pub tracks: Vec<MbReleaseTrack>,
}

/// A track as listed in a release's media.
#[derive(Debug, Clone)]
pub struct TrackJson {
    pub position: i64,
    pub title: String,
    pub artist_credit: Vec<ArtistCreditJson>,
}

/// One medium (disc) of a release.
#[derive(Debug, Clone)]
pub struct MediumJson {
    pub tracks: Vec<TrackJson>,
}

/// A release as MusicBrainz returns it with its recordings.
#[derive(Debug, Clone)]
pub struct ReleaseDetailJson {
    pub title: String,
    pub artist_credit: Vec<ArtistCreditJson>,
    pub media: Vec<MediumJson>,
}

/// `parts` joined with `sep` between consecutive parts.
pub open spec fn join_with(parts: Seq<Seq<char>>, sep: Seq<char>) -> Seq<char>
    decreases parts.len(),
{
    if parts.len() == 0 {
        seq![]
    } else if parts.len() == 1 {
        parts[0]
    } else {
        join_with(parts.drop_last(), sep) + sep + parts.last()
    }
}

/// The names of credited artists.
pub open spec fn credit_names(c: Seq<ArtistCreditJson>) -> Seq<Seq<char>> {
    c.map_values(|a: ArtistCreditJson| a.name@)
}

/// The credited artists' names joined with `", "`.
pub fn join_artist_credit(credits: &Vec<ArtistCreditJson>) -> (r: String)
    ensures
        r@ == join_with(credit_names(credits@), ", "@),
{
    let ghost names = credit_names(credits@);
    let mut out: Vec<char> = Vec::new();
    let mut i: usize = 0;
    while i < credits.len()
        invariant
            i <= credits.len(),
            names == credit_names(credits@),
            out@ == join_with(names.take(i as int), ", "@),
        decreases credits.len() - i,
    {
        assert(names.take(i + 1).drop_last() == names.take(i as int));
        assert(names.take(i + 1).last() == credits@[i as int].name@);
        if i > 0 {
            extend_str(&mut out, ", ");
        } else {
            assert(names.take(1) == seq![names[0]]);
        }
        extend_str(&mut out, credits[i].name.as_str());
        i += 1;
    }
    assert(names.take(credits.len() as int) == names);
    from_chars(&out)
}

/// A release as a match candidate: its id, title, joined artist credit,
/// date, country and disambiguation.
pub fn release_json_to_candidate(r: ReleaseJson) -> (c: MbCandidate)
    ensures
        c.release_id == r.id,
        c.title == r.title,
        c.artist@ == join_with(credit_names(r.artist_credit@), ", "@),
        c.date == r.date,
        c.country == r.country,
        c.disambiguation == r.disambiguation,
{
    let artist = join_artist_credit(&r.artist_credit);
    MbCandidate {
        release_id: r.id,
        title: r.title,
        artist,
        date: r.date,
        country: r.country,
        disambiguation: r.disambiguation,
    }
}

/// Every release of a response as a candidate, in the response's order.
pub fn candidates_from_releases(releases: Vec<ReleaseJson>) -> (r: Vec<MbCandidate>)
    ensures
        r.len() == releases.len(),
        forall|k: int|
            0 <= k < r.len() ==> {
                let c = #[trigger] r@[k];
                let j = releases@[k];
                &&& c.release_id == j.id
                &&& c.title == j.title
                &&& c.artist@ == join_with(credit_names(j.artist_credit@), ", "@)
                &&& c.date == j.date
                &&& c.country == j.country
                &&& c.disambiguation == j.disambiguation
            },
{
    let mut out: Vec<MbCandidate> = Vec::new();
    let mut rest = releases;
    let ghost all = rest@;
    let n = rest.len();
    assert(all.len() == n);
    let mut i: usize = 0;
    while rest.len() > 0
        invariant
            i + rest.len() == all.len(),
            all.len() <= usize::MAX,
            rest@ == all.skip(i as int),
            out.len() == i,
            forall|k: int|
                0 <= k < i ==> {
                    let c = #[trigger] out@[k];
                    let j = all[k];
                    &&& c.release_id == j.id
                    &&& c.title == j.title
                    &&& c.artist@ == join_with(credit_names(j.artist_credit@), ", "@)
                    &&& c.date == j.date
                    &&& c.country == j.country
                    &&& c.disambiguation == j.disambiguation
                },
        decreases rest.len(),
    {
        let first = rest.remove(0);
        assert(first == all[i as int]);
        assert(rest@ == all.skip(i + 1));
        out.push(release_json_to_candidate(first));
        i += 1;
    }
    out
}

/// The artist of a listed track: its joined credit, or none when it has no
/// credit of its own.
pub open spec fn track_artist(c: Seq<ArtistCreditJson>) -> Option<Seq<char>> {
    if c.len() == 0 {
        None
    } else {
        Some(join_with(credit_names(c), ", "@))
    }
}

/// The tracks of a release's first medium (none when it has no media):
/// multi-disc box sets are not disambiguated by disc number.
pub open spec fn first_medium_tracks(d: ReleaseDetailJson) -> Seq<TrackJson> {
    if d.media.len() == 0 {
        seq![]
    } else {
        d.media@[0].tracks@
    }
}

/// A release's title, joined artist credit and first-medium track listing,
/// each track with its position, title and own artist credit.
pub fn release_detail_from_json(d: &ReleaseDetailJson) -> (r: ReleaseDetail)
    ensures
        r.title == d.title,
        r.artist@ == join_with(credit_names(d.artist_credit@), ", "@),
        r.tracks.len() == first_medium_tracks(*d).len(),
        forall|k: int|
            0 <= k < r.tracks.len() ==> {
                let t = #[trigger] r.tracks@[k];
                let j = first_medium_tracks(*d)[k];
                &&& t.number == j.position
                &&& t.title == j.title
                &&& opt_view(t.artist) == track_artist(j.artist_credit@)
            },
{
    let mut tracks: Vec<MbReleaseTrack> = Vec::new();
    if d.media.len() > 0 {
        let listed = &d.media[0].tracks;
        let mut i: usize = 0;
        while i < listed.len()
            invariant
                d.media.len() > 0,
                listed@ == first_medium_tracks(*d),
                i <= listed.len(),
                tracks.len() == i,
                forall|k: int|
                    0 <= k < i ==> {
                        let t = #[trigger] tracks@[k];
                        let j = listed@[k];
                        &&& t.number == j.position
                        &&& t.title == j.title
                        &&& opt_view(t.artist) == track_artist(j.artist_credit@)
                    },
            decreases listed.len() - i,
        {
            let t = &listed[i];
            let artist = if t.artist_credit.len() == 0 {
                None
            } else {
                Some(join_artist_credit(&t.artist_credit))
            };
            tracks.push(MbReleaseTrack { number: t.position, title: t.title.clone(), artist });
            i += 1;
        }
    }
    ReleaseDetail { title: d.title.clone(), artist: join_artist_credit(&d.artist_credit), tracks }
}

/// The text query for a release by album and artist; double quotes are
/// removed from both so they cannot break out of the quoted terms.
pub open spec fn search_query_text(artist: Seq<char>, album: Seq<char>) -> Seq<char> {
    "release:\""@ + remove_char(album, '"') + "\" AND artist:\""@ + remove_char(artist, '"') + "\""@
}

/// Builds the release search query for an album and artist.
pub fn search_query(artist: &str, album: &str) -> (r: String)
    ensures
        r@ == search_query_text(artist@, album@),
{
    let al = remove_char_chars(&to_chars(album), '"');
    let ar = remove_char_chars(&to_chars(artist), '"');
    let mut out = to_chars("release:\"");
    crate::text::extend_chars(&mut out, &al);
    extend_str(&mut out, "\" AND artist:\"");
    crate::text::extend_chars(&mut out, &ar);
    extend_str(&mut out, "\"");
    from_chars(&out)
}

/// The release search endpoint.
pub fn search_url() -> (r: &'static str)
    ensures
        r@ == "https://musicbrainz.org/ws/2/release/"@,
{
    "https://musicbrainz.org/ws/2/release/"
}

/// The disc-ID lookup URL for a disc.
pub fn discid_url(disc_id: &str) -> (r: String)
    ensures
        r@ == "https://musicbrainz.org/ws/2/discid/"@ + disc_id@,
{
    let mut s = String::from_str("https://musicbrainz.org/ws/2/discid/");
    s.append(disc_id);
    s
}

/// The URL of one release's details.
pub fn release_url(release_id: &str) -> (r: String)
    ensures
        r@ == "https://musicbrainz.org/ws/2/release/"@ + release_id@,
{
    let mut s = String::from_str("https://musicbrainz.org/ws/2/release/");
    s.append(release_id);
    s
}

/// The query parameters of the plain views of `(name, value)` pairs.
pub open spec fn param_views(p: Seq<(String, String)>) -> Seq<(Seq<char>, Seq<char>)> {
    p.map_values(|x: (String, String)| (x.0@, x.1@))
}

fn push_param(p: &mut Vec<(String, String)>, k: &str, v: &str)
    ensures
        param_views(final(p)@) == param_views(old(p)@).push((k@, v@)),
{
    p.push((String::from_str(k), String::from_str(v)));
    assert(param_views(p@) =~= param_views(old(p)@).push((k@, v@)));
}

/// The query parameters of a release search: the query, JSON, ten results.
pub fn search_params(query: &str) -> (r: Vec<(String, String)>)
    ensures
        param_views(r@) == seq![("query"@, query@), ("fmt"@, "json"@), ("limit"@, "10"@)],
{
    let mut p: Vec<(String, String)> = Vec::new();
    push_param(&mut p, "query", query);
    push_param(&mut p, "fmt", "json");
    push_param(&mut p, "limit", "10");
    assert(param_views(p@) =~= seq![("query"@, query@), ("fmt"@, "json"@), ("limit"@, "10"@)]);
    p
}

/// The query parameters of a disc-ID lookup: JSON, with artist credits.
pub fn discid_params() -> (r: Vec<(String, String)>)
    ensures
        param_views(r@) == seq![("fmt"@, "json"@), ("inc"@, "artist-credits"@)],
{
    let mut p: Vec<(String, String)> = Vec::new();
    push_param(&mut p, "fmt", "json");
    push_param(&mut p, "inc", "artist-credits");
    assert(param_views(p@) =~= seq![("fmt"@, "json"@), ("inc"@, "artist-credits"@)]);
    p
}

/// The query parameters of a release's details: JSON, with recordings and
/// artist credits.
pub fn release_params() -> (r: Vec<(String, String)>)
    ensures
        param_views(r@) == seq![("fmt"@, "json"@), ("inc"@, "recordings+artist-credits"@)],
{
    let mut p: Vec<(String, String)> = Vec::new();
    push_param(&mut p, "fmt", "json");
    push_param(&mut p, "inc", "recordings+artist-credits");
    assert(param_views(p@) =~= seq![("fmt"@, "json"@), ("inc"@, "recordings+artist-credits"@)]);
    p
}

/// Whether an HTTP status code is a success (2xx).
pub open spec fn is_success(code: u16) -> bool {
    200 <= code <= 299
}

/// What a lookup does with a response, by its status.
#[derive(Debug, Clone)]
pub enum ResponseCheck {
    /// Read the body.
    Proceed,
    /// The lookup found nothing: an empty result, not an error.
    NotFound,
    /// The lookup failed with this message.
    Failed(String),
}

/// The message for a response that failed with `status` (the status as
/// `reqwest` prints it, e.g. `"503 Service Unavailable"`).
pub open spec fn status_message(service: Seq<char>, status: Seq<char>) -> Seq<char> {
    service + " returned status "@ + status
}

fn failed(service: &str, status: &str) -> (r: String)
    ensures
        r@ == status_message(service@, status@),
{
    let mut s = String::from_str(service);
    s.append(" returned status ");
    s.append(status);
    s
}

/// A search or release-detail response: anything but a success fails.
pub fn check_release_response(code: u16, status: &str) -> (r: Result<(), String>)
    ensures
        is_success(code) ==> r is Ok,
        !is_success(code) ==> (r matches Err(m) && m@ == status_message("MusicBrainz"@, status@)),
{
    if 200 <= code && code <= 299 {
        Ok(())
    } else {
        Err(failed("MusicBrainz", status))
    }
}

/// A disc-ID lookup response: 404 means the pressing is not catalogued (a
/// normal outcome; the caller falls back to text search), any other
/// non-success fails.
pub fn check_discid_response(code: u16, status: &str) -> (r: ResponseCheck)
    ensures
        code == 404 ==> r is NotFound,
        code != 404 && is_success(code) ==> r is Proceed,
        code != 404 && !is_success(code) ==> (r matches ResponseCheck::Failed(m) && m@
            == status_message("MusicBrainz"@, status@)),
{
    if code == 404 {
        ResponseCheck::NotFound
    } else if 200 <= code && code <= 299 {
        ResponseCheck::Proceed
    } else {
        ResponseCheck::Failed(failed("MusicBrainz", status))
    }
}

/// MusicBrainz asks unauthenticated clients for at most one request per
/// second: the wait before the next request, in nanoseconds, when the last
/// one was `elapsed` nanoseconds ago.
pub open spec fn rate_limit_wait(elapsed: int) -> int {
    if elapsed < 1_000_000_000 {
        1_000_000_000 - elapsed
    } else {
        0
    }
}

/// The wait before the next MusicBrainz request.
pub fn rate_limit_wait_nanos(elapsed_nanos: u128) -> (r: u64)
    ensures
        r == rate_limit_wait(elapsed_nanos as int),
{
    if elapsed_nanos < 1_000_000_000 {
        (1_000_000_000 - elapsed_nanos) as u64
    } else {
        0
    }
}

/// Requests spaced by the rate limiter are at least one second apart, and
/// a request more than a second after the last goes out at once.
pub proof fn law_rate_limit_spacing(elapsed: int)
    requires
        elapsed >= 0,
    ensures
        elapsed + rate_limit_wait(elapsed) >= 1_000_000_000,
        elapsed >= 1_000_000_000 ==> rate_limit_wait(elapsed) == 0,
        rate_limit_wait(elapsed) <= 1_000_000_000,
{
}


/// The instant the request before request `i` went out: `start` (what the
/// limiter is set up with) for the first.
pub open spec fn previous_send(start: int, sent: Seq<int>, i: int) -> int {
    if i == 0 {
        start
    } else {
        sent[i - 1]
    }
}

/// Over any run of requests through the limiter, one at a time: request
/// `i` takes the limiter at `arrivals[i]` (no earlier than the previous
/// request went out), waits `rate_limit_wait` of the time since then, and
/// goes out at `sent[i]`. Then successive requests go out at least one
/// second apart, no request waits more than a second, and a request that
/// comes a second or more after `start` (the limiter starts two seconds in
/// the past) goes out without waiting.
pub proof fn law_rate_limit_run(start: int, arrivals: Seq<int>, sent: Seq<int>)
    requires
        arrivals.len() == sent.len(),
        forall|i: int|
            0 <= i < sent.len() ==> #[trigger] arrivals[i] >= previous_send(start, sent, i) && sent[i]
                >= arrivals[i] + rate_limit_wait(arrivals[i] - previous_send(start, sent, i)),
    ensures
        forall|i: int| 0 < i < sent.len() ==> #[trigger] sent[i] - sent[i - 1] >= 1_000_000_000,
        forall|i: int|
            0 <= i < sent.len() ==> #[trigger] rate_limit_wait(arrivals[i] - previous_send(start, sent, i))
                <= 1_000_000_000,
        sent.len() > 0 && arrivals[0] - start >= 1_000_000_000 ==> rate_limit_wait(arrivals[0] - start) == 0,
{
    assert forall|i: int| 0 < i < sent.len() implies #[trigger] sent[i] - sent[i - 1] >= 1_000_000_000 by {
        assert(arrivals[i] >= previous_send(start, sent, i));
        law_rate_limit_spacing(arrivals[i] - sent[i - 1]);
    }
    assert forall|i: int|
        0 <= i < sent.len() implies #[trigger] rate_limit_wait(arrivals[i] - previous_send(start, sent, i))
        <= 1_000_000_000 by {
        assert(arrivals[i] >= previous_send(start, sent, i));
        law_rate_limit_spacing(arrivals[i] - previous_send(start, sent, i));
    }
}

/// Removing a character leaves none of it behind.
pub proof fn lemma_remove_char_gone(s: Seq<char>, c: char)
    ensures
        forall|i: int| 0 <= i < remove_char(s, c).len() ==> #[trigger] remove_char(s, c)[i] != c,
    decreases s.len(),
{
    if s.len() > 0 {
        lemma_remove_char_gone(s.drop_last(), c);
        let r = remove_char(s, c);
        let p = remove_char(s.drop_last(), c);
        if s.last() != c {
            assert forall|i: int| 0 <= i < r.len() implies #[trigger] r[i] != c by {
                if i < p.len() {
                    assert(r[i] == p[i]);
                }
            }
        }
    }
}

/// The album and artist in a search query hold no double quote, so each
/// stays inside its own quoted term.
pub proof fn law_search_terms_unquoted(artist: Seq<char>, album: Seq<char>)
    ensures
        forall|i: int| 0 <= i < remove_char(album, '"').len() ==> #[trigger] remove_char(album, '"')[i] != '"',
        forall|i: int| 0 <= i < remove_char(artist, '"').len() ==> #[trigger] remove_char(artist, '"')[i] != '"',
        search_query_text(artist, album) == "release:\""@ + remove_char(album, '"') + "\" AND artist:\""@
            + remove_char(artist, '"') + "\""@,
{
    lemma_remove_char_gone(album, '"');
    lemma_remove_char_gone(artist, '"');
}

} // verus!
