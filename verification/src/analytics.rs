//! Click analytics: what is recorded of a redirect, and how a recorded click
//! becomes a row.
use vstd::prelude::*;

use woothee::parser::Parser;

use crate::cookies::{split_chars, split_on, views};
use crate::text::{chars_of, string_from_chars, trim, trim_chars};

verus! {

broadcast use vstd::string::group_string_axioms;

/// How many recorded clicks the worker takes from the queue at once.
pub const DEFAULT_ANALYTICS_BATCH_SIZE: usize = 500;
/// How long, in milliseconds, the worker waits when the queue runs dry.
pub const DEFAULT_ANALYTICS_FLUSH_INTERVAL_MILLIS: u64 = 500;

/// A click as it is queued: times are microseconds since the Unix epoch.
pub struct RawAnalyticsEvent {
    pub short_code: String,
    pub ip_address: String,
    pub user_agent: Option<String>,
    pub referer: Option<String>,
    pub country_code: Option<String>,
    pub clicked_at: i64,
}

/// A click as it is stored.
pub struct NewEntry {
    pub device: Option<String>,
    pub browser: Option<String>,
    pub referer: Option<String>,
    pub short_code: Option<String>,
    pub clicked_at: i64,
    pub ip_address: String,
    pub user_agent: Option<String>,
    pub country_code: Option<String>,
}

/// A stored click, with its id.
pub struct UrlAnalytics {
    pub id: u128,
    pub device: Option<String>,
    pub browser: Option<String>,
    pub referer: Option<String>,
    pub short_code: Option<String>,
    pub clicked_at: i64,
    pub ip_address: String,
    pub user_agent: Option<String>,
    pub country_code: Option<String>,
}

/// The view of an optional string.
pub open spec fn opt_view(o: Option<String>) -> Option<Seq<char>> {
    match o {
        Some(s) => Some(s@),
        None => None,
    }
}

/// The view of an optional string slice.
pub open spec fn opt_str_view(o: Option<&str>) -> Option<Seq<char>> {
    match o {
        Some(s) => Some(s@),
        None => None,
    }
}

/// `s` if it is not empty.
pub open spec fn non_empty(s: Seq<char>) -> Option<Seq<char>> {
    if s.len() > 0 { Some(s) } else { None }
}

/// The client address of a click: the last entry of `X-Forwarded-For` (the one
/// the trusted proxy appended), trimmed, unless it is empty; else the peer.
pub open spec fn client_ip(peer: Seq<char>, forwarded_for: Option<Seq<char>>) -> Seq<char> {
    match forwarded_for {
        Some(x) => {
            let t = trim(split_on(x, ',').last());
            if t.len() > 0 { t } else { peer }
        },
        None => peer,
    }
}

/// A header value as recorded: kept as it is, unless it is empty.
pub open spec fn recorded_header(h: Option<Seq<char>>) -> Option<Seq<char>> {
    match h {
        Some(s) => non_empty(s),
        None => None,
    }
}

/// A header value recorded trimmed, unless it is then empty.
pub open spec fn recorded_trimmed(h: Option<Seq<char>>) -> Option<Seq<char>> {
    match h {
        Some(s) => non_empty(trim(s)),
        None => None,
    }
}

/// `chrono::Utc::now`, in microseconds since the Unix epoch (depends on the clock).
#[verifier::external_body]
pub(crate) fn now_micros() -> (t: i64) {
    chrono::Utc::now().timestamp_micros()
}

fn opt_string(h: Option<&str>) -> (r: Option<String>)
    ensures
        opt_view(r) == recorded_header(opt_str_view(h)),
{
    match h {
        Some(s) => if s.is_empty() {
            None
        } else {
            Some(s.to_string())
        },
        None => None,
    }
}

fn opt_trimmed(h: Option<&str>) -> (r: Option<String>)
    ensures
        opt_view(r) == recorded_trimmed(opt_str_view(h)),
{
    match h {
        Some(s) => {
            let c = chars_of(s);
            let t = trim_chars(c.as_slice());
            if t.len() == 0 {
                None
            } else {
                Some(string_from_chars(t.as_slice()))
            }
        },
        None => None,
    }
}

/// The client address for a click from `peer_ip` with the given
/// `X-Forwarded-For` header.
pub fn client_ip_of(peer_ip: &str, forwarded_for: Option<&str>) -> (ip: String)
    ensures
        ip@ == client_ip(peer_ip@, opt_str_view(forwarded_for)),
{
    match forwarded_for {
        Some(x) => {
            let c = chars_of(x);
            let parts = split_chars(c.as_slice(), ',');
            proof {
                crate::cookies::lemma_split_nonempty(x@, ',');
                assert(parts@.len() == views(parts@).len());
                assert(parts@[parts@.len() - 1]@ == views(parts@).last());
            }
            let last = &parts[parts.len() - 1];
            let t = trim_chars(last.as_slice());
            if t.len() > 0 {
                string_from_chars(t.as_slice())
            } else {
                peer_ip.to_string()
            }
        },
        None => peer_ip.to_string(),
    }
}

/// What a redirect at clock reading `now` (microseconds since the epoch)
/// records: the code, the client address, the user agent and referrer as sent
/// (unless empty), the country header trimmed (unless empty), and `now`.
pub fn extract_raw_analytics_at(
    peer_ip: &str,
    forwarded_for: Option<&str>,
    user_agent: Option<&str>,
    referer: Option<&str>,
    country_code: Option<&str>,
    short_code: String,
    now: i64,
) -> (e: RawAnalyticsEvent)
    ensures
        e.short_code == short_code,
        e.ip_address@ == client_ip(peer_ip@, opt_str_view(forwarded_for)),
        opt_view(e.user_agent) == recorded_header(opt_str_view(user_agent)),
        opt_view(e.referer) == recorded_header(opt_str_view(referer)),
        opt_view(e.country_code) == recorded_trimmed(opt_str_view(country_code)),
        e.clicked_at == now,
{
    let ip_address = client_ip_of(peer_ip, forwarded_for);
    let user_agent = opt_string(user_agent);
    let referer = opt_string(referer);
    let country_code = opt_trimmed(country_code);
    RawAnalyticsEvent { short_code, ip_address, user_agent, referer, country_code, clicked_at: now }
}

/// What a redirect records, stamped with the clock's reading now.
pub fn extract_raw_analytics(
    peer_ip: &str,
    forwarded_for: Option<&str>,
    user_agent: Option<&str>,
    referer: Option<&str>,
    country_code: Option<&str>,
    short_code: String,
) -> (e: RawAnalyticsEvent)
    ensures
        e.short_code == short_code,
        e.ip_address@ == client_ip(peer_ip@, opt_str_view(forwarded_for)),
        opt_view(e.user_agent) == recorded_header(opt_str_view(user_agent)),
        opt_view(e.referer) == recorded_header(opt_str_view(referer)),
        opt_view(e.country_code) == recorded_trimmed(opt_str_view(country_code)),
{
    extract_raw_analytics_at(peer_ip, forwarded_for, user_agent, referer, country_code, short_code, now_micros())
}

/// What woothee's parser makes of a user agent: the browser (or crawler) name
/// and the device category, or `None` where it gives no result.
pub uninterp spec fn woothee_parse(ua: Seq<char>) -> Option<(Seq<char>, Seq<char>)>;

/// `woothee::parser::Parser::parse`, keeping the name and the category.
#[verifier::external_body]
fn parse_user_agent(ua: &str) -> (r: Option<(String, String)>)
    ensures
        match r {
            Some((name, category)) => woothee_parse(ua@) == Some((name@, category@)),
            None => woothee_parse(ua@) is None,
        },
{
    Parser::new().parse(ua).map(|res| (res.name.to_string(), res.category.to_string()))
}

/// The browser and device of a user agent, each only where woothee names one.
pub open spec fn ua_fields(ua: Option<Seq<char>>) -> (Option<Seq<char>>, Option<Seq<char>>) {
    match ua {
        None => (None, None),
        Some(u) => match woothee_parse(u) {
            None => (None, None),
            Some((name, category)) => (non_empty(name), non_empty(category)),
        },
    }
}

/// The browser and device of a user agent.
pub fn classify_user_agent(ua: &Option<String>) -> (r: (Option<String>, Option<String>))
    ensures
        opt_view(r.0) == ua_fields(opt_view(*ua)).0,
        opt_view(r.1) == ua_fields(opt_view(*ua)).1,
{
    match ua {
        None => (None, None),
        Some(u) => match parse_user_agent(u.as_str()) {
            None => (None, None),
            Some((name, category)) => {
                let browser = if name.as_str().is_empty() {
                    None
                } else {
                    Some(name)
                };
                let device = if category.as_str().is_empty() {
                    None
                } else {
                    Some(category)
                };
                (browser, device)
            },
        },
    }
}

/// The row stored for a queued click.
pub fn to_new_entry(event: RawAnalyticsEvent) -> (n: NewEntry)
    ensures
        opt_view(n.browser) == ua_fields(opt_view(event.user_agent)).0,
        opt_view(n.device) == ua_fields(opt_view(event.user_agent)).1,
        n.referer == event.referer,
        n.short_code == Some(event.short_code),
        n.clicked_at == event.clicked_at,
        n.ip_address == event.ip_address,
        n.user_agent == event.user_agent,
        n.country_code == event.country_code,
{
    let (browser, device) = classify_user_agent(&event.user_agent);
    NewEntry {
        device,
        browser,
        referer: event.referer,
        short_code: Some(event.short_code),
        clicked_at: event.clicked_at,
        ip_address: event.ip_address,
        user_agent: event.user_agent,
        country_code: event.country_code,
    }
}

/// The rows stored for a batch of queued clicks, in order.
pub fn to_new_entries(events: Vec<RawAnalyticsEvent>) -> (rows: Vec<NewEntry>)
    ensures
        rows@.len() == events@.len(),
        forall|i: int| 0 <= i < rows@.len() ==> {
            &&& opt_view(#[trigger] rows@[i].browser) == ua_fields(opt_view(events@[i].user_agent)).0
            &&& opt_view(rows@[i].device) == ua_fields(opt_view(events@[i].user_agent)).1
            &&& rows@[i].short_code == Some(events@[i].short_code)
            &&& rows@[i].clicked_at == events@[i].clicked_at
            &&& rows@[i].ip_address == events@[i].ip_address
            &&& rows@[i].referer == events@[i].referer
            &&& rows@[i].user_agent == events@[i].user_agent
            &&& rows@[i].country_code == events@[i].country_code
        },
{
    let mut rows: Vec<NewEntry> = Vec::new();
    let mut events = events;
    let ghost input = events@;
    let mut taken: Vec<RawAnalyticsEvent> = Vec::new();
    // Take the events from the back, then build the rows front to back.
    while events.len() > 0
        invariant
            events@ + taken@.reverse() == input,
        decreases events@.len(),
    {
        let ghost ev = events@;
        let e = events.pop().unwrap();
        let ghost before = taken@;
        taken.push(e);
        assert(taken@.reverse() =~= seq![e] + before.reverse());
        assert(ev =~= events@.push(e));
        assert(events@ + taken@.reverse() =~= ev + before.reverse());
    }
    assert(taken@.reverse() =~= input);
    let n = taken.len();
    while taken.len() > 0
        invariant
            rows@.len() + taken@.len() == n,
            taken@.reverse() == input.subrange(rows@.len() as int, n as int),
            input.len() == n,
            forall|i: int| 0 <= i < rows@.len() ==> {
                &&& opt_view(#[trigger] rows@[i].browser) == ua_fields(opt_view(input[i].user_agent)).0
                &&& opt_view(rows@[i].device) == ua_fields(opt_view(input[i].user_agent)).1
                &&& rows@[i].short_code == Some(input[i].short_code)
                &&& rows@[i].clicked_at == input[i].clicked_at
                &&& rows@[i].ip_address == input[i].ip_address
                &&& rows@[i].referer == input[i].referer
                &&& rows@[i].user_agent == input[i].user_agent
                &&& rows@[i].country_code == input[i].country_code
            },
        decreases taken@.len(),
    {
        let ghost k = rows@.len() as int;
        let ghost before = taken@;
        let e = taken.pop().unwrap();
        assert(before.reverse()[0] == e);
        assert(input.subrange(k, n as int)[0] == input[k]);
        assert(input[k] == e);
        assert(taken@.reverse() =~= before.reverse().drop_first());
        assert(input.subrange(k, n as int).drop_first() =~= input.subrange(k + 1, n as int));
        rows.push(to_new_entry(e));
    }
    rows
}

/// Whether the worker should wait before taking the next batch: the last
/// batch did not fill up, so the queue is drained.
pub fn worker_should_pause(count: usize, batch_size: usize) -> (b: bool)
    ensures
        b == (count < batch_size),
{
    count < batch_size
}

} // verus!
