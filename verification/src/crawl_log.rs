use vstd::prelude::*;
use crate::text::str_eq;

verus! {

/// Whether a URL may be fetched now, and if not, why.
#[derive(Debug)]
pub enum CanCrawl {
    Yes,
    No(String),
}

/// When a domain was first fetched from, and when each of its URLs was last
/// fetched, in milliseconds of a monotonic clock.
#[derive(Debug)]
pub struct DomainLog {
    pub domain: String,
    pub per_url: Vec<(String, u64)>,
    pub last_fetched_at: u64,
}

/// The fetch logs of all domains.
#[derive(Debug)]
pub struct Logs {
    pub domains: Vec<DomainLog>,
}

/// A URL log entry with the URL as characters.
pub open spec fn url_entry_view(e: (String, u64)) -> (Seq<char>, u64) {
    (e.0@, e.1)
}

/// The contents of a domain log.
pub struct DomainLogView {
    pub domain: Seq<char>,
    pub per_url: Seq<(Seq<char>, u64)>,
    pub last_fetched_at: u64,
}

impl View for DomainLog {
    type V = DomainLogView;

    open spec fn view(&self) -> DomainLogView {
        DomainLogView {
            domain: self.domain@,
            per_url: self.per_url@.map_values(|e: (String, u64)| url_entry_view(e)),
            last_fetched_at: self.last_fetched_at,
        }
    }
}

impl View for Logs {
    type V = Seq<DomainLogView>;

    open spec fn view(&self) -> Seq<DomainLogView> {
        self.domains@.map_values(|d: DomainLog| d@)
    }
}

/// Whole seconds from `then` to `now`, zero when `now` is earlier.
pub open spec fn seconds_since(then: u64, now: u64) -> int {
    if now >= then {
        (now - then) / 1000
    } else {
        0
    }
}

/// The position of the first domain log of the domain.
pub open spec fn domain_position(logs: Seq<DomainLogView>, domain: Seq<char>) -> Option<int> {
    if exists|i: int| 0 <= i < logs.len() && logs[i].domain == domain {
        Some(choose|i: int| 0 <= i < logs.len() && logs[i].domain == domain && forall|j: int| 0 <= j < i ==> logs[j].domain != domain)
    } else {
        None
    }
}

/// The position of the first log entry of the URL.
pub open spec fn url_position(entries: Seq<(Seq<char>, u64)>, url: Seq<char>) -> Option<int> {
    if exists|i: int| 0 <= i < entries.len() && entries[i].0 == url {
        Some(choose|i: int| 0 <= i < entries.len() && entries[i].0 == url && forall|j: int| 0 <= j < i ==> entries[j].0 != url)
    } else {
        None
    }
}

/// The decision of `check_logs` and the logs afterwards. A domain seen for
/// the first time is logged and may be fetched. A domain first fetched at
/// most two whole seconds ago may not be fetched. Otherwise a URL seen for
/// the first time is logged and may be fetched; a URL last fetched more than
/// two whole seconds ago is logged again and may be fetched; a URL fetched
/// more recently may not be fetched, and nothing is logged.
pub open spec fn crawl_decision(old: Seq<DomainLogView>, new: Seq<DomainLogView>, domain: Seq<char>, url: Seq<char>, now: u64, r: CanCrawl) -> bool {
    match domain_position(old, domain) {
        None => r is Yes && new == old.push(DomainLogView { domain, per_url: Seq::empty(), last_fetched_at: now }),
        Some(i) => {
            let d = old[i];
            if seconds_since(d.last_fetched_at, now) > 2 {
                match url_position(d.per_url, url) {
                    Some(j) => if seconds_since(d.per_url[j].1, now) > 2 {
                        r is Yes && new == old.update(
                            i,
                            DomainLogView { per_url: d.per_url.update(j, (url, now)), ..d },
                        )
                    } else {
                        r matches CanCrawl::No(m) && m@ == "URL was recently fetched from, cannot fetch now"@ && new == old
                    },
                    None => r is Yes && new == old.update(
                        i,
                        DomainLogView { per_url: d.per_url.push((url, now)), ..d },
                    ),
                }
            } else {
                r matches CanCrawl::No(m) && m@ == "Domain was recently fetched from, cannot fetch now"@ && new == old
            }
        },
    }
}

/// True when no URL is logged twice.
pub open spec fn urls_distinct(entries: Seq<(Seq<char>, u64)>) -> bool {
    forall|i: int, j: int| 0 <= i < j < entries.len() ==> (#[trigger] entries[i]).0 != (#[trigger] entries[j]).0
}

/// True when no domain is logged twice and no domain logs a URL twice, as
/// in maps from domains to their logs and from URLs to their times.
pub open spec fn logs_distinct(logs: Seq<DomainLogView>) -> bool {
    &&& forall|i: int, j: int| 0 <= i < j < logs.len() ==> (#[trigger] logs[i]).domain != (#[trigger] logs[j]).domain
    &&& forall|i: int| 0 <= i < logs.len() ==> urls_distinct(#[trigger] logs[i].per_url)
}

/// Every decision of `check_logs` keeps each domain and each URL logged once.
pub proof fn lemma_decision_keeps_distinct(old: Seq<DomainLogView>, new: Seq<DomainLogView>, domain: Seq<char>, url: Seq<char>, now: u64, r: CanCrawl)
    requires
        crawl_decision(old, new, domain, url, now, r),
        logs_distinct(old),
    ensures
        logs_distinct(new),
{
    match domain_position(old, domain) {
        None => {
            assert forall|i: int, j: int| 0 <= i < j < new.len() implies (#[trigger] new[i]).domain != (#[trigger] new[j]).domain by {
                if j == old.len() {
                    assert(new[i] == old[i]);
                }
            }
            assert forall|i: int| 0 <= i < new.len() implies urls_distinct(#[trigger] new[i].per_url) by {
                if i < old.len() {
                    assert(new[i] == old[i]);
                } else {
                    assert(new[i].per_url.len() == 0);
                }
            }
        },
        Some(k) => {
            let d = old[k];
            if seconds_since(d.last_fetched_at, now) > 2 {
                assert(urls_distinct(d.per_url));
                let pu = new[k].per_url;
                match url_position(d.per_url, url) {
                    Some(j) => {
                        if seconds_since(d.per_url[j].1, now) > 2 {
                            assert forall|a: int, b: int| 0 <= a < b < pu.len() implies (#[trigger] pu[a]).0 != (#[trigger] pu[b]).0 by {
                                assert(pu[a].0 == d.per_url[a].0);
                                assert(pu[b].0 == d.per_url[b].0);
                            }
                        }
                    },
                    None => {
                        assert forall|a: int, b: int| 0 <= a < b < pu.len() implies (#[trigger] pu[a]).0 != (#[trigger] pu[b]).0 by {
                            if b == d.per_url.len() {
                                assert(pu[a] == d.per_url[a]);
                            } else {
                                assert(pu[a] == d.per_url[a]);
                                assert(pu[b] == d.per_url[b]);
                            }
                        }
                    },
                }
                assert forall|i: int, j: int| 0 <= i < j < new.len() implies (#[trigger] new[i]).domain != (#[trigger] new[j]).domain by {
                    assert(new[i].domain == old[i].domain);
                    assert(new[j].domain == old[j].domain);
                }
                assert forall|i: int| 0 <= i < new.len() implies urls_distinct(#[trigger] new[i].per_url) by {
                    if i != k {
                        assert(new[i] == old[i]);
                    }
                }
            }
        },
    }
}

/// Whole seconds from `then` to `now`, zero when `now` is earlier.
fn seconds_between(then: u64, now: u64) -> (r: u64)
    ensures
        r == seconds_since(then, now),
{
    if now >= then {
        (now - then) / 1000
    } else {
        0
    }
}

/// Decides whether the URL of the domain may be fetched at time `now` (in
/// milliseconds of a monotonic clock), and logs the fetch when it may.
pub fn check_logs(domain: &str, url: &str, logs: &mut Logs, now: u64) -> (r: CanCrawl)
    ensures
        crawl_decision(old(logs)@, final(logs)@, domain@, url@, now, r),
        logs_distinct(old(logs)@) ==> logs_distinct(final(logs)@),
{
    let r = decide(domain, url, logs, now);
    proof {
        if logs_distinct(old(logs)@) {
            lemma_decision_keeps_distinct(old(logs)@, logs@, domain@, url@, now, r);
        }
    }
    r
}

/// The decision of `check_logs`, and the logging.
fn decide(domain: &str, url: &str, logs: &mut Logs, now: u64) -> (r: CanCrawl)
    ensures
        crawl_decision(old(logs)@, final(logs)@, domain@, url@, now, r),
{
    let mut i: usize = 0;
    while i < logs.domains.len() && !str_eq(logs.domains[i].domain.as_str(), domain)
        invariant
            i <= logs.domains@.len(),
            logs@ == old(logs)@,
            forall|j: int| 0 <= j < i ==> old(logs)@[j].domain != domain@,
        decreases logs.domains@.len() - i,
    {
        i = i + 1;
    }
    if i == logs.domains.len() {
        let ghost o = logs@;
        assert(!exists|k: int| 0 <= k < o.len() && o[k].domain == domain@);
        let entry = DomainLog { domain: String::from_str(domain), per_url: Vec::new(), last_fetched_at: now };
        assert(entry@.per_url =~= Seq::empty());
        logs.domains.push(entry);
        assert(logs@ =~= o.push(DomainLogView { domain: domain@, per_url: Seq::empty(), last_fetched_at: now }));
        return CanCrawl::Yes;
    }
    let ghost o = logs@;
    assert(o[i as int].domain == domain@);
    assert(domain_position(o, domain@) == Some(i as int)) by {
        let k = choose|k: int| 0 <= k < o.len() && o[k].domain == domain@ && forall|j: int| 0 <= j < k ==> o[j].domain != domain@;
        if k < i {
        } else if k > i {
        }
    }
    if seconds_between(logs.domains[i].last_fetched_at, now) <= 2 {
        return CanCrawl::No(String::from_str("Domain was recently fetched from, cannot fetch now"));
    }
    let mut dl = logs.domains.remove(i);
    let ghost dv = dl@;
    assert(dv == o[i as int]);
    let mut j: usize = 0;
    while j < dl.per_url.len() && !str_eq(dl.per_url[j].0.as_str(), url)
        invariant
            j <= dl.per_url@.len(),
            dl@ == dv,
            forall|k: int| 0 <= k < j ==> dv.per_url[k].0 != url@,
        decreases dl.per_url@.len() - j,
    {
        j = j + 1;
    }
    let r;
    if j == dl.per_url.len() {
        assert(!exists|k: int| 0 <= k < dv.per_url.len() && dv.per_url[k].0 == url@);
        dl.per_url.push((String::from_str(url), now));
        assert(dl@.per_url =~= dv.per_url.push((url@, now)));
        r = CanCrawl::Yes;
    } else {
        assert(dv.per_url[j as int].0 == url@);
        assert(url_position(dv.per_url, url@) == Some(j as int)) by {
            let k = choose|k: int| 0 <= k < dv.per_url.len() && dv.per_url[k].0 == url@ && forall|m: int| 0 <= m < k ==> dv.per_url[m].0 != url@;
            if k < j {
            } else if k > j {
            }
        }
        if seconds_between(dl.per_url[j].1, now) > 2 {
            dl.per_url.set(j, (String::from_str(url), now));
            assert(dl@.per_url =~= dv.per_url.update(j as int, (url@, now)));
            r = CanCrawl::Yes;
        } else {
            r = CanCrawl::No(String::from_str("URL was recently fetched from, cannot fetch now"));
        }
    }
    logs.domains.insert(i, dl);
    proof {
        assert(logs@ =~= o.update(i as int, dl@));
        if dl@ == dv {
            assert(o.update(i as int, dv) =~= o);
        }
    }
    r
}

} // verus!
