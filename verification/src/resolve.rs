//! Asset resolution: scanning per-pair responses for an embedded document
//! URL, and the bounded-concurrency bookkeeping of the resolution round.
//!
//! Each identifier pair's response is scanned for the textual marker
//! `textOrigUrl:"<url>"` where the quoted text carries a `.pdf` extension;
//! absence of the marker is a valid empty result, not an error. A transport
//! failure, or a scanned URL that does not validate, is recorded as a
//! per-pair failure and never silently dropped.

use vstd::prelude::*;
use vstd::utf8::{decode_utf8, valid_utf8};

use crate::query_string::string_from_utf8;
use crate::scan::{find_byte, find_byte_from, find_first, find_from, match_at, match_at_exec, subrange_vec};

verus! {

/// The literal `textOrigUrl:"` that opens the quoted asset URL.
pub open spec fn pdf_lit() -> Seq<u8> {
    seq![116u8, 101, 120, 116, 79, 114, 105, 103, 85, 114, 108, 58, 34]
}

/// The literal `.pdf` that the quoted text must contain.
pub open spec fn pdf_ext() -> Seq<u8> {
    seq![46u8, 112, 100, 102]
}

/// The literal `textOrigUrl:"` as a byte vector.
fn pdf_lit_exec() -> (v: Vec<u8>)
    ensures
        v@ == pdf_lit(),
{
    let mut v: Vec<u8> = Vec::new();
    v.push(116);
    v.push(101);
    v.push(120);
    v.push(116);
    v.push(79);
    v.push(114);
    v.push(105);
    v.push(103);
    v.push(85);
    v.push(114);
    v.push(108);
    v.push(58);
    v.push(34);
    assert(v@ =~= pdf_lit());
    v
}

/// The literal `.pdf` as a byte vector.
fn pdf_ext_exec() -> (v: Vec<u8>)
    ensures
        v@ == pdf_ext(),
{
    let mut v: Vec<u8> = Vec::new();
    v.push(46);
    v.push(112);
    v.push(100);
    v.push(102);
    assert(v@ =~= pdf_ext());
    v
}

/// Position of the quote closing the URL opened at marker position `i`.
pub open spec fn capture_end(s: Seq<u8>, i: int) -> int {
    find_byte_from(s, 34, i + pdf_lit().len())
}

/// Whether a full asset-URL match stands at `i`: the opening literal, a
/// closing quote, and a `.pdf` extension somewhere between the quotes.
pub open spec fn pdf_match_at(s: Seq<u8>, i: int) -> bool {
    &&& match_at(s, pdf_lit(), i)
    &&& capture_end(s, i) < s.len()
    &&& find_from(s.subrange(i + pdf_lit().len(), capture_end(s, i)), pdf_ext(), 0) is Some
}

/// The quoted URL bytes of the match at `i`.
pub open spec fn pdf_capture(s: Seq<u8>, i: int) -> Seq<u8> {
    s.subrange(i + pdf_lit().len(), capture_end(s, i))
}

/// The first asset-URL match at or after `i`, if any.
pub open spec fn pdf_url_from(s: Seq<u8>, i: int) -> Option<Seq<u8>>
    decreases s.len() - i,
{
    if i < 0 || i >= s.len() {
        None
    } else if pdf_match_at(s, i) {
        Some(pdf_capture(s, i))
    } else {
        pdf_url_from(s, i + 1)
    }
}

/// The URL bytes a response body yields: the first quoted `textOrigUrl`
/// value containing `.pdf`, or nothing.
pub open spec fn pdf_url_spec(s: Seq<u8>) -> Option<Seq<u8>> {
    pdf_url_from(s, 0)
}

/// Scans a response body for the first quoted `textOrigUrl` value that
/// carries a `.pdf` extension. `None` means the response references no
/// document asset, which is expected for unrelated content types.
pub fn find_pdf_url(s: &[u8]) -> (r: Option<Vec<u8>>)
    ensures
        match r {
            Some(v) => pdf_url_spec(s@) == Some(v@),
            None => pdf_url_spec(s@) is None,
        },
{
    let lit = pdf_lit_exec();
    let ext = pdf_ext_exec();
    let mut i: usize = 0;
    while i < s.len()
        invariant
            i <= s.len(),
            lit@ == pdf_lit(),
            ext@ == pdf_ext(),
            pdf_url_from(s@, 0) == pdf_url_from(s@, i as int),
        decreases s.len() - i,
    {
        if match_at_exec(s, lit.as_slice(), i) {
            let c0 = i + 13;
            let q = find_byte(s, 34, c0);
            if q < s.len() {
                let region = subrange_vec(s, c0, q);
                if find_first(region.as_slice(), ext.as_slice()).is_some() {
                    assert(pdf_match_at(s@, i as int));
                    return Some(region);
                }
            }
            assert(!pdf_match_at(s@, i as int));
        }
        i = i + 1;
    }
    None
}

/// Whether `url::Url::parse` accepts a string as an absolute URL. The
/// outcome depends on the string's characters alone.
pub uninterp spec fn url_accepts(s: Seq<char>) -> bool;

/// Relies on `url::Url::parse`: it parses an absolute URL from the string,
/// or reports an error, by the string's content alone.
#[verifier::external_body]
fn url_parse_ok(s: &str) -> (r: bool)
    ensures
        r == url_accepts(s@),
{
    url::Url::parse(s).is_ok()
}

/// A validated absolute URL, kept as the text that validated. Its `download`
/// query parameter, when present, names the file the asset is stored under.
pub struct AssetUrl {
    text: String,
}

impl View for AssetUrl {
    type V = Seq<char>;

    closed spec fn view(&self) -> Seq<char> {
        self.text@
    }
}

impl AssetUrl {
    /// Every value of this type is text that `url::Url::parse` accepted.
    #[verifier::type_invariant]
    spec fn inv(&self) -> bool {
        url_accepts(self@)
    }

    /// Validates `text` as an absolute URL; returns nothing when the URL
    /// parser rejects it.
    pub fn from_text(text: String) -> (r: Option<AssetUrl>)
        ensures
            match r {
                Some(u) => u@ == text@ && url_accepts(text@),
                None => !url_accepts(text@),
            },
    {
        if url_parse_ok(text.as_str()) {
            Some(AssetUrl { text })
        } else {
            None
        }
    }

    /// The URL's text.
    pub fn as_str(&self) -> (r: &str)
        ensures
            r@ == self@,
    {
        self.text.as_str()
    }
}

/// Largest number of pair-resolution requests that may be outstanding at
/// once.
pub const IN_FLIGHT_LIMIT: usize = 5;

/// What one pair-resolution request came back with.
pub enum PairOutcome {
    /// The request returned a success status with this body.
    Response(Vec<u8>),
    /// The request failed in transport or returned a non-success status.
    Failed,
}

/// Why one pair's resolution was recorded as a failure.
#[derive(Debug, Clone, Copy, PartialEq, Eq, Structural)]
pub enum ResolveErrorKind {
    /// The request itself failed; distinguishable from a normal no-match.
    Transport,
    /// The scanned URL bytes were not UTF-8 text.
    UrlNotUtf8,
    /// The URL parser rejected the scanned text.
    UrlRejected,
}

/// A recorded per-pair resolution failure. Collected, never fatal by itself.
#[derive(Debug, Clone, Copy, PartialEq, Eq, Structural)]
pub struct ResolveError {
    /// Index of the identifier pair whose request failed.
    pub pair_index: usize,
    pub kind: ResolveErrorKind,
}

/// Bookkeeping of one resolution round: how many requests were launched and
/// finished, the URLs resolved so far, and the failures recorded so far.
/// The caller performs the requests; this type decides when one more may be
/// launched, and folds each outcome in. Launching is allowed only while
/// fewer than `IN_FLIGHT_LIMIT` requests are outstanding.
pub struct Resolver {
    total: usize,
    launched: usize,
    completed: usize,
    urls: Vec<AssetUrl>,
    errors: Vec<ResolveError>,
}

impl Resolver {
    /// How many pairs this round resolves.
    pub closed spec fn spec_total(&self) -> int {
        self.total as int
    }

    /// How many requests were launched.
    pub closed spec fn spec_launched(&self) -> int {
        self.launched as int
    }

    /// How many requests have terminated.
    pub closed spec fn spec_completed(&self) -> int {
        self.completed as int
    }

    /// The URLs resolved so far.
    pub closed spec fn spec_urls(&self) -> Seq<AssetUrl> {
        self.urls@
    }

    /// The failures recorded so far.
    pub closed spec fn spec_errors(&self) -> Seq<ResolveError> {
        self.errors@
    }

    /// How many requests are outstanding.
    pub open spec fn spec_in_flight(&self) -> int {
        self.spec_launched() - self.spec_completed()
    }

    /// Invariant: completions never outrun launches, launches never outrun
    /// the pair count, and the in-flight count stays within the limit.
    pub open spec fn wf(&self) -> bool {
        &&& 0 <= self.spec_completed() <= self.spec_launched() <= self.spec_total()
        &&& self.spec_in_flight() <= IN_FLIGHT_LIMIT as int
    }

    /// Whether one more request may be launched now.
    pub open spec fn spec_can_launch(&self) -> bool {
        self.spec_launched() < self.spec_total() && self.spec_in_flight() < IN_FLIGHT_LIMIT as int
    }

    /// Whether every request was launched and has terminated.
    pub open spec fn spec_finished(&self) -> bool {
        self.spec_launched() == self.spec_total() && self.spec_in_flight() == 0
    }

    /// A round over `total` pairs, with nothing launched yet.
    pub fn new(total: usize) -> (r: Resolver)
        ensures
            r.wf(),
            r.spec_total() == total,
            r.spec_launched() == 0,
            r.spec_completed() == 0,
            r.spec_urls() == Seq::<AssetUrl>::empty(),
            r.spec_errors() == Seq::<ResolveError>::empty(),
    {
        let r = Resolver { total, launched: 0, completed: 0, urls: Vec::new(), errors: Vec::new() };
        proof {
            assert(r.spec_urls() =~= Seq::<AssetUrl>::empty());
            assert(r.spec_errors() =~= Seq::<ResolveError>::empty());
        }
        r
    }

    /// Whether one more request may be launched now.
    pub fn can_launch(&self) -> (r: bool)
        requires
            self.wf(),
        ensures
            r == self.spec_can_launch(),
    {
        self.launched < self.total && self.launched - self.completed < IN_FLIGHT_LIMIT
    }

    /// Whether every request was launched and has terminated.
    pub fn finished(&self) -> (r: bool)
        ensures
            r == self.spec_finished(),
    {
        self.launched == self.total && self.launched == self.completed
    }

    /// How many requests are outstanding.
    pub fn in_flight(&self) -> (r: usize)
        requires
            self.wf(),
        ensures
            r == self.spec_in_flight(),
    {
        self.launched - self.completed
    }

    /// Accounts for launching the request of the next unlaunched pair and
    /// returns that pair's index.
    pub fn launch(&mut self) -> (idx: usize)
        requires
            old(self).wf(),
            old(self).spec_can_launch(),
        ensures
            final(self).wf(),
            idx == old(self).spec_launched(),
            final(self).spec_launched() == old(self).spec_launched() + 1,
            final(self).spec_total() == old(self).spec_total(),
            final(self).spec_completed() == old(self).spec_completed(),
            final(self).spec_urls() == old(self).spec_urls(),
            final(self).spec_errors() == old(self).spec_errors(),
            final(self).spec_in_flight() <= IN_FLIGHT_LIMIT as int,
    {
        let idx = self.launched;
        self.launched = self.launched + 1;
        idx
    }

    /// Folds in what one outstanding request came back with: a scanned URL
    /// that validates is collected; a response without the marker changes
    /// nothing; a transport failure, a non-UTF-8 URL or a rejected URL is
    /// recorded against the pair, never dropped.
    pub fn complete(&mut self, pair_index: usize, outcome: &PairOutcome)
        requires
            old(self).wf(),
            old(self).spec_in_flight() > 0,
        ensures
            final(self).wf(),
            final(self).spec_total() == old(self).spec_total(),
            final(self).spec_launched() == old(self).spec_launched(),
            final(self).spec_completed() == old(self).spec_completed() + 1,
            match outcome {
                PairOutcome::Failed => {
                    &&& final(self).spec_urls() == old(self).spec_urls()
                    &&& final(self).spec_errors() == old(self).spec_errors().push(
                        (ResolveError { pair_index, kind: ResolveErrorKind::Transport }),
                    )
                },
                PairOutcome::Response(body) => match pdf_url_spec(body@) {
                    None => final(self).spec_urls() == old(self).spec_urls() && final(self).spec_errors()
                        == old(self).spec_errors(),
                    Some(u) => if !valid_utf8(u) {
                        &&& final(self).spec_urls() == old(self).spec_urls()
                        &&& final(self).spec_errors() == old(self).spec_errors().push(
                            (ResolveError { pair_index, kind: ResolveErrorKind::UrlNotUtf8 }),
                        )
                    } else if !url_accepts(decode_utf8(u)) {
                        &&& final(self).spec_urls() == old(self).spec_urls()
                        &&& final(self).spec_errors() == old(self).spec_errors().push(
                            (ResolveError { pair_index, kind: ResolveErrorKind::UrlRejected }),
                        )
                    } else {
                        &&& final(self).spec_errors() == old(self).spec_errors()
                        &&& final(self).spec_urls().len() == old(self).spec_urls().len() + 1
                        &&& final(self).spec_urls().drop_last() == old(self).spec_urls()
                        &&& final(self).spec_urls().last()@ == decode_utf8(u)
                    },
                },
            },
    {
        self.completed = self.completed + 1;
        match outcome {
            PairOutcome::Failed => {
                self.errors.push(ResolveError { pair_index, kind: ResolveErrorKind::Transport });
            },
            PairOutcome::Response(body) => {
                match find_pdf_url(body.as_slice()) {
                    None => {},
                    Some(u) => {
                        match string_from_utf8(u) {
                            Err(_) => {
                                self.errors.push(
                                    ResolveError { pair_index, kind: ResolveErrorKind::UrlNotUtf8 },
                                );
                            },
                            Ok(text) => {
                                match AssetUrl::from_text(text) {
                                    None => {
                                        self.errors.push(
                                            ResolveError {
                                                pair_index,
                                                kind: ResolveErrorKind::UrlRejected,
                                            },
                                        );
                                    },
                                    Some(asset) => {
                                        let ghost prior = self.urls@;
                                        self.urls.push(asset);
                                        proof {
                                            assert(self.urls@.drop_last() =~= prior);
                                        }
                                    },
                                }
                            },
                        }
                    },
                }
            },
        }
    }

    /// Hands out what the round produced: the resolved URLs and every
    /// recorded failure.
    pub fn into_results(self) -> (r: (Vec<AssetUrl>, Vec<ResolveError>))
        ensures
            r.0@ == self.spec_urls(),
            r.1@ == self.spec_errors(),
    {
        (self.urls, self.errors)
    }
}

/// Whether one outcome yields a collected URL.
pub open spec fn outcome_is_url(o: PairOutcome) -> bool {
    &&& o matches PairOutcome::Response(b)
    &&& pdf_url_spec(b@) matches Some(u)
    &&& valid_utf8(u)
    &&& url_accepts(decode_utf8(u))
}

/// The URL text an outcome yields, when it yields one.
pub open spec fn outcome_url(o: PairOutcome) -> Seq<char> {
    decode_utf8(pdf_url_spec(o->Response_0@)->Some_0)
}

/// The failure an outcome records, if any. A response without the marker
/// records nothing: absence is a valid empty result.
pub open spec fn outcome_failure(o: PairOutcome) -> Option<ResolveErrorKind> {
    match o {
        PairOutcome::Failed => Some(ResolveErrorKind::Transport),
        PairOutcome::Response(b) => match pdf_url_spec(b@) {
            None => None,
            Some(u) => if !valid_utf8(u) {
                Some(ResolveErrorKind::UrlNotUtf8)
            } else if !url_accepts(decode_utf8(u)) {
                Some(ResolveErrorKind::UrlRejected)
            } else {
                None
            },
        },
    }
}

/// The URL texts a sequence of outcomes yields, in outcome order.
pub open spec fn resolved_urls(os: Seq<PairOutcome>) -> Seq<Seq<char>>
    decreases os.len(),
{
    if os.len() == 0 {
        Seq::empty()
    } else {
        let prev = resolved_urls(os.drop_last());
        if outcome_is_url(os.last()) {
            prev.push(outcome_url(os.last()))
        } else {
            prev
        }
    }
}

/// The failures a sequence of outcomes records: pair index and kind, in
/// outcome order.
pub open spec fn resolve_failures(os: Seq<PairOutcome>) -> Seq<(int, ResolveErrorKind)>
    decreases os.len(),
{
    if os.len() == 0 {
        Seq::empty()
    } else {
        let prev = resolve_failures(os.drop_last());
        match outcome_failure(os.last()) {
            Some(k) => prev.push((os.len() - 1, k)),
            None => prev,
        }
    }
}

/// Resolves a whole round from the outcome of each pair's request: every
/// outcome is folded in before the round is reported, so the round always
/// completes, the URLs of successfully resolved pairs are all returned, and
/// every failure is recorded beside them — never masked by another pair's
/// result.
pub fn resolve_responses(outcomes: &Vec<PairOutcome>) -> (r: (Vec<AssetUrl>, Vec<ResolveError>))
    ensures
        r.0@.map_values(|u: AssetUrl| u@) == resolved_urls(outcomes@),
        r.1@.map_values(|e: ResolveError| (e.pair_index as int, e.kind)) == resolve_failures(
            outcomes@,
        ),
{
    let total = outcomes.len();
    let mut m = Resolver::new(total);
    let mut i: usize = 0;
    assert(outcomes@.take(0) =~= Seq::empty());
    assert(m.spec_urls().map_values(|u: AssetUrl| u@) =~= resolved_urls(outcomes@.take(0)));
    assert(m.spec_errors().map_values(|e: ResolveError| (e.pair_index as int, e.kind))
        =~= resolve_failures(outcomes@.take(0)));
    while i < total
        invariant
            i <= total,
            total == outcomes@.len(),
            m.wf(),
            m.spec_total() == total,
            m.spec_launched() == i,
            m.spec_completed() == i,
            m.spec_urls().map_values(|u: AssetUrl| u@) == resolved_urls(outcomes@.take(i as int)),
            m.spec_errors().map_values(|e: ResolveError| (e.pair_index as int, e.kind))
                == resolve_failures(outcomes@.take(i as int)),
        decreases total - i,
    {
        let idx = m.launch();
        let ghost pre_urls = m.spec_urls();
        let ghost pre_errors = m.spec_errors();
        m.complete(idx, &outcomes[i]);
        i = i + 1;
        proof {
            let done = outcomes@.take(i as int);
            assert(done.drop_last() =~= outcomes@.take(i as int - 1));
            assert(done.last() == outcomes@[i as int - 1]);
            let uf = |u: AssetUrl| u@;
            let ef = |e: ResolveError| (e.pair_index as int, e.kind);
            if outcome_is_url(done.last()) {
                assert(m.spec_urls() =~= pre_urls.push(m.spec_urls().last()));
                assert(m.spec_urls().map_values(uf) =~= pre_urls.map_values(uf).push(
                    m.spec_urls().last()@,
                ));
            } else {
                assert(m.spec_urls().map_values(uf) == pre_urls.map_values(uf));
            }
            match outcome_failure(done.last()) {
                Some(k) => {
                    assert(m.spec_errors().map_values(ef) =~= pre_errors.map_values(ef).push(
                        (i as int - 1, k),
                    ));
                },
                None => {
                    assert(m.spec_errors().map_values(ef) == pre_errors.map_values(ef));
                },
            }
        }
    }
    assert(outcomes@.take(total as int) =~= outcomes@);
    m.into_results()
}

/// Law: a well-formed resolver never has more requests outstanding than the
/// in-flight limit, whatever interleaving of launches and completions
/// produced it — `new`, `launch` and `complete` each yield a well-formed
/// resolver again.
pub proof fn lemma_in_flight_bounded(r: &Resolver)
    requires
        r.wf(),
    ensures
        r.spec_in_flight() <= IN_FLIGHT_LIMIT as int,
{
}

} // verus!
