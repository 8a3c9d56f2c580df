//! Download planning and per-task accounting.
//!
//! Every asset URL names its output file in a `download` query parameter,
//! percent/plus-encoded. Planning derives one file name per URL and fails a
//! single task — never the whole batch — when the parameter is absent, does
//! not decode, decodes to nothing, or collides with an earlier task's name.
//! `DownloadProgress` accounts for one running task; `PipelineOutcome`
//! collects every failure of a run so that none is silently dropped.

use vstd::prelude::*;
use vstd::string::StringSliceAdditionalSpecFns;
use vstd::utf8::{decode_utf8, encode_utf8, valid_utf8};

use crate::query_string::{plus_to_space, string_from_utf8, unquote_bytes, unquote_seq};
use crate::resolve::{AssetUrl, ResolveError};
use crate::scan::{find_byte, find_byte_from, lemma_find_byte_from_bounds, match_at, match_at_exec, subrange_vec};

verus! {

/// The raw query portion of a URL's text: what stands between the first `?`
/// and the fragment, when the `?` comes before any `#`.
pub open spec fn query_of(u: Seq<u8>) -> Option<Seq<u8>> {
    let fh = find_byte_from(u, 35, 0);  // '#'
    let qs = find_byte_from(u, 63, 0);  // '?'
    if qs < fh {
        Some(u.subrange(qs + 1, fh))
    } else {
        None
    }
}

/// The query key `download` that names the output file.
pub open spec fn download_key() -> Seq<u8> {
    seq![100u8, 111, 119, 110, 108, 111, 97, 100]
}

/// The query key `download` as a byte vector.
fn download_key_exec() -> (v: Vec<u8>)
    ensures
        v@ == download_key(),
{
    let mut v: Vec<u8> = Vec::new();
    v.push(100);
    v.push(111);
    v.push(119);
    v.push(110);
    v.push(108);
    v.push(111);
    v.push(97);
    v.push(100);
    assert(v@ =~= download_key());
    v
}

/// The raw value of the first `download` parameter among the `&`-separated
/// pairs of the query starting at `i`; a pair without `=` has an empty value.
pub open spec fn download_param_from(q: Seq<u8>, i: int) -> Option<Seq<u8>>
    decreases q.len() - i + 1,
    via download_param_from_decreases
{
    if i < 0 || i >= q.len() {
        None
    } else {
        let e = find_byte_from(q, 38, i);  // '&'
        let eq = find_byte_from(q, 61, i);  // '='
        let key_end = if eq < e {
            eq
        } else {
            e
        };
        if q.subrange(i, key_end) == download_key() {
            if eq < e {
                Some(q.subrange(eq + 1, e))
            } else {
                Some(Seq::empty())
            }
        } else {
            download_param_from(q, e + 1)
        }
    }
}

#[via_fn]
proof fn download_param_from_decreases(q: Seq<u8>, i: int) {
    if 0 <= i < q.len() {
        lemma_find_byte_from_bounds(q, 38, i);
    }
}

/// The raw `download` parameter value of a URL's text, if the URL has one.
pub open spec fn download_param(u: Seq<u8>) -> Option<Seq<u8>> {
    match query_of(u) {
        Some(q) => download_param_from(q, 0),
        None => None,
    }
}

/// Why one download task fails before or while running. A single failing
/// task never aborts its siblings.
#[derive(Debug, Clone, Copy, PartialEq, Eq, Structural)]
pub enum DownloadPlanError {
    /// The URL carries no `download` query parameter.
    NoDownloadParam,
    /// The decoded file name is empty.
    EmptyName,
    /// The decoded file-name bytes are not UTF-8 text.
    NameNotUtf8,
    /// An earlier URL of the same batch already uses this file name.
    DuplicateName,
}

/// The file name a URL's text yields: the percent/plus-decoded value of its
/// `download` query parameter, which must be non-empty UTF-8 text.
pub open spec fn file_name_spec(u: Seq<u8>) -> Result<Seq<char>, DownloadPlanError> {
    match download_param(u) {
        None => Err(DownloadPlanError::NoDownloadParam),
        Some(v) => {
            let d = unquote_seq(plus_to_space(v));
            if d.len() == 0 {
                Err(DownloadPlanError::EmptyName)
            } else if !valid_utf8(d) {
                Err(DownloadPlanError::NameNotUtf8)
            } else {
                Ok(decode_utf8(d))
            }
        },
    }
}

/// Derives the output file name from a URL's `download` query parameter by
/// percent/plus decoding; says exactly why no name can be derived.
pub fn file_name_for_url(u: &str) -> (r: Result<String, DownloadPlanError>)
    ensures
        match r {
            Ok(t) => file_name_spec(u.spec_bytes()) == Ok::<Seq<char>, DownloadPlanError>(t@),
            Err(e) => file_name_spec(u.spec_bytes()) == Err::<Seq<char>, DownloadPlanError>(e),
        },
{
    let s = u.as_bytes();
    let fh = find_byte(s, 35, 0);
    let qs = find_byte(s, 63, 0);
    if qs >= fh {
        return Err(DownloadPlanError::NoDownloadParam);
    }
    let q = subrange_vec(s, qs + 1, fh);
    let key = download_key_exec();
    let mut i: usize = 0;
    let mut param: Option<Vec<u8>> = None;
    loop
        invariant_except_break
            param is None,
        invariant
            i <= q.len(),
            key@ == download_key(),
            q@ == query_of(u.spec_bytes())->Some_0,
            query_of(u.spec_bytes()) is Some,
            download_param_from(q@, 0) == download_param_from(q@, i as int),
        ensures
            match param {
                Some(v) => download_param(u.spec_bytes()) == Some(v@),
                None => download_param(u.spec_bytes()) is None,
            },
        decreases q.len() - i,
    {
        if i >= q.len() {
            break;
        }
        let e = find_byte(q.as_slice(), 38, i);
        let eq = find_byte(q.as_slice(), 61, i);
        let key_end = if eq < e {
            eq
        } else {
            e
        };
        if key_end - i == 8 && match_at_exec(q.as_slice(), key.as_slice(), i) {
            assert(q@.subrange(i as int, key_end as int) == download_key());
            if eq < e {
                param = Some(subrange_vec(q.as_slice(), eq + 1, e));
                assert(download_param_from(q@, i as int) == Some(q@.subrange(eq + 1, e as int)));
            } else {
                let empty: Vec<u8> = Vec::new();
                assert(empty@ =~= Seq::<u8>::empty());
                param = Some(empty);
                assert(download_param_from(q@, i as int) == Some(Seq::<u8>::empty()));
            }
            break;
        }
        assert(q@.subrange(i as int, key_end as int) != download_key()) by {
            if q@.subrange(i as int, key_end as int) == download_key() {
                assert(q@.subrange(i as int, key_end as int).len() == 8);
                assert(match_at(q@, download_key(), i as int));
            }
        }
        if e >= q.len() {
            assert(download_param_from(q@, e as int + 1) is None);
            assert(download_param_from(q@, i as int) is None);
            break;
        }
        i = e + 1;
    }
    match param {
        None => Err(DownloadPlanError::NoDownloadParam),
        Some(v) => {
            let replaced = crate::query_string::replace_plus(v.as_slice());
            let decoded = unquote_bytes(replaced.as_slice());
            if decoded.len() == 0 {
                Err(DownloadPlanError::EmptyName)
            } else {
                match string_from_utf8(decoded) {
                    Err(_) => Err(DownloadPlanError::NameNotUtf8),
                    Ok(t) => Ok(t),
                }
            }
        },
    }
}

/// The bytes of an asset URL's text.
pub open spec fn url_bytes(u: AssetUrl) -> Seq<u8> {
    encode_utf8(u@)
}

/// The planned outcome for each URL of a batch, by index: the derived file
/// name, or why that task fails. A name already taken by an earlier task of
/// the batch fails the later task, rather than silently overwriting the
/// earlier task's file.
pub open spec fn plan_spec(us: Seq<Seq<u8>>) -> Seq<Result<Seq<char>, DownloadPlanError>>
    decreases us.len(),
{
    if us.len() == 0 {
        Seq::empty()
    } else {
        let prev = plan_spec(us.drop_last());
        let entry = match file_name_spec(us.last()) {
            Err(k) => Err(k),
            Ok(n) => if exists|j: int|
                0 <= j < prev.len() && prev[j] == Ok::<Seq<char>, DownloadPlanError>(n) {
                Err(DownloadPlanError::DuplicateName)
            } else {
                Ok::<Seq<char>, DownloadPlanError>(n)
            },
        };
        prev.push(entry)
    }
}

/// View of one planned entry.
pub open spec fn entry_view(x: Result<String, DownloadPlanError>) -> Result<
    Seq<char>,
    DownloadPlanError,
> {
    match x {
        Ok(t) => Ok(t@),
        Err(e) => Err(e),
    }
}

/// Whether an earlier planned task already produced this file name.
fn name_taken(out: &Vec<Result<String, DownloadPlanError>>, n: &String) -> (r: bool)
    ensures
        r == exists|k: int|
            0 <= k < entry_views(out@).len() && entry_views(out@)[k] == Ok::<
                Seq<char>,
                DownloadPlanError,
            >(n@),
{
    let mut found = false;
    let mut j: usize = 0;
    while j < out.len()
        invariant
            j <= out@.len(),
            found == exists|k: int|
                0 <= k < j && entry_views(out@)[k] == Ok::<Seq<char>, DownloadPlanError>(n@),
        decreases out@.len() - j,
    {
        proof {
            assert(entry_views(out@)[j as int] == entry_view(out@[j as int]));
        }
        match &out[j] {
            Ok(t) => {
                if t.eq(n) {
                    assert(entry_views(out@)[j as int] == Ok::<Seq<char>, DownloadPlanError>(n@));
                    found = true;
                } else {
                    assert(entry_views(out@)[j as int] != Ok::<Seq<char>, DownloadPlanError>(n@));
                }
            },
            Err(_) => {
                assert(entry_views(out@)[j as int] is Err);
            },
        }
        j = j + 1;
    }
    found
}

/// Views of a sequence of planned entries.
pub open spec fn entry_views(es: Seq<Result<String, DownloadPlanError>>) -> Seq<
    Result<Seq<char>, DownloadPlanError>,
> {
    es.map_values(|x: Result<String, DownloadPlanError>| entry_view(x))
}

/// Byte views of a sequence of asset URLs.
pub open spec fn url_bytes_seq(us: Seq<AssetUrl>) -> Seq<Seq<u8>> {
    us.map_values(|u: AssetUrl| url_bytes(u))
}

/// Plans one download task per URL: derives each output file name, failing
/// exactly the tasks whose URL yields no usable name or whose name an
/// earlier task already took. The batch itself never fails.
pub fn plan_downloads(urls: &Vec<AssetUrl>) -> (r: Vec<Result<String, DownloadPlanError>>)
    ensures
        entry_views(r@) == plan_spec(url_bytes_seq(urls@)),
{
    let mut out: Vec<Result<String, DownloadPlanError>> = Vec::new();
    let mut i: usize = 0;
    assert(url_bytes_seq(urls@.take(0)) =~= Seq::<Seq<u8>>::empty());
    assert(entry_views(out@) =~= plan_spec(url_bytes_seq(urls@.take(0))));
    while i < urls.len()
        invariant
            i <= urls@.len(),
            out@.len() == i,
            entry_views(out@) == plan_spec(url_bytes_seq(urls@.take(i as int))),
        decreases urls@.len() - i,
    {
        let name_r = file_name_for_url(urls[i].as_str());
        let entry: Result<String, DownloadPlanError> = match name_r {
            Err(k) => Err(k),
            Ok(n) => {
                if name_taken(&out, &n) {
                    Err(DownloadPlanError::DuplicateName)
                } else {
                    Ok(n)
                }
            },
        };
        let ghost prior = out@;
        out.push(entry);
        i = i + 1;
        proof {
            let done = url_bytes_seq(urls@.take(i as int));
            assert(done.drop_last() =~= url_bytes_seq(urls@.take(i as int - 1)));
            assert(done.last() == url_bytes(urls@[i as int - 1]));
            assert(out@.drop_last() =~= prior);
            let prev = plan_spec(done.drop_last());
            assert(prev == entry_views(prior));
            assert(forall|k: int| 0 <= k < prior.len() ==> prev[k] == entry_view(prior[k]));
            let sentry = match file_name_spec(done.last()) {
                Err(k) => Err::<Seq<char>, DownloadPlanError>(k),
                Ok(n) => if exists|j: int|
                    0 <= j < prev.len() && prev[j] == Ok::<Seq<char>, DownloadPlanError>(n) {
                    Err(DownloadPlanError::DuplicateName)
                } else {
                    Ok(n)
                },
            };
            assert(plan_spec(done) == prev.push(sentry));
            assert(entry_view(out@.last()) == sentry);
            assert(entry_views(out@) =~= entry_views(prior).push(entry_view(out@.last())));
        }
    }
    assert(urls@.take(urls@.len() as int) =~= urls@);
    out
}

/// Progress accounting of one download task: the declared total when the
/// response carried one, how many bytes have arrived, and whether the file
/// was completed. Chunks are accounted in receipt order; a file is never
/// flagged complete unless every declared byte arrived, so a file truncated
/// by termination stays observably incomplete.
pub struct DownloadProgress {
    total: Option<u64>,
    received: u64,
    complete: bool,
}

impl DownloadProgress {
    #[verifier::type_invariant]
    spec fn inv(&self) -> bool {
        self.complete ==> match self.total {
            Some(t) => self.received == t,
            None => true,
        }
    }

    /// The declared length, when the response carried one.
    pub closed spec fn spec_total(&self) -> Option<u64> {
        self.total
    }

    /// How many bytes have arrived.
    pub closed spec fn spec_received(&self) -> u64 {
        self.received
    }

    /// Whether the task's file was completed.
    pub closed spec fn spec_complete(&self) -> bool {
        self.complete
    }

    /// A fresh task: nothing received, not complete.
    pub fn new(total: Option<u64>) -> (r: DownloadProgress)
        ensures
            r.spec_total() == total,
            r.spec_received() == 0,
            !r.spec_complete(),
    {
        DownloadProgress { total, received: 0, complete: false }
    }

    /// Accounts for one received chunk, written behind its predecessors.
    pub fn record_chunk(&mut self, len: u64)
        requires
            !old(self).spec_complete(),
            old(self).spec_received() + len <= u64::MAX,
        ensures
            final(self).spec_total() == old(self).spec_total(),
            final(self).spec_received() == old(self).spec_received() + len,
            !final(self).spec_complete(),
    {
        proof {
            use_type_invariant(&*self);
        }
        self.received = self.received + len;
    }

    /// Flags the file complete; allowed only once every declared byte
    /// arrived.
    pub fn mark_complete(&mut self)
        requires
            match old(self).spec_total() {
                Some(t) => old(self).spec_received() == t,
                None => true,
            },
        ensures
            final(self).spec_total() == old(self).spec_total(),
            final(self).spec_received() == old(self).spec_received(),
            final(self).spec_complete(),
    {
        proof {
            use_type_invariant(&*self);
        }
        self.complete = true;
    }

    /// Whether the file was completed; a completed file received exactly its
    /// declared total.
    pub fn is_complete(&self) -> (r: bool)
        ensures
            r == self.spec_complete(),
            r ==> match self.spec_total() {
                Some(t) => self.spec_received() == t,
                None => true,
            },
    {
        proof {
            use_type_invariant(self);
        }
        self.complete
    }

    /// How many bytes have arrived.
    pub fn received(&self) -> (r: u64)
        ensures
            r == self.spec_received(),
    {
        self.received
    }
}

/// One download task's recorded failure.
#[derive(Debug, Clone, Copy, PartialEq, Eq, Structural)]
pub enum DownloadFailureKind {
    /// No usable file name could be planned for the task's URL.
    Plan(DownloadPlanError),
    /// The request failed in transport or returned a non-success status.
    Transport,
    /// Writing the file failed.
    Write,
}

/// One download task's failure: the task's index in the planned batch and
/// what failed.
#[derive(Debug, Clone, Copy, PartialEq, Eq, Structural)]
pub struct DownloadFailure {
    pub task_index: usize,
    pub kind: DownloadFailureKind,
}

/// Aggregate outcome of a pipeline run: every per-pair resolution failure
/// and every per-download failure, collected. A non-empty collection signals
/// overall failure to the caller while the work that could succeed stands.
pub struct PipelineOutcome {
    resolve_failures: Vec<ResolveError>,
    download_failures: Vec<DownloadFailure>,
}

impl PipelineOutcome {
    /// The recorded per-pair resolution failures.
    pub closed spec fn spec_resolve_failures(&self) -> Seq<ResolveError> {
        self.resolve_failures@
    }

    /// The recorded per-download failures.
    pub closed spec fn spec_download_failures(&self) -> Seq<DownloadFailure> {
        self.download_failures@
    }

    /// An outcome with nothing recorded.
    pub fn new() -> (r: PipelineOutcome)
        ensures
            r.spec_resolve_failures() == Seq::<ResolveError>::empty(),
            r.spec_download_failures() == Seq::<DownloadFailure>::empty(),
    {
        let r = PipelineOutcome { resolve_failures: Vec::new(), download_failures: Vec::new() };
        proof {
            assert(r.spec_resolve_failures() =~= Seq::<ResolveError>::empty());
            assert(r.spec_download_failures() =~= Seq::<DownloadFailure>::empty());
        }
        r
    }

    /// Records every failure of the resolution round; none is dropped.
    pub fn record_resolve_failures(&mut self, failures: Vec<ResolveError>)
        ensures
            final(self).spec_resolve_failures() == old(self).spec_resolve_failures() + failures@,
            final(self).spec_download_failures() == old(self).spec_download_failures(),
    {
        let mut i: usize = 0;
        let ghost all = failures@;
        assert(self.resolve_failures@ =~= old(self).resolve_failures@ + all.take(0));
        while i < failures.len()
            invariant
                i <= all.len(),
                failures@ == all,
                self.download_failures@ == old(self).download_failures@,
                self.resolve_failures@ == old(self).resolve_failures@ + all.take(i as int),
            decreases all.len() - i,
        {
            self.resolve_failures.push(failures[i]);
            i = i + 1;
            proof {
                assert(old(self).resolve_failures@ + all.take(i as int) =~= (
                old(self).resolve_failures@ + all.take(i as int - 1)).push(all[i as int - 1]));
            }
        }
        assert(all.take(all.len() as int) =~= all);
    }

    /// Records one download task's failure; never dropped.
    pub fn record_download_failure(&mut self, failure: DownloadFailure)
        ensures
            final(self).spec_download_failures() == old(self).spec_download_failures().push(
                failure,
            ),
            final(self).spec_resolve_failures() == old(self).spec_resolve_failures(),
    {
        self.download_failures.push(failure);
    }

    /// Whether the run failed overall: exactly when at least one failure was
    /// recorded.
    pub fn is_failure(&self) -> (r: bool)
        ensures
            r == (self.spec_resolve_failures().len() + self.spec_download_failures().len() > 0),
    {
        self.resolve_failures.len() > 0 || self.download_failures.len() > 0
    }

    /// The recorded failures, for reporting.
    pub fn into_failures(self) -> (r: (Vec<ResolveError>, Vec<DownloadFailure>))
        ensures
            r.0@ == self.spec_resolve_failures(),
            r.1@ == self.spec_download_failures(),
    {
        (self.resolve_failures, self.download_failures)
    }
}

} // verus!
