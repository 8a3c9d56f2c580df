//! Identifier extraction from the raw course-metadata buffer.
//!
//! The buffer carries, per section, a content marker `s<N>.contentId=<C>;`
//! and, somewhere else in the same buffer, a companion marker `s<N>.id=<S>;`.
//! `extract` walks the buffer once, and for every content marker reads the
//! section identifier behind the first occurrence of its companion marker.
//! Matching is byte-exact: the format is a positional, textual convention of
//! the upstream service, not a grammar with any tolerance.

use vstd::prelude::*;

use crate::scan::{
    digit_run_end, digit_run_end_exec, find_byte, find_byte_from, find_first, find_from, match_at,
    match_at_exec, subrange_vec,
};

verus! {

/// The literal `.contentId=` that separates a section index from its content
/// identifier.
pub open spec fn content_lit() -> Seq<u8> {
    seq![46u8, 99, 111, 110, 116, 101, 110, 116, 73, 100, 61]
}

/// The literal `.contentId=` as a byte vector.
fn content_lit_exec() -> (v: Vec<u8>)
    ensures
        v@ == content_lit(),
{
    let mut v: Vec<u8> = Vec::new();
    v.push(46);
    v.push(99);
    v.push(111);
    v.push(110);
    v.push(116);
    v.push(101);
    v.push(110);
    v.push(116);
    v.push(73);
    v.push(100);
    v.push(61);
    assert(v@ =~= content_lit());
    v
}

/// End of the section-index digit run of a content marker starting at `i`.
pub open spec fn ident_end(s: Seq<u8>, i: int) -> int {
    digit_run_end(s, i + 1)
}

/// Start of the content-identifier digit run of a content marker at `i`.
pub open spec fn content_start(s: Seq<u8>, i: int) -> int {
    ident_end(s, i) + content_lit().len()
}

/// End of the content-identifier digit run of a content marker at `i`.
pub open spec fn content_end(s: Seq<u8>, i: int) -> int {
    digit_run_end(s, content_start(s, i))
}

/// Whether a content marker `s<digits>.contentId=<digits>;` starts at `i`.
pub open spec fn marker_at(s: Seq<u8>, i: int) -> bool {
    &&& 0 <= i < s.len()
    &&& s[i] == 115  // 's'
    &&& ident_end(s, i) > i + 1
    &&& match_at(s, content_lit(), ident_end(s, i))
    &&& content_end(s, i) > content_start(s, i)
    &&& content_end(s, i) < s.len()
    &&& s[content_end(s, i)] == 59  // ';'
}

/// Section-index digits of the content marker at `i`.
pub open spec fn marker_ident(s: Seq<u8>, i: int) -> Seq<u8> {
    s.subrange(i + 1, ident_end(s, i))
}

/// Content-identifier digits of the content marker at `i`.
pub open spec fn marker_content(s: Seq<u8>, i: int) -> Seq<u8> {
    s.subrange(content_start(s, i), content_end(s, i))
}

/// The companion marker `s<ident>.id=` for a section index.
pub open spec fn companion_pat(ident: Seq<u8>) -> Seq<u8> {
    seq![115u8] + ident + seq![46u8, 105, 100, 61]
}

/// Section identifier for a section index: the bytes between the first
/// occurrence of the companion marker and the next `;` (or the buffer's end),
/// or `None` when the companion marker is absent.
pub open spec fn companion_value(s: Seq<u8>, ident: Seq<u8>) -> Option<Seq<u8>> {
    match find_from(s, companion_pat(ident), 0) {
        Some(j) => {
            let p = j + companion_pat(ident).len();
            Some(s.subrange(p, find_byte_from(s, 59, p)))
        },
        None => None,
    }
}

/// The pairs extracted from position `i` onward, in buffer-scan order, or the
/// section index of the first content marker whose companion is missing.
pub open spec fn pairs_from(s: Seq<u8>, i: int) -> Result<Seq<(Seq<u8>, Seq<u8>)>, Seq<u8>>
    decreases s.len() - i,
{
    if i < 0 || i >= s.len() {
        Ok(Seq::empty())
    } else if marker_at(s, i) {
        match companion_value(s, marker_ident(s, i)) {
            Some(sec) => match pairs_from(s, i + 1) {
                Ok(rest) => Ok(seq![(marker_content(s, i), sec)] + rest),
                Err(e) => Err(e),
            },
            None => Err(marker_ident(s, i)),
        }
    } else {
        pairs_from(s, i + 1)
    }
}

/// What `extract` returns on a whole buffer.
pub open spec fn extract_spec(s: Seq<u8>) -> Result<Seq<(Seq<u8>, Seq<u8>)>, Seq<u8>> {
    pairs_from(s, 0)
}

/// One content/section identifier pair, in buffer-scan order. Both fields are
/// the raw token bytes from the buffer (digit bytes in well-formed buffers).
/// Duplicates are legal; each pair is processed independently.
#[derive(Debug, Clone, PartialEq, Eq)]
pub struct IdentifierPair {
    pub content_id: Vec<u8>,
    pub section_id: Vec<u8>,
}

impl View for IdentifierPair {
    type V = (Seq<u8>, Seq<u8>);

    open spec fn view(&self) -> (Seq<u8>, Seq<u8>) {
        (self.content_id@, self.section_id@)
    }
}

/// The views of a sequence of pairs.
pub open spec fn pair_views(v: Seq<IdentifierPair>) -> Seq<(Seq<u8>, Seq<u8>)> {
    v.map_values(|p: IdentifierPair| p@)
}

/// Extraction failure: a content marker was found whose companion
/// `s<N>.id=` marker is absent. This signals an unexpected upstream response
/// shape and is meant to abort the pipeline.
#[derive(Debug, Clone, PartialEq, Eq)]
pub struct ExtractError {
    /// The section index whose companion marker was not found.
    pub section_ident: Vec<u8>,
}

/// Invariant of the extraction loop: what was accumulated so far, joined with
/// what the rest of the buffer yields, is what the whole buffer yields.
spec fn scan_state(s: Seq<u8>, i: int, acc: Seq<(Seq<u8>, Seq<u8>)>) -> bool {
    pairs_from(s, 0) == match pairs_from(s, i) {
        Ok(rest) => Ok::<Seq<(Seq<u8>, Seq<u8>)>, Seq<u8>>(acc + rest),
        Err(e) => Err(e),
    }
}

/// Whether the content marker pattern stands at position `i`.
fn check_marker(s: &[u8], i: usize) -> (r: bool)
    requires
        i < s.len(),
    ensures
        r == marker_at(s@, i as int),
{
    if s[i] != 115 {
        return false;
    }
    let d1 = digit_run_end_exec(s, i + 1);
    if d1 == i + 1 {
        return false;
    }
    let lit = content_lit_exec();
    if !match_at_exec(s, lit.as_slice(), d1) {
        return false;
    }
    let cs = d1 + 11;
    let d2 = digit_run_end_exec(s, cs);
    if d2 == cs {
        return false;
    }
    d2 < s.len() && s[d2] == 59
}

/// The companion marker `s<ident>.id=` as a byte vector.
fn companion_pat_exec(ident: &Vec<u8>) -> (v: Vec<u8>)
    ensures
        v@ == companion_pat(ident@),
{
    let mut v: Vec<u8> = Vec::new();
    v.push(115);
    let mut j: usize = 0;
    while j < ident.len()
        invariant
            j <= ident.len(),
            v@.len() == j + 1,
            v@[0] == 115u8,
            forall|k: int| 0 <= k < j ==> v@[k + 1] == ident@[k],
        decreases ident.len() - j,
    {
        v.push(ident[j]);
        j = j + 1;
    }
    v.push(46);
    v.push(105);
    v.push(100);
    v.push(61);
    assert(v@ =~= companion_pat(ident@));
    v
}

/// Scans the buffer for content markers, in order, and pairs each content
/// identifier with the section identifier read behind the first occurrence of
/// its companion marker. Fails, with the offending section index, exactly
/// when some content marker's companion marker is absent.
pub fn extract(s: &[u8]) -> (r: Result<Vec<IdentifierPair>, ExtractError>)
    ensures
        match r {
            Ok(v) => extract_spec(s@) == Ok::<Seq<(Seq<u8>, Seq<u8>)>, Seq<u8>>(pair_views(v@)),
            Err(e) => extract_spec(s@) == Err::<Seq<(Seq<u8>, Seq<u8>)>, Seq<u8>>(
                e.section_ident@,
            ),
        },
{
    let mut out: Vec<IdentifierPair> = Vec::new();
    let mut i: usize = 0;
    assert(pair_views(out@) + Seq::<(Seq<u8>, Seq<u8>)>::empty() =~= pair_views(out@));
    while i < s.len()
        invariant
            i <= s.len(),
            scan_state(s@, i as int, pair_views(out@)),
        decreases s.len() - i,
    {
        if check_marker(s, i) {
            let d1 = digit_run_end_exec(s, i + 1);
            let ident = subrange_vec(s, i + 1, d1);
            assert(ident@ == marker_ident(s@, i as int));
            let pat = companion_pat_exec(&ident);
            match find_first(s, pat.as_slice()) {
                Some(j) => {
                    let p = j + pat.len();
                    let q = find_byte(s, 59, p);
                    let section_id = subrange_vec(s, p, q);
                    assert(companion_value(s@, ident@) == Some(section_id@));
                    let cs = d1 + 11;
                    let d2 = digit_run_end_exec(s, cs);
                    let content_id = subrange_vec(s, cs, d2);
                    assert(content_id@ == marker_content(s@, i as int));
                    let ghost old_acc = pair_views(out@);
                    out.push(IdentifierPair { content_id, section_id });
                    proof {
                        assert(pair_views(out@) =~= old_acc + seq![out@[out@.len() - 1]@]);
                        if pairs_from(s@, i + 1) is Ok {
                            let rest = pairs_from(s@, i + 1)->Ok_0;
                            assert(old_acc + (seq![out@[out@.len() - 1]@] + rest) =~= pair_views(
                                out@,
                            ) + rest);
                        }
                    }
                },
                None => {
                    assert(companion_value(s@, ident@) is None);
                    assert(pairs_from(s@, i as int) == Err::<Seq<(Seq<u8>, Seq<u8>)>, Seq<u8>>(
                        ident@,
                    ));
                    return Err(ExtractError { section_ident: ident });
                },
            }
        }
        i = i + 1;
    }
    assert(pairs_from(s@, i as int) == Ok::<Seq<(Seq<u8>, Seq<u8>)>, Seq<u8>>(Seq::empty()));
    assert(pair_views(out@) + Seq::<(Seq<u8>, Seq<u8>)>::empty() =~= pair_views(out@));
    Ok(out)
}

/// Start positions of all content markers at or after `i`, in buffer order.
pub open spec fn marker_positions_from(s: Seq<u8>, i: int) -> Seq<int>
    decreases s.len() - i,
{
    if i < 0 || i >= s.len() {
        Seq::empty()
    } else if marker_at(s, i) {
        seq![i] + marker_positions_from(s, i + 1)
    } else {
        marker_positions_from(s, i + 1)
    }
}

/// Start positions of all content markers in the buffer, in buffer order.
pub open spec fn marker_positions(s: Seq<u8>) -> Seq<int> {
    marker_positions_from(s, 0)
}

proof fn lemma_pairs_from_complete(s: Seq<u8>, i: int)
    requires
        forall|k: int| marker_at(s, k) ==> companion_value(s, marker_ident(s, k)) is Some,
    ensures
        pairs_from(s, i) is Ok,
        pairs_from(s, i)->Ok_0.len() == marker_positions_from(s, i).len(),
        forall|k: int|
            0 <= k < marker_positions_from(s, i).len() ==> pairs_from(s, i)->Ok_0[k] == (
            marker_content(s, marker_positions_from(s, i)[k]),
            companion_value(s, marker_ident(s, marker_positions_from(s, i)[k]))->Some_0,
            ),
    decreases s.len() - i,
{
    if i < 0 || i >= s.len() {
    } else {
        lemma_pairs_from_complete(s, i + 1);
    }
}

/// Law: when every content marker in the buffer has its companion marker,
/// extraction succeeds and yields exactly one pair per content marker, in
/// buffer-scan order: the k-th pair holds the k-th marker's content
/// identifier and the section identifier read behind its companion marker.
pub proof fn lemma_extract_complete(s: Seq<u8>)
    requires
        forall|k: int| marker_at(s, k) ==> companion_value(s, marker_ident(s, k)) is Some,
    ensures
        extract_spec(s) is Ok,
        extract_spec(s)->Ok_0.len() == marker_positions(s).len(),
        forall|k: int|
            0 <= k < marker_positions(s).len() ==> extract_spec(s)->Ok_0[k] == (
            marker_content(s, marker_positions(s)[k]),
            companion_value(s, marker_ident(s, marker_positions(s)[k]))->Some_0,
            ),
{
    lemma_pairs_from_complete(s, 0);
}

proof fn lemma_pairs_from_err(s: Seq<u8>, i: int, j: int)
    requires
        0 <= i <= j,
        marker_at(s, j),
        companion_value(s, marker_ident(s, j)) is None,
    ensures
        pairs_from(s, i) is Err,
    decreases j - i,
{
    if i < j {
        lemma_pairs_from_err(s, i + 1, j);
    }
}

/// Law: a buffer holding a content marker whose companion marker is absent
/// makes extraction fail; the pairs are never silently thinned.
pub proof fn lemma_extract_fails_without_companion(s: Seq<u8>)
    requires
        exists|i: int| marker_at(s, i) && companion_value(s, marker_ident(s, i)) is None,
    ensures
        extract_spec(s) is Err,
{
    let i = choose|i: int|
        marker_at(s, i) && companion_value(s, marker_ident(s, i)) is None;
    lemma_pairs_from_err(s, 0, i);
}

} // verus!
