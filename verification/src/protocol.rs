//! The fixed wire protocol of the metadata service: the ordered form fields
//! of the course-metadata call and of each per-pair resolution call.
//!
//! Field order is the order the upstream service is known to accept; values
//! are byte strings because the identifiers come as raw token bytes from the
//! metadata buffer. The caller supplies the opaque session token and the
//! batch timestamp; everything else is constant or derived here.

use vstd::prelude::*;
use vstd::string::{StrSliceExecFns, StringSliceAdditionalSpecFns};

verus! {

/// The decimal digit bytes of `n`, most significant first, without leading
/// zeroes (a single `0` for zero).
pub open spec fn decimal_spec(n: nat) -> Seq<u8>
    decreases n,
{
    if n < 10 {
        seq![(48 + n) as u8]
    } else {
        decimal_spec(n / 10).push((48 + n % 10) as u8)
    }
}

/// Formats `n` as decimal digit bytes.
pub fn decimal_digits(n: u64) -> (v: Vec<u8>)
    ensures
        v@ == decimal_spec(n as nat),
{
    let mut rev: Vec<u8> = Vec::new();
    let mut m: u64 = n;
    loop
        invariant_except_break
            rev@.len() == 0 ==> m == n,
            rev@.len() > 0 ==> m > 0 && decimal_spec(n as nat) == decimal_spec(m as nat)
                + rev@.reverse(),
        ensures
            decimal_spec(n as nat) == rev@.reverse(),
        decreases m,
    {
        let ghost prev = rev@;
        let ghost m0 = m;
        let d: u8 = (m % 10) as u8 + 48;
        rev.push(d);
        m = m / 10;
        proof {
            assert(rev@.reverse() =~= seq![d] + prev.reverse());
            if m == 0 {
                assert(m0 < 10);
                assert(decimal_spec(m0 as nat) == seq![d]);
            } else {
                assert(decimal_spec(m0 as nat) == decimal_spec(m as nat).push(d));
            }
            if prev.len() == 0 {
                assert(prev.reverse() =~= Seq::<u8>::empty());
                if m == 0 {
                    assert(decimal_spec(n as nat) =~= rev@.reverse());
                } else {
                    assert(decimal_spec(n as nat) =~= decimal_spec(m as nat) + rev@.reverse());
                }
            } else {
                assert(decimal_spec(n as nat) == decimal_spec(m0 as nat) + prev.reverse());
                if m == 0 {
                    assert(decimal_spec(m0 as nat) + prev.reverse() =~= rev@.reverse());
                } else {
                    assert(decimal_spec(m0 as nat) + prev.reverse() =~= decimal_spec(m as nat)
                        + rev@.reverse());
                }
            }
        }
        if m == 0 {
            break;
        }
    }
    let mut v: Vec<u8> = Vec::new();
    let mut j: usize = rev.len();
    while j > 0
        invariant
            j <= rev@.len(),
            v@.len() == rev@.len() - j,
            forall|k: int| 0 <= k < v@.len() ==> v@[k] == rev@[rev@.len() - 1 - k],
        decreases j,
    {
        j = j - 1;
        v.push(rev[j]);
    }
    assert(v@ =~= rev@.reverse());
    v
}

/// Views of a form's fields, in wire order.
pub open spec fn form_views(f: Seq<(Vec<u8>, Vec<u8>)>) -> Seq<(Seq<u8>, Seq<u8>)> {
    f.map_values(|p: (Vec<u8>, Vec<u8>)| (p.0@, p.1@))
}

/// A `number:<digits>` protocol value.
pub open spec fn number_value_spec(digits: Seq<u8>) -> Seq<u8> {
    ("number:").spec_bytes() + digits
}

/// Builds a `number:<digits>` protocol value.
fn number_value(digits: &[u8]) -> (v: Vec<u8>)
    ensures
        v@ == number_value_spec(digits@),
{
    let mut v = ("number:").as_bytes_vec();
    let mut i: usize = 0;
    while i < digits.len()
        invariant
            i <= digits@.len(),
            v@.len() == ("number:").spec_bytes().len() + i,
            v@ =~= ("number:").spec_bytes() + digits@.take(i as int),
        decreases digits@.len() - i,
    {
        v.push(digits[i]);
        i = i + 1;
        assert(v@ =~= ("number:").spec_bytes() + digits@.take(i as int));
    }
    assert(digits@.take(digits@.len() as int) =~= digits@);
    v
}

/// The form of the course-metadata call, in wire order: the fixed protocol
/// constants, the session token, the course identifier and the batch
/// timestamp.
pub open spec fn course_info_form_spec(session: Seq<u8>, tid: Seq<u8>, batch: Seq<u8>) -> Seq<
    (Seq<u8>, Seq<u8>),
> {
    seq![
        (("callCount").spec_bytes(), ("1").spec_bytes()),
        (("scriptSessionId").spec_bytes(), ("${scriptSessionId}190").spec_bytes()),
        (("httpSessionId").spec_bytes(), session),
        (("c0-scriptName").spec_bytes(), ("CourseBean").spec_bytes()),
        (("c0-methodName").spec_bytes(), ("getLastLearnedMocTermDto").spec_bytes()),
        (("c0-id").spec_bytes(), ("0").spec_bytes()),
        (("c0-param0").spec_bytes(), number_value_spec(tid)),
        (("batchId").spec_bytes(), batch),
    ]
}

/// Builds the course-metadata request form.
pub fn course_info_form(session_id: &str, tid: &str, batch_id: u64) -> (r: Vec<(Vec<u8>, Vec<u8>)>)
    ensures
        form_views(r@) == course_info_form_spec(
            session_id.spec_bytes(),
            tid.spec_bytes(),
            decimal_spec(batch_id as nat),
        ),
{
    let mut form: Vec<(Vec<u8>, Vec<u8>)> = Vec::new();
    form.push((("callCount").as_bytes_vec(), ("1").as_bytes_vec()));
    form.push((("scriptSessionId").as_bytes_vec(), ("${scriptSessionId}190").as_bytes_vec()));
    form.push((("httpSessionId").as_bytes_vec(), session_id.as_bytes_vec()));
    form.push((("c0-scriptName").as_bytes_vec(), ("CourseBean").as_bytes_vec()));
    form.push((("c0-methodName").as_bytes_vec(), ("getLastLearnedMocTermDto").as_bytes_vec()));
    form.push((("c0-id").as_bytes_vec(), ("0").as_bytes_vec()));
    form.push((("c0-param0").as_bytes_vec(), number_value(tid.as_bytes())));
    form.push((("batchId").as_bytes_vec(), decimal_digits(batch_id)));
    assert(form_views(form@) =~~= course_info_form_spec(
        session_id.spec_bytes(),
        tid.spec_bytes(),
        decimal_spec(batch_id as nat),
    ));
    form
}

/// The form of one pair-resolution call, in wire order: the fixed protocol
/// constants, the session token, the pair's two identifiers and the batch
/// timestamp.
pub open spec fn resolution_form_spec(
    session: Seq<u8>,
    content_id: Seq<u8>,
    section_id: Seq<u8>,
    batch: Seq<u8>,
) -> Seq<(Seq<u8>, Seq<u8>)> {
    seq![
        (("callCount").spec_bytes(), ("1").spec_bytes()),
        (("scriptSessionId").spec_bytes(), ("${scriptSessionId}190").spec_bytes()),
        (("httpSessionId").spec_bytes(), session),
        (("c0-scriptName").spec_bytes(), ("CourseBean").spec_bytes()),
        (("c0-methodName").spec_bytes(), ("getLessonUnitLearnVo").spec_bytes()),
        (("c0-id").spec_bytes(), ("0").spec_bytes()),
        (("c0-param0").spec_bytes(), number_value_spec(content_id)),
        (("c0-param1").spec_bytes(), ("number:3").spec_bytes()),
        (("c0-param2").spec_bytes(), ("number:0").spec_bytes()),
        (("c0-param3").spec_bytes(), number_value_spec(section_id)),
        (("batchId").spec_bytes(), batch),
    ]
}

/// Builds one pair-resolution request form.
pub fn resolution_form(
    session_id: &str,
    content_id: &Vec<u8>,
    section_id: &Vec<u8>,
    batch_id: u64,
) -> (r: Vec<(Vec<u8>, Vec<u8>)>)
    ensures
        form_views(r@) == resolution_form_spec(
            session_id.spec_bytes(),
            content_id@,
            section_id@,
            decimal_spec(batch_id as nat),
        ),
{
    let mut form: Vec<(Vec<u8>, Vec<u8>)> = Vec::new();
    form.push((("callCount").as_bytes_vec(), ("1").as_bytes_vec()));
    form.push((("scriptSessionId").as_bytes_vec(), ("${scriptSessionId}190").as_bytes_vec()));
    form.push((("httpSessionId").as_bytes_vec(), session_id.as_bytes_vec()));
    form.push((("c0-scriptName").as_bytes_vec(), ("CourseBean").as_bytes_vec()));
    form.push((("c0-methodName").as_bytes_vec(), ("getLessonUnitLearnVo").as_bytes_vec()));
    form.push((("c0-id").as_bytes_vec(), ("0").as_bytes_vec()));
    form.push((("c0-param0").as_bytes_vec(), number_value(content_id.as_slice())));
    form.push((("c0-param1").as_bytes_vec(), ("number:3").as_bytes_vec()));
    form.push((("c0-param2").as_bytes_vec(), ("number:0").as_bytes_vec()));
    form.push((("c0-param3").as_bytes_vec(), number_value(section_id.as_slice())));
    form.push((("batchId").as_bytes_vec(), decimal_digits(batch_id)));
    assert(form_views(form@) =~~= resolution_form_spec(
        session_id.spec_bytes(),
        content_id@,
        section_id@,
        decimal_spec(batch_id as nat),
    ));
    form
}

} // verus!
