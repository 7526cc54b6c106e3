//! Rewriting one stored object: its records decoded, renamed, and encoded
//! again one per line, and the decision what to do with the result.
use vstd::prelude::*;

use crate::json::{decode_records, decoded_records, encode_value, encoded_value};
use crate::pointer::{json_pointer, pointer_segments, string_views};
use crate::record::{rename, rename_result, resolves};

verus! {

/// The byte that ends each record's line.
pub const NEWLINE: u8 = 10;

/// What one rename run is asked to do.
pub struct RenameParams {
    /// The field to rename: a flat name, or a pointer such as `/a/b`.
    pub source: String,
    /// The new name of the field, in the object that holds it.
    pub target: String,
    /// How many objects are rewritten at once at most.
    pub concurrency: usize,
    /// Show the rewritten content instead of storing it.
    pub dryrun: bool,
}

/// What becomes of one object.
pub enum RewriteOutcome {
    /// No record changed: nothing is written.
    Skipped,
    /// Some record changed, and this is a dry run: the content to show.
    Previewed(Vec<u8>),
    /// Some record changed: the content to store under the same key.
    Written(Vec<u8>),
}

/// Why an object could not be rewritten.
pub enum RewriteError {
    /// The object's bytes are not a stream of JSON texts.
    Malformed(serde_json::Error),
    /// A rewritten record could not be encoded.
    Unencodable(serde_json::Error),
}

/// Every record can be encoded.
pub open spec fn all_encodable(rs: Seq<serde_json::Value>) -> bool {
    forall|j: int| 0 <= j < rs.len() ==> (#[trigger] encoded_value(rs[j])) is Some
}

/// The records' texts, each followed by a newline, in order.
pub open spec fn joined_lines(rs: Seq<serde_json::Value>) -> Seq<u8>
    decreases rs.len(),
{
    if rs.len() == 0 {
        Seq::empty()
    } else {
        joined_lines(rs.drop_last()) + encoded_value(rs.last())->Some_0 + seq![NEWLINE]
    }
}

/// Some record holds the field that `path` leads to.
pub open spec fn any_resolves(rs: Seq<serde_json::Value>, path: Seq<Seq<char>>) -> bool {
    exists|j: int| 0 <= j < rs.len() && resolves(#[trigger] rs[j], path)
}

/// `out` is `rs` record by record, each renamed where the path leads to a field.
pub open spec fn renamed_all(
    rs: Seq<serde_json::Value>,
    path: Seq<Seq<char>>,
    target: Seq<char>,
    out: Seq<serde_json::Value>,
) -> bool {
    &&& out.len() == rs.len()
    &&& forall|j: int| 0 <= j < rs.len() ==> rename_result(#[trigger] rs[j], path, target, out[j])
}

/// What becomes of records once renamed into `out`: their text, to show on
/// a dry run and to store otherwise, or an encoding error where some
/// record cannot be encoded.
pub open spec fn outcome_from(
    out: Seq<serde_json::Value>,
    dryrun: bool,
    r: Result<RewriteOutcome, RewriteError>,
) -> bool {
    match r {
        Ok(RewriteOutcome::Skipped) => false,
        Ok(RewriteOutcome::Previewed(b)) => dryrun && all_encodable(out) && b@ == joined_lines(out),
        Ok(RewriteOutcome::Written(b)) => !dryrun && all_encodable(out) && b@ == joined_lines(out),
        Err(RewriteError::Unencodable(_)) => !all_encodable(out),
        Err(RewriteError::Malformed(_)) => false,
    }
}

/// What rewriting the records `rs` gives: nothing to do where no record
/// holds the field; else the outcome of the renamed records.
pub open spec fn outcome_of(
    rs: Seq<serde_json::Value>,
    path: Seq<Seq<char>>,
    target: Seq<char>,
    dryrun: bool,
    r: Result<RewriteOutcome, RewriteError>,
) -> bool {
    if !any_resolves(rs, path) {
        r is Ok && r->Ok_0 is Skipped
    } else {
        exists|out: Seq<serde_json::Value>| #[trigger]
            renamed_all(rs, path, target, out) && outcome_from(out, dryrun, r)
    }
}

/// Renames the field in every record, keeping their order. Returns the
/// records and whether any of them changed.
pub fn rename_records(records: Vec<serde_json::Value>, path: &Vec<String>, target: &str) -> (r: (
    Vec<serde_json::Value>,
    bool,
))
    ensures
        renamed_all(records@, string_views(path@), target@, r.0@),
        r.1 == any_resolves(records@, string_views(path@)),
{
    let ghost rs = records@;
    let ghost p = string_views(path@);
    let n = records.len();
    let mut src = records;
    let mut rev: Vec<serde_json::Value> = Vec::new();
    let mut changed = false;
    while src.len() > 0
        invariant
            n == rs.len(),
            p == string_views(path@),
            src@ == rs.take(src@.len() as int),
            rev@.len() + src@.len() == n,
            forall|k: int|
                0 <= k < rev@.len() ==> rename_result(rs[n - 1 - k], p, target@, #[trigger] rev@[k]),
            changed == exists|j: int| src@.len() <= j < n && resolves(#[trigger] rs[j], p),
        decreases src@.len(),
    {
        let ghost m = src@.len() - 1;
        assert(src@[m] == rs[m]);
        match src.pop() {
            None => {},
            Some(rec) => {
                assert(rec == rs[m]);
                let (out, ch) = rename(rec, path, target);
                assert(ch == resolves(rs[m], p));
                rev.push(out);
                changed = changed || ch;
                assert(src@ =~= rs.take(src@.len() as int));
                assert(changed == exists|j: int| src@.len() <= j < n && resolves(#[trigger] rs[j], p))
                    by {
                    if ch {
                        assert(resolves(rs[m], p));
                    }
                };
            },
        }
    }
    let ghost all_rev = rev@;
    let mut out: Vec<serde_json::Value> = Vec::new();
    while rev.len() > 0
        invariant
            n == rs.len(),
            p == string_views(path@),
            all_rev.len() == n,
            rev@ == all_rev.take(rev@.len() as int),
            out@.len() + rev@.len() == n,
            forall|k: int|
                0 <= k < n ==> rename_result(rs[n - 1 - k], p, target@, #[trigger] all_rev[k]),
            forall|j: int| 0 <= j < out@.len() ==> rename_result(rs[j], p, target@, #[trigger] out@[j]),
        decreases rev@.len(),
    {
        let ghost m = rev@.len() - 1;
        match rev.pop() {
            None => {},
            Some(x) => {
                assert(x == all_rev[m]);
                assert(rename_result(rs[n - 1 - m], p, target@, all_rev[m]));
                out.push(x);
                assert(rev@ =~= all_rev.take(rev@.len() as int));
            },
        }
    }
    assert(changed == any_resolves(rs, p));
    (out, changed)
}

/// Encodes the records compactly, each followed by a newline, in order.
pub fn encode_records(records: &Vec<serde_json::Value>) -> (r: Result<Vec<u8>, serde_json::Error>)
    ensures
        r is Ok <==> all_encodable(records@),
        r matches Ok(b) ==> b@ == joined_lines(records@),
{
    let mut buf: Vec<u8> = Vec::new();
    let mut i: usize = 0;
    while i < records.len()
        invariant
            i <= records@.len(),
            buf@ == joined_lines(records@.take(i as int)),
            all_encodable(records@.take(i as int)),
        decreases records@.len() - i,
    {
        match encode_value(&records[i]) {
            Err(e) => {
                assert(!all_encodable(records@)) by {
                    assert(encoded_value(records@[i as int]) is None);
                };
                return Err(e);
            },
            Ok(mut text) => {
                buf.append(&mut text);
                buf.push(NEWLINE);
                assert(records@.take(i + 1).drop_last() =~= records@.take(i as int));
                assert(records@.take(i + 1).last() == records@[i as int]);
                assert(all_encodable(records@.take(i + 1))) by {
                    assert forall|j: int| 0 <= j < i + 1 implies (#[trigger] encoded_value(
                        records@.take(i + 1)[j],
                    )) is Some by {
                        if j < i {
                            assert(records@.take(i + 1)[j] == records@.take(i as int)[j]);
                        }
                    }
                };
                i = i + 1;
            },
        }
    }
    assert(records@.take(i as int) =~= records@);
    Ok(buf)
}

/// Rewrites decoded records: renames the field in each, and where any
/// changed, encodes them all again, for display on a dry run or to be stored.
pub fn rewrite_records(
    records: Vec<serde_json::Value>,
    path: &Vec<String>,
    target: &str,
    dryrun: bool,
) -> (r: Result<RewriteOutcome, RewriteError>)
    ensures
        outcome_of(records@, string_views(path@), target@, dryrun, r),
{
    let ghost rs = records@;
    let (out, changed) = rename_records(records, path, target);
    if !changed {
        return Ok(RewriteOutcome::Skipped);
    }
    assert(renamed_all(rs, string_views(path@), target@, out@));
    match encode_records(&out) {
        Err(e) => Err(RewriteError::Unencodable(e)),
        Ok(b) => {
            if dryrun {
                Ok(RewriteOutcome::Previewed(b))
            } else {
                Ok(RewriteOutcome::Written(b))
            }
        },
    }
}

/// Rewrites the content of one object: decodes its JSON texts, renames the
/// field `params.source` into `params.target` in each, and says whether to
/// skip the object, show the new content, or store it.
pub fn rewrite(bytes: &[u8], params: &RenameParams) -> (r: Result<RewriteOutcome, RewriteError>)
    ensures
        decoded_records(bytes@) is None <==> r matches Err(RewriteError::Malformed(_)),
        decoded_records(bytes@) matches Some(rs) ==> outcome_of(
            rs,
            pointer_segments(params.source@),
            params.target@,
            params.dryrun,
            r,
        ),
{
    match decode_records(bytes) {
        Err(e) => Err(RewriteError::Malformed(e)),
        Ok(records) => {
            let path = json_pointer(params.source.as_str());
            rewrite_records(records, &path, params.target.as_str(), params.dryrun)
        },
    }
}

/// Records that the rename left untouched come out exactly as they went in,
/// one for one; where no record holds the field, the rewritten text is the
/// records' own text, line for line.
pub proof fn lemma_unmodified_records_kept(
    rs: Seq<serde_json::Value>,
    path: Seq<Seq<char>>,
    target: Seq<char>,
    out: Seq<serde_json::Value>,
)
    requires
        renamed_all(rs, path, target, out),
    ensures
        out.len() == rs.len(),
        forall|j: int| 0 <= j < rs.len() && !resolves(#[trigger] rs[j], path) ==> out[j] == rs[j],
        !any_resolves(rs, path) ==> joined_lines(out) == joined_lines(rs),
{
    assert forall|j: int| 0 <= j < rs.len() && !resolves(#[trigger] rs[j], path) implies out[j]
        == rs[j] by {
        assert(rename_result(rs[j], path, target, out[j]));
    }
    if !any_resolves(rs, path) {
        assert(out =~= rs);
    }
}

} // verus!
