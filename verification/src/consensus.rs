//! Decoding of the embedded commitment log: a digest carries the commitment
//! exactly when it holds exactly one commitment item; several such items are
//! a data-integrity fault.

use vstd::prelude::*;

use crate::types::{DigestItem, DigestModel, FindLogError, PostHashes, PostHashesModel};

verus! {

/// Number of commitment logs among the digest items.
pub open spec fn log_count(digest: Seq<DigestModel>) -> nat
    decreases digest.len(),
{
    if digest.len() == 0 {
        0
    } else {
        log_count(digest.drop_last()) + (if digest.last() is Commitment {
            1nat
        } else {
            0nat
        })
    }
}

/// The payload of the last commitment log of the digest; when
/// `log_count(digest) == 1` this is the payload of the unique one.
pub open spec fn embedded_log(digest: Seq<DigestModel>) -> PostHashesModel
    decreases digest.len(),
{
    if digest.len() == 0 {
        arbitrary()
    } else if digest.last() is Commitment {
        digest.last()->Commitment_0
    } else {
        embedded_log(digest.drop_last())
    }
}

/// A prefix of a digest never holds more commitment logs than the digest.
proof fn lemma_log_count_take_le(digest: Seq<DigestModel>, i: int)
    requires
        0 <= i <= digest.len(),
    ensures
        log_count(digest.take(i)) <= log_count(digest),
    decreases digest.len() - i,
{
    if i == digest.len() {
        assert(digest.take(i) =~= digest);
    } else {
        assert(digest.take(i + 1).drop_last() =~= digest.take(i));
        lemma_log_count_take_le(digest, i + 1);
    }
}

/// Scans the digest for the embedded commitment log.
///
/// Returns the payload of the unique commitment item, `NotFound` when there
/// is none, and `MultipleLogs` as soon as a second one is seen.
#[verifier::loop_isolation(false)]
pub fn find_log<'a>(digest: &'a Vec<DigestItem>) -> (r: Result<&'a PostHashes, FindLogError>)
    ensures
        ({
            let d = digest@.map_values(|it: DigestItem| it@);
            match r {
                Ok(p) => log_count(d) == 1 && p@ == embedded_log(d),
                Err(FindLogError::NotFound) => log_count(d) == 0,
                Err(FindLogError::MultipleLogs) => log_count(d) >= 2,
            }
        }),
{
    let ghost d = digest@.map_values(|it: DigestItem| it@);
    let mut found: Option<&PostHashes> = None;
    let mut i: usize = 0;
    while i < digest.len()
        invariant
            i <= digest.len(),
            found is None ==> log_count(d.take(i as int)) == 0,
            found matches Some(p) ==> log_count(d.take(i as int)) == 1 && p@ == embedded_log(
                d.take(i as int),
            ),
        decreases digest.len() - i,
    {
        proof {
            assert(d.take(i + 1).drop_last() =~= d.take(i as int));
            assert(d.take(i + 1).last() == d[i as int]);
        }
        match &digest[i] {
            DigestItem::Commitment(p) => {
                if found.is_some() {
                    proof {
                        lemma_log_count_take_le(d, i + 1);
                    }
                    return Err(FindLogError::MultipleLogs);
                }
                found = Some(p);
            },
            DigestItem::Other => {},
        }
        i = i + 1;
    }
    proof {
        assert(d.take(digest.len() as int) =~= d);
    }
    match found {
        Some(p) => Ok(p),
        None => Err(FindLogError::NotFound),
    }
}

} // verus!
