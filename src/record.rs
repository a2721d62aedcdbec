use vstd::prelude::*;
use vstd::string::StringExecFns;
use crate::text::{decimal, push_decimal};

verus! {

/// One domain entry of the input list.
///
/// `score` holds the popularity score as the text that is shown for it; the
/// score is informational and never takes part in a decision.
#[derive(Debug)]
pub struct Record {
    pub rank: usize,
    pub domain: String,
    pub score: String,
}

/// Why a row could not become a record.
#[derive(Debug, PartialEq, Eq, Structural)]
pub enum RecordError {
    ZeroRank,
    EmptyDomain,
}

impl Record {
    /// A record is well formed when its rank is positive and its domain is not empty.
    pub open spec fn wf(&self) -> bool {
        self.rank > 0 && self.domain@.len() > 0
    }

    /// Builds a record, refusing a zero rank or an empty domain name.
    pub fn new(rank: usize, domain: String, score: String) -> (r: Result<Record, RecordError>)
        ensures
            rank == 0 ==> r == Err::<Record, RecordError>(RecordError::ZeroRank),
            rank > 0 && domain@.len() == 0 ==> r == Err::<Record, RecordError>(
                RecordError::EmptyDomain,
            ),
            rank > 0 && domain@.len() > 0 ==> (r matches Ok(rec) && rec.rank == rank
                && rec.domain@ == domain@ && rec.score@ == score@ && rec.wf()),
    {
        if rank == 0 {
            Err(RecordError::ZeroRank)
        } else if domain.as_str().is_empty() {
            Err(RecordError::EmptyDomain)
        } else {
            Ok(Record { rank, domain, score })
        }
    }

    pub fn rank(&self) -> (r: usize)
        ensures
            r == self.rank,
    {
        self.rank
    }

    pub fn domain(&self) -> (r: &str)
        ensures
            r@ == self.domain@,
    {
        self.domain.as_str()
    }

    pub fn score(&self) -> (r: &str)
        ensures
            r@ == self.score@,
    {
        self.score.as_str()
    }

    /// The record as shown in a result line.
    pub fn describe(&self) -> (r: String)
        ensures
            r@ == record_text(self),
    {
        let mut s = String::new();
        s.append("Domain: ");
        s.append(self.domain.as_str());
        s.append(", Rank = ");
        push_decimal(&mut s, self.rank);
        s.append(", Open Page Rank = ");
        s.append(self.score.as_str());
        proof {
            assert(s@ =~= record_text(self));
        }
        s
    }
}

/// `Domain: <name>, Rank = <rank>, Open Page Rank = <score>`
pub open spec fn record_text(r: &Record) -> Seq<char> {
    "Domain: "@ + r.domain@ + ", Rank = "@ + decimal(r.rank as nat) + ", Open Page Rank = "@
        + r.score@
}

} // verus!
