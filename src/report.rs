use vstd::prelude::*;
use vstd::string::StringExecFns;
use crate::probe::Classification;
use crate::record::{Record, record_text};
use crate::text::{decimal, push_decimal};

verus! {

/// Where a result line goes.
#[derive(Debug, Clone, Copy, PartialEq, Eq, Structural)]
pub enum Stream {
    Standard,
    Diagnostic,
}

/// One line of output about one probed record.
#[derive(Debug)]
pub struct ResultLine {
    pub stream: Stream,
    pub text: String,
}

/// The line that worker `index` emits for `r` classified as `c`, if any:
/// a success goes to the standard stream, a block to the diagnostic stream,
/// and a failure emits nothing.
pub open spec fn line_of(index: nat, r: &Record, c: Classification) -> Option<(Stream, Seq<char>)> {
    match c {
        Classification::Success => Some(
            (Stream::Standard, "["@ + decimal(index) + "] ok "@ + record_text(r)),
        ),
        Classification::Blocked => Some((Stream::Diagnostic, "BLOCKED! domain "@ + record_text(r))),
        Classification::Failure(_) => None,
    }
}

/// Renders the result line of one probe.
pub fn render(index: usize, record: &Record, c: Classification) -> (r: Option<ResultLine>)
    ensures
        r is None <==> line_of(index as nat, record, c) is None,
        r matches Some(line) ==> line_of(index as nat, record, c) == Some((line.stream, line.text@)),
{
    match c {
        Classification::Success => {
            let mut s = String::new();
            s.append("[");
            push_decimal(&mut s, index);
            s.append("] ok ");
            let d = record.describe();
            s.append(d.as_str());
            Some(ResultLine { stream: Stream::Standard, text: s })
        },
        Classification::Blocked => {
            let mut s = String::new();
            s.append("BLOCKED! domain ");
            let d = record.describe();
            s.append(d.as_str());
            Some(ResultLine { stream: Stream::Diagnostic, text: s })
        },
        Classification::Failure(_) => None,
    }
}

/// The lines that worker `index` emits for the records `rs`, the `j`-th
/// classified as `cs[j]`, in order.
pub open spec fn emitted(index: nat, rs: Seq<Record>, cs: Seq<Classification>) -> Seq<Seq<char>>
    decreases rs.len(),
{
    if rs.len() == 0 || cs.len() == 0 {
        Seq::empty()
    } else {
        let rest = emitted(index, rs.drop_last(), cs.drop_last());
        match line_of(index, &rs.last(), cs.last()) {
            Some(l) => rest.push(l.1),
            None => rest,
        }
    }
}

/// `line` is the line that worker `index` emits for one of the records `rs`
/// with its classification.
pub open spec fn is_line_of_some(
    index: nat,
    rs: Seq<Record>,
    cs: Seq<Classification>,
    line: Seq<char>,
) -> bool {
    exists|j: int|
        0 <= j < rs.len() && #[trigger] line_of(index, &rs[j], cs[j]) is Some && line_of(
            index,
            &rs[j],
            cs[j],
        ).unwrap().1 == line
}

/// A worker emits at most one line per record, and every line it emits is
/// exactly the line of one of its records with that record's classification:
/// nothing is corrupted, duplicated or made up.
pub proof fn lemma_emitted_lines_match_records(
    index: nat,
    rs: Seq<Record>,
    cs: Seq<Classification>,
)
    requires
        rs.len() == cs.len(),
    ensures
        emitted(index, rs, cs).len() <= rs.len(),
        forall|k: int|
            0 <= k < emitted(index, rs, cs).len() ==> is_line_of_some(
                index,
                rs,
                cs,
                #[trigger] emitted(index, rs, cs)[k],
            ),
    decreases rs.len(),
{
    if rs.len() > 0 {
        let rs0 = rs.drop_last();
        let cs0 = cs.drop_last();
        lemma_emitted_lines_match_records(index, rs0, cs0);
        let e = emitted(index, rs, cs);
        let e0 = emitted(index, rs0, cs0);
        assert forall|k: int| 0 <= k < e.len() implies is_line_of_some(
            index,
            rs,
            cs,
            #[trigger] e[k],
        ) by {
            if k < e0.len() {
                assert(is_line_of_some(index, rs0, cs0, e0[k]));
                let j = choose|j: int|
                    0 <= j < rs0.len() && #[trigger] line_of(index, &rs0[j], cs0[j]) is Some
                        && line_of(index, &rs0[j], cs0[j]).unwrap().1 == e0[k];
                assert(rs0[j] == rs[j] && cs0[j] == cs[j]);
                assert(e[k] == e0[k]);
                assert(line_of(index, &rs[j], cs[j]) is Some);
            } else {
                let j = rs.len() - 1;
                assert(rs[j] == rs.last() && cs[j] == cs.last());
                assert(line_of(index, &rs[j], cs[j]) is Some);
            }
        }
    }
}

} // verus!
