//! Gathering the outcomes of independent operations into one result.

use vstd::prelude::*;
use vstd::string::StringExecFns;

verus! {

/// What an aggregated failure is, as plain mathematical values.
pub struct FailureView {
    pub label: Seq<char>,
    pub reasons: Seq<Seq<char>>,
}

/// One failure that stands for all the operations of a call that failed:
/// the label of the call, and the reason of each failure in the order of
/// the operations.
#[derive(Debug, PartialEq, Eq)]
pub struct AggregatedFailure {
    pub label: String,
    pub reasons: Vec<String>,
}

impl View for AggregatedFailure {
    type V = FailureView;

    open spec fn view(&self) -> FailureView {
        FailureView { label: self.label@, reasons: self.reasons@.map_values(|r: String| r@) }
    }
}

/// The reasons of the failures among `results`, in order.
pub open spec fn reasons_of(results: Seq<Result<(), String>>) -> Seq<Seq<char>>
    decreases results.len(),
{
    if results.len() == 0 {
        Seq::empty()
    } else {
        match results.last() {
            Ok(_) => reasons_of(results.drop_last()),
            Err(reason) => reasons_of(results.drop_last()).push(reason@),
        }
    }
}

/// Success where there is no reason to fail, else the one failure with
/// all the reasons under `label`.
pub open spec fn consolidated(label: Seq<char>, reasons: Seq<Seq<char>>) -> Result<
    (),
    FailureView,
> {
    if reasons.len() == 0 {
        Ok(())
    } else {
        Err(FailureView { label, reasons })
    }
}

/// `reasons`, with a comma and a space between one and the next.
pub open spec fn joined(reasons: Seq<Seq<char>>) -> Seq<char>
    decreases reasons.len(),
{
    if reasons.len() == 0 {
        Seq::empty()
    } else if reasons.len() == 1 {
        reasons[0]
    } else {
        joined(reasons.drop_last()) + ", "@ + reasons.last()
    }
}

/// The text of a failure: the label, a colon, and the reasons.
pub open spec fn failure_message(failure: FailureView) -> Seq<char> {
    failure.label + ": "@ + joined(failure.reasons)
}

/// Whether `res` is `expected`, an exec result taken by its view.
pub open spec fn is_outcome(
    res: Result<(), AggregatedFailure>,
    expected: Result<(), FailureView>,
) -> bool {
    match res {
        Ok(_) => expected is Ok,
        Err(failure) => expected == Err::<(), FailureView>(failure@),
    }
}

/// Gathers the outcomes of the operations of one call: success where all
/// succeeded, else one failure that names `message` and holds the reason
/// of every operation that failed. Successes leave no trace in it.
pub fn consolidate_errors(message: &str, results: Vec<Result<(), String>>) -> (res: Result<
    (),
    AggregatedFailure,
>)
    ensures
        is_outcome(res, consolidated(message@, reasons_of(results@))),
{
    let mut reasons: Vec<String> = Vec::new();
    let mut i: usize = 0;
    while i < results.len()
        invariant
            i <= results.len(),
            reasons@.map_values(|r: String| r@) == reasons_of(results@.take(i as int)),
        decreases results.len() - i,
    {
        let ghost before = reasons@.map_values(|r: String| r@);
        match &results[i] {
            Ok(_) => {},
            Err(reason) => {
                reasons.push(reason.clone());
                assert(reasons@.map_values(|r: String| r@) =~= before.push(reason@));
            },
        }
        proof {
            let longer = results@.take(i as int + 1);
            assert(longer.drop_last() =~= results@.take(i as int));
            assert(longer.last() == results@[i as int]);
        }
        i = i + 1;
    }
    assert(results@.take(i as int) =~= results@);
    if reasons.len() == 0 {
        Ok(())
    } else {
        Err(AggregatedFailure { label: String::from_str(message), reasons })
    }
}

impl AggregatedFailure {
    /// The failure as one line of text.
    pub fn message(&self) -> (res: String)
        ensures
            res@ == failure_message(self@),
    {
        let mut text = self.label.clone();
        text.append(": ");
        let ghost all = self@.reasons;
        let mut i: usize = 0;
        while i < self.reasons.len()
            invariant
                i <= self.reasons.len(),
                all == self@.reasons,
                text@ == self@.label + ": "@ + joined(all.take(i as int)),
            decreases self.reasons.len() - i,
        {
            let ghost before = text@;
            if i > 0 {
                text.append(", ");
            }
            text.append(self.reasons[i].as_str());
            proof {
                let shorter = all.take(i as int);
                let longer = all.take(i as int + 1);
                assert(longer.drop_last() =~= shorter);
                assert(longer.last() == self.reasons[i as int]@);
                if i == 0 {
                    assert(joined(shorter) =~= Seq::<char>::empty());
                    assert(joined(longer) == longer[0]);
                    assert(text@ =~= self@.label + ": "@ + joined(longer));
                } else {
                    assert(joined(longer) == joined(shorter) + ", "@ + longer.last());
                    assert(text@ =~= self@.label + ": "@ + joined(longer));
                }
            }
            i = i + 1;
        }
        assert(all.take(i as int) =~= all);
        text
    }
}

} // verus!
