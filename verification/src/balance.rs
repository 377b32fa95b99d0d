//! Past balances of an account, worked out backwards from the balance of
//! today and the net movement of each month.

use vstd::prelude::*;
use vstd::string::*;
use crate::client::TellerClientError;
use crate::order::reversed;

verus! {

/// An amount in minor units under a label: the label of a month, or
/// `current` for the balance of today.
#[derive(Debug, Clone)]
pub struct HistoricalAmount {
    pub label: String,
    pub amount: i64,
}

/// The net amounts of labelled nets, in their order.
pub open spec fn net_amounts(nets: Seq<(String, i64)>) -> Seq<i64> {
    Seq::new(nets.len(), |i: int| nets[i].1)
}

/// The sum of the nets from place `from` to the end.
pub open spec fn net_sum(nets: Seq<i64>, from: int) -> int
    decreases nets.len() - from,
{
    if from < 0 || from >= nets.len() {
        0
    } else {
        nets[from] + net_sum(nets, from + 1)
    }
}

/// The balance before the transactions of the month at place `i` were
/// applied: the balance of today less the nets of that month and of all
/// later ones. At the place behind the last month this is the balance of
/// today itself.
pub open spec fn opening_balance(current: int, nets: Seq<i64>, i: int) -> int {
    current - net_sum(nets, i)
}

/// Whether every opening balance fits in 64 bits.
pub open spec fn openings_fit(current: int, nets: Seq<i64>) -> bool {
    forall|i: int|
        0 <= i < nets.len() ==> i64::MIN <= #[trigger] opening_balance(current, nets, i)
            <= i64::MAX
}

/// The balance reached from `start` when the nets of the first `upto` months
/// have been applied in turn.
pub open spec fn applied(start: int, nets: Seq<i64>, upto: int) -> int
    decreases upto,
{
    if upto <= 0 {
        start
    } else {
        applied(start, nets, upto - 1) + nets[upto - 1]
    }
}

/// Walking forward from the oldest opening balance, applying the net of
/// each month in turn, gives the opening balance of each later month and in
/// the end the balance of today.
pub proof fn lemma_walk_forward(current: int, nets: Seq<i64>, upto: int)
    requires
        0 <= upto <= nets.len(),
    ensures
        applied(opening_balance(current, nets, 0), nets, upto) == opening_balance(
            current,
            nets,
            upto,
        ),
        opening_balance(current, nets, nets.len() as int) == current,
    decreases upto,
{
    if upto > 0 {
        lemma_walk_forward(current, nets, upto - 1);
    }
}

/// Derives the opening balance of every month from the balance of today.
///
/// `nets` holds the net movement of each month, oldest first. The result
/// has one entry for each month, under the label of the month and in the
/// same order, and a last entry `current` with the balance of today. It
/// fails where an opening balance does not fit in 64 bits.
pub fn reconstruct(current: i64, nets: &Vec<(String, i64)>) -> (r: Result<
    Vec<HistoricalAmount>,
    TellerClientError,
>)
    ensures
        openings_fit(current as int, net_amounts(nets@)) ==> {
            &&& r matches Ok(v)
            &&& v.len() == nets.len() + 1
            &&& forall|i: int|
                0 <= i < nets.len() ==> (#[trigger] v[i]).label == nets[i].0 && v[i].amount
                    == opening_balance(current as int, net_amounts(nets@), i)
            &&& v[nets.len() as int].label@ == "current"@
            &&& v[nets.len() as int].amount == current
        },
        !openings_fit(current as int, net_amounts(nets@)) ==> (r matches Err(e) && e
            == TellerClientError::ArithmeticOverflow),
{
    let count = nets.len();
    let ghost amounts = net_amounts(nets@);
    let mut backwards: Vec<HistoricalAmount> = Vec::new();
    backwards.push(HistoricalAmount { label: String::from_str("current"), amount: current });
    let mut running: i64 = current;
    let mut i: usize = count;
    while i > 0
        invariant
            i <= count,
            count == nets.len(),
            amounts == net_amounts(nets@),
            backwards.len() == count - i + 1,
            running == opening_balance(current as int, amounts, i as int),
            backwards[0].label@ == "current"@,
            backwards[0].amount == current,
            forall|k: int|
                i <= k < count ==> (#[trigger] backwards[count - k]).label == nets[k].0
                    && backwards[count - k].amount == opening_balance(current as int, amounts, k),
            forall|k: int|
                i <= k < count ==> i64::MIN <= #[trigger] opening_balance(
                    current as int,
                    amounts,
                    k,
                ) <= i64::MAX,
        decreases i,
    {
        i -= 1;
        let prior: i128 = running as i128 - nets[i].1 as i128;
        assert(opening_balance(current as int, amounts, i as int) == prior);
        if prior < i64::MIN as i128 || prior > i64::MAX as i128 {
            return Err(TellerClientError::ArithmeticOverflow);
        }
        running = prior as i64;
        backwards.push(HistoricalAmount { label: nets[i].0.clone(), amount: running });
    }
    let out = reversed(backwards);
    Ok(out)
}

} // verus!
