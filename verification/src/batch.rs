//! Framing of a batch call's input and output: where the data starts, and
//! how the values that came back line up with the bars that went in.

use vstd::prelude::*;
use crate::retcode::{check_ret_code, is_cause_of, TARetCode};
use crate::scalar::{mean_of, Scalar};
use crate::sma::{lemma_sma_follows_history, sma_advance};
use crate::window::{tail, WindowModel};

verus! {

/// Whether `r` is where the data starts: the index of the first sample that
/// is present; where none is present, the index of the last sample, and zero
/// for no samples at all.
pub open spec fn is_begidx<S>(data: Seq<Option<S>>, r: int) -> bool {
    &&& data.len() == 0 ==> r == 0
    &&& data.len() > 0 ==> 0 <= r < data.len()
    &&& forall|j: int| 0 <= j < r ==> (#[trigger] data[j]).is_none()
    &&& data.len() > 0 && data[r].is_none() ==> r == data.len() - 1
}

/// Only one index is where the data starts.
pub proof fn lemma_begidx_unique<S>(data: Seq<Option<S>>, a: int, b: int)
    requires
        is_begidx(data, a),
        is_begidx(data, b),
    ensures
        a == b,
{
}

/// The index of the first sample that is present. Where none is present it
/// is the index of the last sample, and zero for no samples at all.
pub fn check_begidx<S>(data: &Vec<Option<S>>) -> (r: usize)
    ensures
        is_begidx(data@, r as int),
{
    let mut i: usize = 0;
    while i < data.len()
        invariant
            i <= data.len(),
            forall|j: int| 0 <= j < i ==> (#[trigger] data@[j]).is_none(),
        decreases data.len() - i,
    {
        if data[i].is_some() {
            return i;
        }
        i = i + 1;
    }
    if data.len() == 0 {
        0
    } else {
        data.len() - 1
    }
}

/// The values of a batch call, one for each bar: none for the first
/// `total_lookback` bars, then the first `out_nb_element` of what came back.
pub open spec fn framed<S>(total_lookback: int, out_nb_element: int, out_real: Seq<Option<S>>) -> Seq<
    Option<S>,
> {
    Seq::new(total_lookback as nat, |i: int| None::<S>) + out_real.take(out_nb_element)
}

/// Lines the values that came back up with the bars: `total_lookback` bars
/// without a value, then the first `out_nb_element` values of `out_real`.
pub fn build_result<S: Copy>(
    total_lookback: i32,
    out_nb_element: i32,
    out_real: &Vec<Option<S>>,
) -> (r: Vec<Option<S>>)
    requires
        0 <= total_lookback,
        0 <= out_nb_element <= out_real.len(),
    ensures
        r@ == framed(total_lookback as int, out_nb_element as int, out_real@),
{
    let mut result: Vec<Option<S>> = Vec::new();
    let mut i: i32 = 0;
    while i < total_lookback
        invariant
            0 <= i <= total_lookback,
            result@ == Seq::new(i as nat, |k: int| None::<S>),
        decreases total_lookback - i,
    {
        result.push(None);
        i = i + 1;
        proof {
            assert(result@ =~= Seq::new(i as nat, |k: int| None::<S>));
        }
    }
    let mut j: i32 = 0;
    while j < out_nb_element
        invariant
            0 <= j <= out_nb_element <= out_real.len(),
            result@ == framed(total_lookback as int, j as int, out_real@),
        decreases out_nb_element - j,
    {
        result.push(out_real[j as usize]);
        j = j + 1;
        proof {
            assert(result@ =~= framed(total_lookback as int, j as int, out_real@));
        }
    }
    result
}

/// What to do with a batch request.
#[derive(Clone, Copy, Debug, PartialEq, Eq, Structural)]
pub enum BatchPlan {
    /// There are no bars: the result is empty.
    Empty,
    /// There are more bars than the batch library can index.
    TooLong,
    /// The data is too short for the indicator: no bar has a value.
    AllMissing { len: usize },
    /// The batch library is to be called on the bars from `begidx` on, the
    /// last of them at `endidx` counted from `begidx`; the first
    /// `total_lookback` bars of the whole data have no value.
    Call { begidx: usize, endidx: i32, total_lookback: i32 },
}

/// Decides what a batch request comes to, for an indicator that needs
/// `lookback` bars before its first value: nothing for no bars; no value at
/// all where the lookback, counted from the first sample that is present,
/// uses up the data; otherwise a call on the bars from that sample on.
pub fn plan_batch<S>(data: &Vec<Option<S>>, lookback: i32) -> (r: BatchPlan)
    ensures
        data.len() == 0 <==> r == BatchPlan::Empty,
        data.len() > i32::MAX <==> r == BatchPlan::TooLong,
        match r {
            BatchPlan::Empty => true,
            BatchPlan::TooLong => true,
            BatchPlan::AllMissing { len } => len == data.len() && exists|b: int|
                is_begidx(data@, b) && b + lookback >= data.len(),
            BatchPlan::Call { begidx, endidx, total_lookback } => {
                &&& is_begidx(data@, begidx as int)
                &&& endidx == data.len() - begidx - 1
                &&& total_lookback == begidx + lookback
                &&& total_lookback < data.len()
            },
        },
{
    let length: usize = data.len();
    if length == 0 {
        return BatchPlan::Empty;
    }
    if length > i32::MAX as usize {
        return BatchPlan::TooLong;
    }
    let begidx: usize = check_begidx(data);
    let total: i64 = begidx as i64 + lookback as i64;
    if total >= length as i64 {
        return BatchPlan::AllMissing { len: length };
    }
    BatchPlan::Call {
        begidx,
        endidx: (length - begidx - 1) as i32,
        total_lookback: total as i32,
    }
}

/// The framed result has one entry for each bar of the lookback and each
/// value taken; the lookback's entries are empty, and the values follow in
/// their order.
pub proof fn lemma_framed_lines_up<S>(
    total_lookback: int,
    out_nb_element: int,
    out_real: Seq<Option<S>>,
)
    requires
        0 <= total_lookback,
        0 <= out_nb_element <= out_real.len(),
    ensures
        framed(total_lookback, out_nb_element, out_real).len() == total_lookback + out_nb_element,
        forall|i: int|
            0 <= i < total_lookback ==> (#[trigger] framed(
                total_lookback,
                out_nb_element,
                out_real,
            )[i]).is_none(),
        forall|i: int|
            total_lookback <= i < total_lookback + out_nb_element ==> #[trigger] framed(
                total_lookback,
                out_nb_element,
                out_real,
            )[i] == out_real[i - total_lookback],
{
}

/// What a batch call's outcome comes to: the cause of failure where the
/// return code is not success, else the values lined up with the bars.
pub fn finish_batch<S: Copy>(
    ret_code: i32,
    total_lookback: i32,
    out_nb_element: i32,
    out_real: &Vec<Option<S>>,
) -> (r: Result<Vec<Option<S>>, TARetCode>)
    requires
        ret_code == 0 ==> 0 <= total_lookback && 0 <= out_nb_element <= out_real.len(),
    ensures
        r.is_ok() <==> ret_code == 0,
        r.is_ok() ==> r.unwrap()@ == framed(
            total_lookback as int,
            out_nb_element as int,
            out_real@,
        ),
        match r {
            Ok(_) => true,
            Err(cause) => is_cause_of(cause, ret_code as int),
        },
{
    match check_ret_code(ret_code) {
        Err(cause) => Err(cause),
        Ok(()) => Ok(build_result(total_lookback, out_nb_element, out_real)),
    }
}

/// Where the values that came back are the means of the history's windows,
/// in order, the framed result is bar for bar what stepping the simple
/// average through the history gives: nothing for the first `period - 1`
/// bars, then the mean of the newest `period` samples at each bar.
pub proof fn lemma_batch_sma_matches_stepping<S: Scalar>(
    period: int,
    xs: Seq<S>,
    out_real: Seq<Option<S>>,
)
    requires
        2 <= period <= i32::MAX,
        xs.len() >= period,
        out_real.len() >= xs.len() - period + 1,
        forall|j: int|
            0 <= j <= xs.len() - period ==> #[trigger] out_real[j] == Some(
                mean_of(xs.subrange(j, j + period), period),
            ),
    ensures
        framed(period - 1, xs.len() - period + 1, out_real).len() == xs.len(),
        forall|i: int|
            0 <= i < xs.len() ==> #[trigger] framed(period - 1, xs.len() - period + 1, out_real)[i]
                == sma_advance(WindowModel::run(period, xs.take(i)), xs[i], true).0,
{
    let n = xs.len() as int;
    let framed_result = framed(period - 1, n - period + 1, out_real);
    lemma_framed_lines_up(period - 1, n - period + 1, out_real);
    assert forall|i: int| 0 <= i < n implies #[trigger] framed_result[i] == sma_advance(
        WindowModel::run(period, xs.take(i)),
        xs[i],
        true,
    ).0 by {
        let upto = xs.take(i + 1);
        lemma_sma_follows_history(period, upto);
        assert(upto.drop_last() =~= xs.take(i));
        assert(upto.last() == xs[i]);
        if i + 1 >= period {
            assert(tail(upto, period) =~= xs.subrange(i + 1 - period, i + 1));
            assert(framed_result[i] == out_real[i - (period - 1)]);
        }
    }
}

} // verus!
