use theory_craft_ta::batch::{build_result, check_begidx, finish_batch, plan_batch, BatchPlan};
use theory_craft_ta::retcode::{check_ret_code, TARetCode};

#[test]
fn begidx_skips_the_leading_gaps() {
    assert_eq!(check_begidx(&vec![None, None, Some(1.0), Some(2.0)]), 2);
    assert_eq!(check_begidx(&vec![Some(1.0), Some(2.0), Some(3.0)]), 0);
    assert_eq!(check_begidx(&vec![None, Some(1.0), None, Some(2.0)]), 1);
}

#[test]
fn begidx_of_nothing_but_gaps_is_the_last_index() {
    assert_eq!(check_begidx::<f64>(&vec![None, None, None]), 2);
    assert_eq!(check_begidx::<f64>(&vec![None]), 0);
    assert_eq!(check_begidx::<f64>(&vec![]), 0);
}

#[test]
fn build_result_pads_the_lookback_and_keeps_the_gaps() {
    let out = vec![Some(1.0), None, Some(3.0), Some(4.0)];
    assert_eq!(
        build_result(2, 3, &out),
        vec![None, None, Some(1.0), None, Some(3.0)]
    );
    assert_eq!(build_result(0, 0, &out), Vec::<Option<f64>>::new());
    assert_eq!(build_result(1, 0, &out), vec![None]);
    assert_eq!(build_result(0, 4, &out), out);
}

#[test]
fn plan_of_no_data_is_empty() {
    assert_eq!(plan_batch::<f64>(&vec![], 4), BatchPlan::Empty);
}

#[test]
fn plan_of_too_little_data_has_no_values() {
    let data = vec![None, Some(1.0), Some(2.0)];
    assert_eq!(plan_batch(&data, 2), BatchPlan::AllMissing { len: 3 });
    assert_eq!(plan_batch(&data, 5), BatchPlan::AllMissing { len: 3 });
}

#[test]
fn plan_of_enough_data_calls_from_the_first_sample() {
    let data = vec![None, Some(1.0), Some(2.0), Some(3.0), Some(4.0)];
    assert_eq!(
        plan_batch(&data, 2),
        BatchPlan::Call { begidx: 1, endidx: 3, total_lookback: 3 }
    );
    assert_eq!(
        plan_batch(&data, -1),
        BatchPlan::Call { begidx: 1, endidx: 3, total_lookback: 0 }
    );
}

#[test]
fn return_codes_keep_their_numbers() {
    let all = [
        (TARetCode::Success, 0),
        (TARetCode::LibNotInitialize, 1),
        (TARetCode::BadParam, 2),
        (TARetCode::AllocErr, 3),
        (TARetCode::GroupNotFound, 4),
        (TARetCode::FuncNotFound, 5),
        (TARetCode::InvalidHandle, 6),
        (TARetCode::InvalidParamHolder, 7),
        (TARetCode::InvalidParamFunction, 8),
        (TARetCode::InputNotAllInitialize, 9),
        (TARetCode::OutputNotAllInitialize, 10),
        (TARetCode::OutOfRangeStartIndex, 11),
        (TARetCode::OutOfRangeEndIndex, 12),
        (TARetCode::InvalidListType, 13),
        (TARetCode::BadObject, 14),
        (TARetCode::NotSupported, 15),
        (TARetCode::InternalError, 5000),
        (TARetCode::UnknownErr, 0xFFFF),
    ];
    for (code, number) in all {
        assert_eq!(code.code(), number);
        assert_eq!(TARetCode::from_code(number), Some(code));
    }
    assert_eq!(TARetCode::from_code(16), None);
    assert_eq!(TARetCode::from_code(-1), None);
}

#[test]
fn a_return_code_is_success_or_its_cause() {
    assert_eq!(check_ret_code(0), Ok(()));
    assert_eq!(check_ret_code(2), Err(TARetCode::BadParam));
    assert_eq!(check_ret_code(3), Err(TARetCode::AllocErr));
    assert_eq!(check_ret_code(1), Err(TARetCode::LibNotInitialize));
    assert_eq!(check_ret_code(15), Err(TARetCode::NotSupported));
    assert_eq!(check_ret_code(5000), Err(TARetCode::InternalError));
    assert_eq!(check_ret_code(0xFFFF), Err(TARetCode::UnknownErr));
    assert_eq!(check_ret_code(77), Err(TARetCode::InternalError));
    assert_eq!(check_ret_code(-3), Err(TARetCode::InternalError));
}

#[test]
fn return_codes_read_in_words() {
    assert_eq!(TARetCode::BadParam.message(), "Invalid parameters");
    assert_eq!(TARetCode::AllocErr.message(), "Memory allocation failed");
    assert_eq!(TARetCode::LibNotInitialize.message(), "TA-Lib not initialized");
    assert_eq!(TARetCode::NotSupported.message(), "Operation not supported");
    assert_eq!(TARetCode::InternalError.message(), "TA-Lib internal error");
    assert!(TARetCode::InternalError.carries_number());
    assert!(TARetCode::UnknownErr.carries_number());
    assert!(!TARetCode::BadParam.carries_number());
}

#[test]
fn a_failed_call_comes_to_its_cause() {
    let out = vec![Some(1.0), Some(2.0)];
    assert_eq!(finish_batch(2, 1, 2, &out), Err(TARetCode::BadParam));
    assert_eq!(finish_batch(3, 1, 2, &out), Err(TARetCode::AllocErr));
    assert_eq!(finish_batch(4242, 1, 2, &out), Err(TARetCode::InternalError));
}

#[test]
fn a_call_that_succeeded_comes_to_the_values_behind_the_lookback() {
    let out = vec![Some(2.0), Some(3.0), Some(4.0), Some(0.0)];
    assert_eq!(
        finish_batch(0, 2, 3, &out),
        Ok(vec![None, None, Some(2.0), Some(3.0), Some(4.0)])
    );
}

#[test]
fn the_plan_for_data_without_gaps_leaves_the_lookback_empty() {
    let data: Vec<Option<f64>> = (1..=5).map(|i| Some(i as f64)).collect();
    assert_eq!(
        plan_batch(&data, 2),
        BatchPlan::Call { begidx: 0, endidx: 4, total_lookback: 2 }
    );
    assert_eq!(plan_batch(&data, 5), BatchPlan::AllMissing { len: 5 });
    assert_eq!(
        plan_batch(&data, 4),
        BatchPlan::Call { begidx: 0, endidx: 4, total_lookback: 4 }
    );
}
