use fanpipe::collector::collect_partials;
use fanpipe::collector::sum_chunked;
use fanpipe::collector::JoinCollector;
use fanpipe::chunks::split_chunks;
use fanpipe::digits::sum_digits;
use fanpipe::errors::AggregateError;
use fanpipe::errors::TaskFailure;

const DATA: &[u8] = b"86967897737416471853297327050364959
11861322575564723963297542624962850
70856234701860851907960690014725639
38397966707106094172783238747669219
52380795257888236525459303330302837
58495327135744041048897885734297812
69920216438980873548808413720956532
16278424637452589860345374828574668";

#[test]
fn digit_sum_of_simple_chunks() {
    assert_eq!(sum_digits(b"123"), Ok(6));
    assert_eq!(sum_digits(b"456"), Ok(15));
    assert_eq!(sum_digits(b"0"), Ok(0));
    assert_eq!(sum_digits(b"9"), Ok(9));
}

#[test]
fn digit_sum_of_empty_chunk_is_zero() {
    assert_eq!(sum_digits(b""), Ok(0));
}

#[test]
fn digit_sum_of_long_segments() {
    assert_eq!(sum_digits(b"86967897737416471853297327050364959"), Ok(187));
    assert_eq!(sum_digits(b"16278424637452589860345374828574668"), Ok(177));
}

#[test]
fn non_digit_fails_at_first_offender() {
    assert_eq!(
        sum_digits(b"12a4"),
        Err(TaskFailure::NonDigit { index: 2, byte: b'a' })
    );
    assert_eq!(
        sum_digits(b"x123"),
        Err(TaskFailure::NonDigit { index: 0, byte: b'x' })
    );
    // Only the first non-digit is reported, even with more behind it.
    assert_eq!(
        sum_digits(b"1!?"),
        Err(TaskFailure::NonDigit { index: 1, byte: b'!' })
    );
}

#[test]
fn split_on_any_ascii_whitespace() {
    let chunks = split_chunks(b" 123 \n456\t");
    assert_eq!(chunks, vec![b"123".to_vec(), b"456".to_vec()]);
}

#[test]
fn split_of_empty_or_blank_input_is_empty() {
    assert_eq!(split_chunks(b""), Vec::<Vec<u8>>::new());
    assert_eq!(split_chunks(b" \t\r\n "), Vec::<Vec<u8>>::new());
}

#[test]
fn split_keeps_chunk_order() {
    let chunks = split_chunks(DATA);
    assert_eq!(chunks.len(), 8);
    assert_eq!(chunks[0], b"86967897737416471853297327050364959".to_vec());
    assert_eq!(chunks[7], b"16278424637452589860345374828574668".to_vec());
}

#[test]
fn collect_totals_all_partials() {
    assert_eq!(collect_partials(&vec![Ok(6), Ok(15)]), Ok(21));
    assert_eq!(collect_partials(&vec![]), Ok(0));
}

#[test]
fn collect_reports_earliest_failed_chunk() {
    let cause = TaskFailure::NonDigit { index: 0, byte: b'x' };
    let later = TaskFailure::NonDigit { index: 1, byte: b'y' };
    assert_eq!(
        collect_partials(&vec![Ok(6), Err(cause), Err(later)]),
        Err(AggregateError::ChunkFailed { index: 1, cause })
    );
}

#[test]
fn collect_surfaces_an_aborted_task() {
    // A worker that panicked reports no result; the join hands the
    // collector an abort value instead of crashing.
    assert_eq!(
        collect_partials(&vec![Ok(187), Err(TaskFailure::Aborted)]),
        Err(AggregateError::ChunkFailed { index: 1, cause: TaskFailure::Aborted })
    );
}

#[test]
fn collect_rejects_total_overflow() {
    assert_eq!(
        collect_partials(&vec![Ok(u64::MAX), Ok(1)]),
        Err(AggregateError::TotalOverflow)
    );
}

#[test]
fn join_collector_drains_in_spawn_order() {
    let mut collector = JoinCollector::new(3);
    assert_eq!(collector.remaining(), 3);
    collector.record_join(Ok(6));
    collector.record_join(Ok(15));
    assert_eq!(collector.remaining(), 1);
    collector.record_join(Ok(21));
    assert_eq!(collector.remaining(), 0);
    assert_eq!(collector.finish(), Ok(42));
}

#[test]
fn join_collector_discards_partials_of_failed_run() {
    let cause = TaskFailure::NonDigit { index: 3, byte: b'-' };
    let mut collector = JoinCollector::new(2);
    collector.record_join(Ok(187));
    collector.record_join(Err(cause));
    assert_eq!(
        collector.finish(),
        Err(AggregateError::ChunkFailed { index: 1, cause })
    );
}

#[test]
fn two_chunk_scenario_sums_to_twenty_one() {
    // "123\n456" splits into "123" and "456": partial sums 6 and 15,
    // final reduction 21.
    assert_eq!(sum_chunked(b"123\n456"), Ok(21));
}

#[test]
fn eight_segment_reduction() {
    assert_eq!(sum_chunked(DATA), Ok(1342));
}

#[test]
fn reduction_fails_on_first_bad_chunk() {
    assert_eq!(
        sum_chunked(b"123\nx4"),
        Err(AggregateError::ChunkFailed {
            index: 1,
            cause: TaskFailure::NonDigit { index: 0, byte: b'x' },
        })
    );
}
