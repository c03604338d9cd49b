use rssh::command::{collect_output, command_result, effective_status, exit_outcome};

#[test]
fn exit_zero_is_success() {
    assert_eq!(exit_outcome(0), Ok(()));
}

#[test]
fn exit_nonzero_carries_exact_value() {
    assert_eq!(exit_outcome(7), Err(7));
    assert_eq!(exit_outcome(127), Err(127));
}

#[test]
fn exit_negative_sentinel_carries_exact_value() {
    assert_eq!(exit_outcome(-1), Err(-1));
}

#[test]
fn missing_status_becomes_sentinel() {
    assert_eq!(effective_status(None), -1);
    assert_eq!(effective_status(Some(3)), 3);
}

#[test]
fn command_result_cases() {
    assert_eq!(command_result(Some(0)), Ok(()));
    assert_eq!(command_result(Some(3)), Err(3));
    assert_eq!(command_result(None), Err(-1));
}

#[test]
fn output_concatenates_chunks_in_order() {
    let chunks: Vec<Vec<u8>> = vec![b"ab".to_vec(), b"".to_vec(), b"cde".to_vec()];
    assert_eq!(collect_output(&chunks), b"abcde".to_vec());
}

#[test]
fn output_of_no_chunks_is_empty() {
    let chunks: Vec<Vec<u8>> = Vec::new();
    assert_eq!(collect_output(&chunks), Vec::<u8>::new());
}

#[test]
fn echo_hello_yields_literal_bytes_and_success() {
    // The channel of `echo hello` yields one chunk and exit status 0: the
    // bytes handed to standard output are exactly `hello\n` and the run is
    // a success.
    let chunks: Vec<Vec<u8>> = vec![b"hello\n".to_vec()];
    assert_eq!(collect_output(&chunks), b"hello\n".to_vec());
    assert_eq!(command_result(Some(0)), Ok(()));
}
