use async_read_length_limit::{
    clamp_request, debit, ByteSource, FaultySource, LengthLimit, LengthLimitExt, ReadError,
    SliceSource, SourceFault,
};

const MAX_MEMORY_TO_ALLOCATE: usize = 1024 * 1024;
const ITERATIONS: usize = 1000;

fn random_data() -> Vec<u8> {
    std::iter::repeat_with(|| fastrand::u8(..))
        .take(MAX_MEMORY_TO_ALLOCATE)
        .collect()
}

#[test]
pub fn under_limit() {
    let data = random_data();

    for _ in 0..ITERATIONS {
        let limit = fastrand::usize(2..MAX_MEMORY_TO_ALLOCATE);
        let input_length = fastrand::usize(1..limit);
        let input = &data[..input_length];
        let cursor = SliceSource::new(input.to_vec());
        let mut output = Vec::new();
        let result = cursor.limit_bytes(limit).read_to_end(&mut output);
        assert_eq!(input_length, result.unwrap());
        assert_eq!(input_length, output.len());
        assert_eq!(output, input);
    }
}

#[test]
pub fn benchmark_comparison_to_just_async_read() {
    // this does not exercise the limiter, but should be roughly comparable
    // to the other tests
    let data = random_data();

    for _ in 0..ITERATIONS {
        let input_length = fastrand::usize(1..MAX_MEMORY_TO_ALLOCATE);
        let input = &data[..input_length];
        let mut cursor = SliceSource::new(input.to_vec());
        let mut output: Vec<u8> = Vec::new();
        loop {
            let chunk = cursor.read(MAX_MEMORY_TO_ALLOCATE).unwrap();
            if chunk.is_empty() {
                break;
            }
            output.extend_from_slice(&chunk);
        }
        assert_eq!(input_length, output.len());
        assert_eq!(output, input);
    }
}

#[test]
pub fn over_limit() {
    let data = random_data();

    for _ in 0..ITERATIONS {
        let limit = fastrand::usize(1..MAX_MEMORY_TO_ALLOCATE - 1);
        let input_length = fastrand::usize(limit..MAX_MEMORY_TO_ALLOCATE);
        let input = &data[..input_length];
        let cursor = SliceSource::new(input.to_vec());
        let mut output = Vec::new();
        let result = cursor.limit_bytes(limit).read_to_end(&mut output);
        assert!(result.is_err());
        assert_eq!(output.len(), limit);
        assert_eq!(output, &input[..limit]);
    }
}

#[test]
pub fn eq_limit() {
    let data = random_data();

    for _ in 0..ITERATIONS {
        let limit = fastrand::usize(1..MAX_MEMORY_TO_ALLOCATE);
        let input_length = limit;
        let input = &data[..input_length];
        let cursor = SliceSource::new(input.to_vec());
        let mut output = Vec::new();
        let result = cursor.limit_bytes(limit).read_to_end(&mut output);
        assert!(result.is_err());
        assert_eq!(output.len(), limit);
        assert_eq!(output, &input[..limit]);
    }
}

#[test]
pub fn unit_conversions() {
    assert_eq!(SliceSource::new(Vec::new()).limit_kb(1).bytes_remaining(), 1024);
    assert_eq!(
        SliceSource::new(Vec::new()).limit_mb(1).bytes_remaining(),
        1024 * 1024
    );
    assert_eq!(
        SliceSource::new(Vec::new()).limit_gb(1).bytes_remaining(),
        1024 * 1024 * 1024
    );
}

#[test]
pub fn other_interfaces() {
    let cursor = SliceSource::new(vec![b'b']);
    let length_limit = LengthLimit::new(cursor, 100);
    assert_eq!(
        length_limit.bytes_remaining(),
        length_limit.clone().bytes_remaining()
    );
    assert_eq!(
        r#"LengthLimit {
    reader: SliceSource {
        data: [
            98,
        ],
        pos: 0,
    },
    bytes_remaining: 100,
}"#,
        &format!("{length_limit:#?}")
    );
    assert_eq!(length_limit.as_ref().get_ref(), &vec![b'b']);
    assert_eq!(length_limit.into_inner().into_inner(), vec![b'b']);
}

#[test]
pub fn error() {
    let cursor = SliceSource::new(b"these are the data".to_vec());
    let mut output = Vec::new();
    let result = cursor.limit_bytes(5).read_to_end(&mut output);
    let err = result.unwrap_err();
    assert!(err.is_limit_exceeded());
    match err {
        ReadError::LimitExceeded(signal) => {
            assert_eq!("Length limit exceeded", signal.message());
        }
        ReadError::Source(_) => panic!("wrong error variant"),
    }
    assert_eq!(output, b"these");
}

#[test]
pub fn over_limit_scenario() {
    let cursor = SliceSource::new(b"these are the input data".to_vec());
    let mut output = Vec::new();
    let result = cursor.limit_bytes(5).read_to_end(&mut output);
    let err = result.unwrap_err();
    assert!(err.is_limit_exceeded());
    assert_eq!(output, b"these");
}

#[test]
pub fn under_limit_scenario() {
    let cursor = SliceSource::new(b"these are the input data".to_vec());
    let mut output = Vec::new();
    let result = cursor.limit_kb(1).read_to_end(&mut output);
    assert_eq!(result.unwrap(), 24);
    assert_eq!(output, b"these are the input data");
}

#[test]
pub fn exact_limit_zero() {
    let cursor = SliceSource::new(Vec::new());
    let mut output = Vec::new();
    let result = cursor.limit_bytes(0).read_to_end(&mut output);
    let err = result.unwrap_err();
    assert!(err.is_limit_exceeded());
    assert!(output.is_empty());
}

#[test]
pub fn source_fault_forwarded_unchanged() {
    let source = FaultySource::new(b"ab".to_vec(), SourceFault { code: 42 });
    let mut limited = LengthLimit::new(source, 10);
    let mut output = Vec::new();
    let result = limited.read_to_end(&mut output);
    match result.unwrap_err() {
        ReadError::Source(fault) => assert_eq!(fault.code, 42),
        ReadError::LimitExceeded(_) => panic!("source fault was reclassified"),
    }
    assert_eq!(output, b"ab");
    assert_eq!(limited.bytes_remaining(), 8);
}

#[test]
pub fn budget_is_non_increasing_across_steps() {
    let cursor = SliceSource::new(b"0123456789".to_vec());
    let mut limited = LengthLimit::new(cursor, 7);
    let mut budgets = vec![limited.bytes_remaining()];
    loop {
        let step = limited.read(3);
        budgets.push(limited.bytes_remaining());
        match step {
            Ok(chunk) => assert!(!chunk.is_empty()),
            Err(err) => {
                assert!(err.is_limit_exceeded());
                break;
            }
        }
    }
    for pair in budgets.windows(2) {
        assert!(pair[0] >= pair[1]);
    }
    assert_eq!(budgets, vec![7, 4, 1, 0, 0]);
}

#[test]
pub fn exhausted_reader_keeps_failing() {
    let cursor = SliceSource::new(b"xyz".to_vec());
    let mut limited = LengthLimit::new(cursor, 3);
    let mut output = Vec::new();
    assert!(limited.read_to_end(&mut output).is_err());
    assert_eq!(output, b"xyz");
    assert!(limited.read(1).is_err());
    assert!(limited.read(0).is_err());
    assert_eq!(limited.bytes_remaining(), 0);
}

#[test]
pub fn end_of_stream_before_limit_is_success() {
    let cursor = SliceSource::new(b"hi".to_vec());
    let mut limited = LengthLimit::new(cursor, 3);
    let chunk = limited.read(1).unwrap();
    assert_eq!(chunk, b"h");
    let chunk = limited.read(10).unwrap();
    assert_eq!(chunk, b"i");
    let chunk = limited.read(10).unwrap();
    assert!(chunk.is_empty());
    assert_eq!(limited.bytes_remaining(), 1);
}

#[test]
pub fn clamp_request_decides_the_step() {
    assert_eq!(clamp_request(0, 5), Err(async_read_length_limit::LengthLimitExceeded));
    assert_eq!(clamp_request(0, 0), Err(async_read_length_limit::LengthLimitExceeded));
    assert_eq!(clamp_request(10, 3), Ok(3));
    assert_eq!(clamp_request(2, 7), Ok(2));
    assert_eq!(clamp_request(4, 4), Ok(4));
}

#[test]
pub fn debit_saturates_at_zero() {
    assert_eq!(debit(10, 4), 6);
    assert_eq!(debit(4, 4), 0);
    assert_eq!(debit(3, 9), 0);
    assert_eq!(debit(5, 0), 5);
}
