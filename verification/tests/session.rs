use ibst::session::Operation::{
    Close, Complete, Open, ReadSamples, RunBulk, RunPrecise, SampleCount, Upload,
};
use ibst::session::{
    check_read, check_result, checked_sample_count, hex_digit, parse_base_address, read_len,
    OpenError, Operation, ProtocolError, Session, SessionState, EACCES, ENOENT,
};

fn run(start: SessionState, ops: &[Operation]) -> Option<SessionState> {
    let mut state = start;
    for op in ops {
        state = state.next(*op)?;
    }
    Some(state)
}

#[test]
fn open_errors_by_error_number() {
    assert_eq!((ENOENT, EACCES), (2, 13));
    assert_eq!(OpenError::from_errno(ENOENT), OpenError::ModuleNotLoaded);
    assert_eq!(OpenError::from_errno(EACCES), OpenError::PermissionDenied);
    assert_eq!(OpenError::from_errno(5), OpenError::Fatal(5));
    assert_eq!(OpenError::from_errno(0), OpenError::Fatal(0));
    assert_eq!(OpenError::from_errno(-1), OpenError::Fatal(-1));
    assert!(OpenError::ModuleNotLoaded.is_recoverable());
    assert!(OpenError::PermissionDenied.is_recoverable());
    assert!(!OpenError::Fatal(5).is_recoverable());
    assert_eq!(OpenError::ModuleNotLoaded.message(), "Kernel module not loaded?");
    assert_eq!(OpenError::PermissionDenied.message(), "Permission denied - are you root?");
    assert_eq!(OpenError::Fatal(5).message(), "Couldn't open the device");
}

#[test]
fn a_measurement_goes_through_the_states() {
    assert_eq!(SessionState::Closed.next(Open), Some(SessionState::Open));
    assert_eq!(SessionState::Open.next(Upload), Some(SessionState::Uploaded));
    assert_eq!(SessionState::Uploaded.next(RunBulk), Some(SessionState::Measuring));
    assert_eq!(SessionState::Uploaded.next(RunPrecise), Some(SessionState::Measuring));
    assert_eq!(SessionState::Measuring.next(Complete), Some(SessionState::Ready));
    assert_eq!(SessionState::Ready.next(SampleCount), Some(SessionState::Ready));
    assert_eq!(SessionState::Ready.next(ReadSamples), Some(SessionState::Ready));
    assert_eq!(SessionState::Ready.next(Upload), Some(SessionState::Uploaded));
    assert_eq!(SessionState::Ready.next(Close), Some(SessionState::Closed));
    assert_eq!(
        run(
            SessionState::Closed,
            &[
                Open, Upload, RunBulk, Complete, SampleCount, ReadSamples, Upload, RunPrecise,
                Complete, SampleCount, ReadSamples, Close
            ]
        ),
        Some(SessionState::Closed)
    );
}

#[test]
fn operations_out_of_order_are_refused() {
    // a run needs an upload
    assert_eq!(SessionState::Open.next(RunBulk), None);
    assert_eq!(SessionState::Open.next(RunPrecise), None);
    assert_eq!(SessionState::Ready.next(RunBulk), None);
    // samples are read after a run
    assert_eq!(SessionState::Open.next(ReadSamples), None);
    assert_eq!(SessionState::Uploaded.next(ReadSamples), None);
    assert_eq!(SessionState::Uploaded.next(SampleCount), None);
    assert_eq!(SessionState::Measuring.next(ReadSamples), None);
    // nothing but opening on a closed session, and no opening twice
    for op in [Upload, RunBulk, RunPrecise, Complete, SampleCount, ReadSamples, Close] {
        assert_eq!(SessionState::Closed.next(op), None);
    }
    for state in [SessionState::Open, SessionState::Uploaded, SessionState::Measuring, SessionState::Ready] {
        assert_eq!(state.next(Open), None);
    }
    // a running measurement can only end
    for op in [Open, Upload, RunBulk, RunPrecise, SampleCount, ReadSamples, Close] {
        assert_eq!(SessionState::Measuring.next(op), None);
    }
    assert_eq!(run(SessionState::Closed, &[Open, Upload, RunBulk, ReadSamples]), None);
    assert_eq!(run(SessionState::Closed, &[Open, RunBulk]), None);
}

#[test]
fn session_keeps_its_state_when_it_refuses() {
    let mut s = Session::open(7);
    assert_eq!(s.fd(), 7);
    assert_eq!(s.state(), SessionState::Open);
    assert_eq!(s.advance(Operation::RunBulk), Err(ProtocolError::OutOfOrder));
    assert_eq!(s.state(), SessionState::Open);
    assert_eq!(s.advance(Operation::Upload), Ok(()));
    assert_eq!(s.state(), SessionState::Uploaded);
    assert_eq!(s.advance(Operation::ReadSamples), Err(ProtocolError::OutOfOrder));
    assert_eq!(s.state(), SessionState::Uploaded);
    assert_eq!(s.advance(Operation::RunPrecise), Ok(()));
    assert_eq!(s.advance(Operation::Complete), Ok(()));
    assert_eq!(s.advance(Operation::SampleCount), Ok(()));
    assert_eq!(s.advance(Operation::ReadSamples), Ok(()));
    assert_eq!(s.state(), SessionState::Ready);
    assert_eq!(s.advance(Operation::Close), Ok(()));
    assert_eq!(s.state(), SessionState::Closed);
    assert_eq!(s.advance(Operation::Close), Err(ProtocolError::OutOfOrder));
    assert_eq!(s.fd(), 7);
}

#[test]
fn negative_result_codes_are_violations() {
    assert_eq!(check_result(0), Ok(0));
    assert_eq!(check_result(17), Ok(17));
    assert_eq!(check_result(i32::MAX), Ok(i32::MAX as usize));
    assert_eq!(check_result(-1), Err(ProtocolError::Rejected { code: -1 }));
    assert_eq!(check_result(i32::MIN), Err(ProtocolError::Rejected { code: i32::MIN }));
}

#[test]
fn read_len_is_count_times_record_size() {
    assert_eq!(read_len(0), Ok(0));
    assert_eq!(read_len(1), Ok(64));
    assert_eq!(read_len(256), Ok(16384));
    assert_eq!(read_len(i32::MAX as usize), Ok(i32::MAX as usize * 64));
    assert_eq!(read_len(usize::MAX / 64), Ok(usize::MAX / 64 * 64));
    assert_eq!(read_len(usize::MAX / 64 + 1), Err(ProtocolError::TooManySamples));
    assert_eq!(read_len(usize::MAX), Err(ProtocolError::TooManySamples));
    assert_eq!(check_result(3).and_then(read_len), Ok(192));
    assert_eq!(check_result(-22).and_then(read_len), Err(ProtocolError::Rejected { code: -22 }));
}

#[test]
fn sample_count_within_capacity() {
    assert_eq!(checked_sample_count(1, 256), Ok(1));
    assert_eq!(checked_sample_count(256, 256), Ok(256));
    assert_eq!(checked_sample_count(257, 256), Err(ProtocolError::OverCapacity { count: 257 }));
    assert_eq!(checked_sample_count(0, 256), Err(ProtocolError::NoSamples));
    assert_eq!(checked_sample_count(-5, 256), Err(ProtocolError::Rejected { code: -5 }));
}

#[test]
fn check_read_wants_the_exact_length() {
    let mut data = vec![0u8; 128];
    data[8] = 0x34;
    data[9] = 0x12;
    data[64 + 8] = 0x78;
    let samples = check_read(128, &data).unwrap();
    assert_eq!(samples.len(), 2);
    assert_eq!(samples[0].rip, 0x1234);
    assert_eq!(samples[1].rip, 0x78);
    assert_eq!(check_read(0, &[]).map(|v| v.len()), Ok(0));
    assert_eq!(
        check_read(128, &data[..64]).unwrap_err(),
        ProtocolError::UnexpectedLength { expected: 128, got: 64 }
    );
    assert_eq!(
        check_read(64, &data).unwrap_err(),
        ProtocolError::UnexpectedLength { expected: 64, got: 128 }
    );
    assert_eq!(
        check_read(100, &data[..100]).unwrap_err(),
        ProtocolError::UnexpectedLength { expected: 100, got: 100 }
    );
}

#[test]
fn hex_digits_in_either_case() {
    assert_eq!(hex_digit(b'0'), Some(0));
    assert_eq!(hex_digit(b'9'), Some(9));
    assert_eq!(hex_digit(b'a'), Some(10));
    assert_eq!(hex_digit(b'f'), Some(15));
    assert_eq!(hex_digit(b'A'), Some(10));
    assert_eq!(hex_digit(b'F'), Some(15));
    for b in [b'g', b'G', b'/', b':', b'@', b'`', b' ', b'\n', b'x', b'+', b'-', 0u8, 0xff] {
        assert_eq!(hex_digit(b), None);
    }
}

#[test]
fn base_address_is_read_from_its_text() {
    assert_eq!(parse_base_address(b"0xffffffffc0a21000\n"), Some(0xffff_ffff_c0a2_1000));
    assert_eq!(parse_base_address(b"0x0\n"), Some(0));
    assert_eq!(parse_base_address(b"0x1F\n"), Some(0x1f));
    assert_eq!(parse_base_address(b"0x00000000000000000001\n"), Some(1));
    assert_eq!(parse_base_address(b"0xffffffffffffffff\n"), Some(u64::MAX));
    // the two characters of the prefix are passed over, whatever they are
    assert_eq!(parse_base_address(b"??10\n"), Some(0x10));
}

#[test]
fn base_address_text_of_another_form_is_refused() {
    assert_eq!(parse_base_address(b""), None);
    assert_eq!(parse_base_address(b"0x\n"), None);
    assert_eq!(parse_base_address(b"0x10"), None);
    assert_eq!(parse_base_address(b"0x1g\n"), None);
    assert_eq!(parse_base_address(b"0x 10\n"), None);
    assert_eq!(parse_base_address(b"0x+10\n"), None);
    assert_eq!(parse_base_address(b"0x10\n\n"), None);
    assert_eq!(parse_base_address(b"0x10000000000000000\n"), None);
    assert_eq!(parse_base_address(b"0xfffffffffffffffff\n"), None);
    assert_eq!(parse_base_address(b"\n"), None);
}
