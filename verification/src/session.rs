//! The protocol of a session with the sampling device.
//!
//! A session is opened, then code is uploaded, run and its samples read
//! back, any number of times, and the session is closed. The device calls
//! themselves are the caller's part; this module says in what order they
//! may come and what their results mean.

use vstd::prelude::*;
use crate::sample::{decode_samples, samples_of, Sample};

verus! {

/// Error number of an open call on a path that does not exist.
pub const ENOENT: i32 = 2;

/// Error number of an open call that the caller has no right to make.
pub const EACCES: i32 = 13;

/// Where a session stands.
#[derive(Clone, Copy, Debug, PartialEq, Eq, Structural)]
pub enum SessionState {
    /// No handle to the device is held.
    Closed,
    /// A handle is held; no code is uploaded.
    Open,
    /// Code is uploaded and can be run.
    Uploaded,
    /// The uploaded code is running.
    Measuring,
    /// A run has ended and its samples can be read.
    Ready,
}

/// A step of the protocol.
#[derive(Clone, Copy, Debug, PartialEq, Eq, Structural)]
pub enum Operation {
    /// Acquire a handle to the device.
    Open,
    /// Upload the code to measure.
    Upload,
    /// Start a run that keeps every sample.
    RunBulk,
    /// Start a run that keeps the sample at one retirement offset.
    RunPrecise,
    /// The device has ended the run.
    Complete,
    /// Ask for the number of samples.
    SampleCount,
    /// Read the samples back.
    ReadSamples,
    /// Release the handle.
    Close,
}

impl Operation {
    /// Whether the operation starts a run.
    pub open spec fn is_run(self) -> bool {
        self == Operation::RunBulk || self == Operation::RunPrecise
    }
}

impl SessionState {
    /// The state after `op`, where `op` may come in this state.
    pub open spec fn spec_next(self, op: Operation) -> Option<SessionState> {
        match (self, op) {
            (SessionState::Closed, Operation::Open) => Some(SessionState::Open),
            (SessionState::Open, Operation::Upload) => Some(SessionState::Uploaded),
            (SessionState::Uploaded, Operation::Upload) => Some(SessionState::Uploaded),
            (SessionState::Ready, Operation::Upload) => Some(SessionState::Uploaded),
            (SessionState::Uploaded, Operation::RunBulk) => Some(SessionState::Measuring),
            (SessionState::Uploaded, Operation::RunPrecise) => Some(SessionState::Measuring),
            (SessionState::Measuring, Operation::Complete) => Some(SessionState::Ready),
            (SessionState::Ready, Operation::SampleCount) => Some(SessionState::Ready),
            (SessionState::Ready, Operation::ReadSamples) => Some(SessionState::Ready),
            (SessionState::Open, Operation::Close) => Some(SessionState::Closed),
            (SessionState::Uploaded, Operation::Close) => Some(SessionState::Closed),
            (SessionState::Ready, Operation::Close) => Some(SessionState::Closed),
            _ => None,
        }
    }

    /// The state after `op`, where `op` may come in this state.
    #[verifier::when_used_as_spec(spec_next)]
    pub fn next(self, op: Operation) -> (r: Option<SessionState>)
        ensures
            r == self.spec_next(op),
    {
        match (self, op) {
            (SessionState::Closed, Operation::Open) => Some(SessionState::Open),
            (SessionState::Open, Operation::Upload) => Some(SessionState::Uploaded),
            (SessionState::Uploaded, Operation::Upload) => Some(SessionState::Uploaded),
            (SessionState::Ready, Operation::Upload) => Some(SessionState::Uploaded),
            (SessionState::Uploaded, Operation::RunBulk) => Some(SessionState::Measuring),
            (SessionState::Uploaded, Operation::RunPrecise) => Some(SessionState::Measuring),
            (SessionState::Measuring, Operation::Complete) => Some(SessionState::Ready),
            (SessionState::Ready, Operation::SampleCount) => Some(SessionState::Ready),
            (SessionState::Ready, Operation::ReadSamples) => Some(SessionState::Ready),
            (SessionState::Open, Operation::Close) => Some(SessionState::Closed),
            (SessionState::Uploaded, Operation::Close) => Some(SessionState::Closed),
            (SessionState::Ready, Operation::Close) => Some(SessionState::Closed),
            _ => None,
        }
    }

    /// The state after the operations `ops` in turn, where each may come
    /// in the state that the ones before it lead to.
    pub open spec fn after(self, ops: Seq<Operation>) -> Option<SessionState>
        decreases ops.len(),
    {
        if ops.len() == 0 {
            Some(self)
        } else {
            match self.after(ops.drop_last()) {
                Some(s) => s.spec_next(ops.last()),
                None => None,
            }
        }
    }
}

/// Where a sequence of operations is in order, so is each of its
/// beginnings.
pub proof fn lemma_prefix_in_order(start: SessionState, ops: Seq<Operation>, n: int)
    requires
        start.after(ops) is Some,
        0 <= n <= ops.len(),
    ensures
        start.after(ops.take(n)) is Some,
    decreases ops.len(),
{
    if n == ops.len() {
        assert(ops.take(n) =~= ops);
    } else {
        lemma_prefix_in_order(start, ops.drop_last(), n);
        assert(ops.drop_last().take(n) =~= ops.take(n));
    }
}

/// A run starts right after an upload: in a sequence of operations that is
/// in order, the operation before a run is an upload.
pub proof fn lemma_upload_precedes_run(start: SessionState, ops: Seq<Operation>, i: int)
    requires
        start == SessionState::Closed || start == SessionState::Open,
        start.after(ops) is Some,
        0 <= i < ops.len(),
        ops[i].is_run(),
    ensures
        i > 0,
        ops[i - 1] == Operation::Upload,
{
    lemma_prefix_in_order(start, ops, i + 1);
    let upto = ops.take(i + 1);
    assert(upto.last() == ops[i]);
    assert(upto.drop_last() =~= ops.take(i));
    let before = start.after(ops.take(i));
    assert(before == Some(SessionState::Uploaded));
    if i == 0 {
        assert(ops.take(0).len() == 0);
    } else {
        let pre = ops.take(i);
        assert(pre.last() == ops[i - 1]);
    }
}

/// Samples are read after a run: in a sequence of operations that is in
/// order, a count or a read of samples has the end of a run before it, with
/// no upload in between.
pub proof fn lemma_run_precedes_read(start: SessionState, ops: Seq<Operation>, i: int)
    requires
        start == SessionState::Closed || start == SessionState::Open,
        start.after(ops) is Some,
        0 <= i < ops.len(),
        ops[i] == Operation::SampleCount || ops[i] == Operation::ReadSamples,
    ensures
        exists|j: int|
            0 <= j < i && ops[j] == Operation::Complete && forall|k: int|
                j < k < i ==> ops[k] == Operation::SampleCount || ops[k] == Operation::ReadSamples,
    decreases i,
{
    lemma_prefix_in_order(start, ops, i + 1);
    let upto = ops.take(i + 1);
    assert(upto.last() == ops[i]);
    assert(upto.drop_last() =~= ops.take(i));
    assert(start.after(ops.take(i)) == Some(SessionState::Ready));
    if i == 0 {
        assert(ops.take(0).len() == 0);
    } else {
        let pre = ops.take(i);
        assert(pre.last() == ops[i - 1]);
        if ops[i - 1] == Operation::Complete {
            assert(0 <= i - 1 < i && ops[i - 1] == Operation::Complete);
        } else {
            lemma_run_precedes_read(start, ops, i - 1);
            let j = choose|j: int|
                0 <= j < i - 1 && ops[j] == Operation::Complete && forall|k: int|
                    j < k < i - 1 ==> ops[k] == Operation::SampleCount || ops[k]
                        == Operation::ReadSamples;
            assert(0 <= j < i && ops[j] == Operation::Complete);
        }
    }
}

/// Why the device could not be opened.
#[derive(Clone, Copy, Debug, PartialEq, Eq, Structural)]
pub enum OpenError {
    /// The device is not there: the kernel module is not loaded.
    ModuleNotLoaded,
    /// The caller may not open the device.
    PermissionDenied,
    /// Any other failure, with its error number. Nothing can be done
    /// about it.
    Fatal(i32),
}

impl OpenError {
    /// The error that the error number of a failed open call stands for.
    pub open spec fn of_errno(errno: i32) -> OpenError {
        if errno == ENOENT {
            OpenError::ModuleNotLoaded
        } else if errno == EACCES {
            OpenError::PermissionDenied
        } else {
            OpenError::Fatal(errno)
        }
    }

    /// The error that the error number of a failed open call stands for.
    pub fn from_errno(errno: i32) -> (r: OpenError)
        ensures
            r == OpenError::of_errno(errno),
    {
        if errno == ENOENT {
            OpenError::ModuleNotLoaded
        } else if errno == EACCES {
            OpenError::PermissionDenied
        } else {
            OpenError::Fatal(errno)
        }
    }

    /// Whether the caller can do something about the error.
    pub fn is_recoverable(&self) -> (r: bool)
        ensures
            r == !(self is Fatal),
    {
        match self {
            OpenError::Fatal(_) => false,
            _ => true,
        }
    }

    /// The error in words, for the errors that have a name.
    pub open spec fn message_text(self) -> Seq<char> {
        match self {
            OpenError::ModuleNotLoaded => "Kernel module not loaded?"@,
            OpenError::PermissionDenied => "Permission denied - are you root?"@,
            OpenError::Fatal(_) => "Couldn't open the device"@,
        }
    }

    /// The error in words.
    pub fn message(&self) -> (r: &'static str)
        ensures
            r@ == self.message_text(),
    {
        match self {
            OpenError::ModuleNotLoaded => "Kernel module not loaded?",
            OpenError::PermissionDenied => "Permission denied - are you root?",
            OpenError::Fatal(_) => "Couldn't open the device",
        }
    }
}

/// A violation of the protocol. None of them can be recovered from: the
/// device and its caller are out of step.
#[derive(Clone, Copy, Debug, PartialEq, Eq, Structural)]
pub enum ProtocolError {
    /// The operation may not come in the state of the session.
    OutOfOrder,
    /// The device answered a request with a negative result code.
    Rejected { code: i32 },
    /// The number of samples is greater than a read can hold.
    TooManySamples,
    /// A run left no sample.
    NoSamples,
    /// The device reports more samples than it can hold.
    OverCapacity { count: usize },
    /// A read gave another number of bytes than the samples take.
    UnexpectedLength { expected: usize, got: usize },
}

/// A session with the sampling device: the handle and the state of the
/// protocol.
#[derive(Debug)]
pub struct Session {
    fd: i32,
    state: SessionState,
}

impl Session {
    /// The handle to the device.
    pub closed spec fn spec_fd(&self) -> i32 {
        self.fd
    }

    /// Where the session stands.
    pub closed spec fn spec_state(&self) -> SessionState {
        self.state
    }

    /// A session on the freshly opened handle `fd`.
    pub fn open(fd: i32) -> (r: Session)
        ensures
            r.spec_fd() == fd,
            r.spec_state() == SessionState::Open,
            Some(r.spec_state()) == SessionState::Closed.spec_next(Operation::Open),
    {
        Session { fd, state: SessionState::Open }
    }

    /// The handle to the device.
    #[verifier::when_used_as_spec(spec_fd)]
    pub fn fd(&self) -> (r: i32)
        ensures
            r == self.spec_fd(),
    {
        self.fd
    }

    /// Where the session stands.
    #[verifier::when_used_as_spec(spec_state)]
    pub fn state(&self) -> (r: SessionState)
        ensures
            r == self.spec_state(),
    {
        self.state
    }

    /// Takes the session through `op`. An operation that may not come in
    /// the state of the session is refused, and the session stays as it is.
    pub fn advance(&mut self, op: Operation) -> (r: Result<(), ProtocolError>)
        ensures
            final(self).spec_fd() == old(self).spec_fd(),
            match old(self).spec_state().spec_next(op) {
                Some(s) => r is Ok && final(self).spec_state() == s,
                None => r == Err::<(), ProtocolError>(ProtocolError::OutOfOrder)
                    && final(self).spec_state() == old(self).spec_state(),
            },
    {
        match self.state.next(op) {
            Some(s) => {
                self.state = s;
                Ok(())
            },
            None => Err(ProtocolError::OutOfOrder),
        }
    }
}

/// Checks the result code of a request: a negative code is a violation of
/// the protocol, any other is handed on.
pub fn check_result(code: i32) -> (r: Result<usize, ProtocolError>)
    ensures
        code >= 0 ==> r == Ok::<usize, ProtocolError>(code as usize),
        code < 0 ==> r == Err::<usize, ProtocolError>(ProtocolError::Rejected { code }),
{
    if code < 0 {
        Err(ProtocolError::Rejected { code })
    } else {
        Ok(code as usize)
    }
}

/// The number of samples that the device reports with `code`, for a
/// caller that needs at least one and knows that the device holds
/// `capacity` at most.
pub fn checked_sample_count(code: i32, capacity: usize) -> (r: Result<usize, ProtocolError>)
    ensures
        code < 0 ==> r == Err::<usize, ProtocolError>(ProtocolError::Rejected { code }),
        code == 0 ==> r == Err::<usize, ProtocolError>(ProtocolError::NoSamples),
        code > capacity ==> r == Err::<usize, ProtocolError>(
            ProtocolError::OverCapacity { count: code as usize },
        ),
        0 < code <= capacity ==> r == Ok::<usize, ProtocolError>(code as usize),
{
    let count = check_result(code)?;
    if count == 0 {
        Err(ProtocolError::NoSamples)
    } else if count > capacity {
        Err(ProtocolError::OverCapacity { count })
    } else {
        Ok(count)
    }
}

/// The number of bytes to read for `count` samples, where a read can
/// hold that many.
pub fn read_len(count: usize) -> (r: Result<usize, ProtocolError>)
    ensures
        count * 64 > usize::MAX ==> r == Err::<usize, ProtocolError>(
            ProtocolError::TooManySamples,
        ),
        count * 64 <= usize::MAX ==> r == Ok::<usize, ProtocolError>((count * 64) as usize),
{
    match crate::sample::wire_len(count) {
        Some(n) => Ok(n),
        None => Err(ProtocolError::TooManySamples),
    }
}

/// The samples that a read of `data` gave, where `expected` bytes were to
/// come: exactly that many bytes, a whole number of records.
pub fn check_read(expected: usize, data: &[u8]) -> (r: Result<Vec<Sample>, ProtocolError>)
    ensures
        r is Ok <==> data@.len() == expected && expected % 64 == 0,
        r matches Ok(v) ==> v@ == samples_of(data@),
        r matches Err(e) ==> e == (ProtocolError::UnexpectedLength {
            expected,
            got: data@.len() as usize,
        }),
{
    if data.len() != expected {
        return Err(ProtocolError::UnexpectedLength { expected, got: data.len() });
    }
    match decode_samples(data) {
        Some(v) => Ok(v),
        None => Err(ProtocolError::UnexpectedLength { expected, got: data.len() }),
    }
}

/// The value of a hexadecimal digit, in either case.
pub open spec fn hex_digit_value(b: u8) -> Option<nat> {
    if 0x30 <= b <= 0x39 {
        Some((b - 0x30) as nat)
    } else if 0x61 <= b <= 0x66 {
        Some((b - 0x61 + 10) as nat)
    } else if 0x41 <= b <= 0x46 {
        Some((b - 0x41 + 10) as nat)
    } else {
        None
    }
}

/// The number that a sequence of hexadecimal digits stands for.
pub open spec fn hex_value(digits: Seq<u8>) -> nat
    decreases digits.len(),
{
    if digits.len() == 0 {
        0
    } else {
        16 * hex_value(digits.drop_last()) + match hex_digit_value(digits.last()) {
            Some(d) => d,
            None => 0,
        }
    }
}

/// The digits of a base address as the device publishes it: what stands
/// between the two characters of the prefix and the newline at the end.
pub open spec fn address_digits(text: Seq<u8>) -> Seq<u8> {
    text.subrange(2, text.len() - 1)
}

/// Whether `text` is a base address as the device publishes it: a prefix
/// of two characters, at least one hexadecimal digit, and a newline.
pub open spec fn is_address_text(text: Seq<u8>) -> bool {
    &&& text.len() >= 4
    &&& text.last() == 0x0a
    &&& forall|i: int| 2 <= i < text.len() - 1 ==> hex_digit_value(#[trigger] text[i]) is Some
}

/// The value of a sequence of digits is no smaller than that of any of
/// its beginnings.
pub proof fn lemma_hex_value_grows(digits: Seq<u8>, n: int)
    requires
        0 <= n <= digits.len(),
    ensures
        hex_value(digits.take(n)) <= hex_value(digits),
    decreases digits.len(),
{
    if n == digits.len() {
        assert(digits.take(n) =~= digits);
    } else {
        lemma_hex_value_grows(digits.drop_last(), n);
        assert(digits.drop_last().take(n) =~= digits.take(n));
    }
}

/// The value of a hexadecimal digit, in either case.
pub fn hex_digit(b: u8) -> (r: Option<u8>)
    ensures
        r is Some <==> hex_digit_value(b) is Some,
        r matches Some(d) ==> hex_digit_value(b) == Some(d as nat) && d < 16,
{
    if 0x30 <= b && b <= 0x39 {
        Some(b - 0x30)
    } else if 0x61 <= b && b <= 0x66 {
        Some(b - 0x61 + 10)
    } else if 0x41 <= b && b <= 0x46 {
        Some(b - 0x41 + 10)
    } else {
        None
    }
}

/// Reads the base address of the code buffer from the text in which the
/// device publishes it. `None` where the text is not of that form or the
/// number does not fit an address.
pub fn parse_base_address(text: &[u8]) -> (r: Option<u64>)
    ensures
        r is Some <==> is_address_text(text@) && hex_value(address_digits(text@)) <= u64::MAX,
        r matches Some(a) ==> a == hex_value(address_digits(text@)),
{
    let n = text.len();
    if n < 4 || text[n - 1] != 0x0a {
        return None;
    }
    let ghost digits = address_digits(text@);
    let mut value: u64 = 0;
    let mut i: usize = 2;
    proof {
        assert(digits.take(0) =~= Seq::<u8>::empty());
    }
    while i < n - 1
        invariant
            2 <= i <= n - 1,
            n == text@.len(),
            n >= 4,
            text@.last() == 0x0a,
            digits == address_digits(text@),
            forall|j: int| 2 <= j < i ==> hex_digit_value(#[trigger] text@[j]) is Some,
            value == hex_value(digits.take(i - 2)),
        decreases n - i,
    {
        let d = match hex_digit(text[i]) {
            Some(d) => d,
            None => {
                return None;
            },
        };
        proof {
            let upto = digits.take(i - 1);
            assert(upto.drop_last() =~= digits.take(i - 2));
            assert(upto.last() == text@[i as int]);
            lemma_hex_value_grows(digits, i - 1);
        }
        if value > (u64::MAX - d as u64) / 16 {
            return None;
        }
        value = value * 16 + d as u64;
        i += 1;
    }
    proof {
        assert(digits.take(n - 3) =~= digits);
    }
    Some(value)
}

} // verus!
