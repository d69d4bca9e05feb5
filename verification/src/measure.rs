//! One measurement on the device, step by step.
//!
//! A measurement uploads the code, runs it, asks for the number of samples
//! and reads them back. A [`Measurement`] says which device call is due,
//! and takes what the call gave; the calls themselves are the caller's
//! part. Whatever the device answers out of line ends the measurement with
//! an error.

use vstd::prelude::*;
use crate::ioctl::{PreciseArgs, UserBuf};
use crate::sample::{samples_of, Sample};
use crate::session::{
    check_read, check_result, read_len, Operation, ProtocolError, Session, SessionState,
};

verus! {

/// How the uploaded code is run.
#[derive(Clone, Copy, Debug)]
pub enum Mode {
    /// The code runs its loop and every sample is kept.
    Bulk,
    /// The code runs once, and the sample at one retirement offset is
    /// kept.
    Precise(PreciseArgs),
}

impl Mode {
    /// The operation of the session that starts a run in this mode.
    pub open spec fn run_op(self) -> Operation {
        match self {
            Mode::Bulk => Operation::RunBulk,
            Mode::Precise(_) => Operation::RunPrecise,
        }
    }
}

/// A call to the device.
#[derive(Clone, Copy, Debug)]
pub enum Action {
    /// Upload the code that the payload describes.
    Upload(UserBuf),
    /// Run the uploaded code and keep every sample.
    RunBulk,
    /// Run the uploaded code once and sample at the offset of the payload.
    RunPrecise(PreciseArgs),
    /// Ask for the number of samples.
    SampleCount,
    /// Read `len` bytes of samples.
    Read { len: usize },
}

/// How far a measurement has come: the call whose answer it waits for.
#[derive(Clone, Copy, Debug, PartialEq, Eq, Structural)]
pub enum Phase {
    /// The upload of the code.
    Upload,
    /// The run.
    Run,
    /// The number of samples.
    Count,
    /// The read of `len` bytes of samples.
    Read { len: usize },
    /// Nothing: the samples are read.
    Done,
}

/// What the result code `code` of the call that is due in `phase` leads
/// to, for a session in `state`: the next phase and the state of the
/// session then, or the error that ends the measurement.
pub open spec fn after_code(phase: Phase, mode: Mode, state: SessionState, code: i32) -> Result<
    (Phase, SessionState),
    ProtocolError,
> {
    if !(phase is Upload || phase is Run || phase is Count) {
        Err(ProtocolError::OutOfOrder)
    } else if code < 0 {
        Err(ProtocolError::Rejected { code })
    } else {
        match phase {
            Phase::Upload => match state.spec_next(Operation::Upload) {
                Some(uploaded) => match uploaded.spec_next(mode.run_op()) {
                    Some(measuring) => Ok((Phase::Run, measuring)),
                    None => Err(ProtocolError::OutOfOrder),
                },
                None => Err(ProtocolError::OutOfOrder),
            },
            Phase::Run => match state.spec_next(Operation::Complete) {
                Some(ready) => Ok((Phase::Count, ready)),
                None => Err(ProtocolError::OutOfOrder),
            },
            _ => if code * 64 > usize::MAX {
                Err(ProtocolError::TooManySamples)
            } else {
                match state.spec_next(Operation::SampleCount) {
                    Some(ready) => Ok((Phase::Read { len: (code * 64) as usize }, ready)),
                    None => Err(ProtocolError::OutOfOrder),
                }
            },
        }
    }
}

/// What the data `data` of the read that is due in `phase` leads to, for a
/// session in `state`: the samples and the state of the session then, or
/// the error that ends the measurement.
pub open spec fn after_data(phase: Phase, state: SessionState, data: Seq<u8>) -> Result<
    (Seq<Sample>, SessionState),
    ProtocolError,
> {
    match phase {
        Phase::Read { len } => match state.spec_next(Operation::ReadSamples) {
            Some(ready) => if data.len() == len && len % 64 == 0 {
                Ok((samples_of(data), ready))
            } else {
                Err(ProtocolError::UnexpectedLength { expected: len, got: data.len() as usize })
            },
            None => Err(ProtocolError::OutOfOrder),
        },
        _ => Err(ProtocolError::OutOfOrder),
    }
}

/// A measurement in progress.
#[derive(Debug)]
pub struct Measurement {
    buf: UserBuf,
    mode: Mode,
    phase: Phase,
}

impl Measurement {
    /// The code to measure.
    pub closed spec fn buf(&self) -> UserBuf {
        self.buf
    }

    /// How the code is run.
    pub closed spec fn mode(&self) -> Mode {
        self.mode
    }

    /// How far the measurement has come.
    pub closed spec fn spec_phase(&self) -> Phase {
        self.phase
    }

    /// The call that is due in a phase.
    pub open spec fn action_in(buf: UserBuf, mode: Mode, phase: Phase) -> Option<Action> {
        match phase {
            Phase::Upload => Some(Action::Upload(buf)),
            Phase::Run => Some(
                match mode {
                    Mode::Bulk => Action::RunBulk,
                    Mode::Precise(args) => Action::RunPrecise(args),
                },
            ),
            Phase::Count => Some(Action::SampleCount),
            Phase::Read { len } => Some(Action::Read { len }),
            Phase::Done => None,
        }
    }

    /// Starts a measurement of the code that `buf` describes, on a session
    /// that can take an upload.
    pub fn begin(session: &Session, buf: UserBuf, mode: Mode) -> (r: Result<
        Measurement,
        ProtocolError,
    >)
        ensures
            session.spec_state().spec_next(Operation::Upload) is None ==> r is Err && r->Err_0
                == ProtocolError::OutOfOrder,
            session.spec_state().spec_next(Operation::Upload) is Some ==> r is Ok,
            r matches Ok(m) ==> m.buf() == buf && m.mode() == mode && m.spec_phase()
                == Phase::Upload,
    {
        match session.state().next(Operation::Upload) {
            Some(_) => Ok(Measurement { buf, mode, phase: Phase::Upload }),
            None => Err(ProtocolError::OutOfOrder),
        }
    }

    /// How far the measurement has come.
    #[verifier::when_used_as_spec(spec_phase)]
    pub fn phase(&self) -> (r: Phase)
        ensures
            r == self.spec_phase(),
    {
        self.phase
    }

    /// The call that is due: the upload, then the run, then the number of
    /// samples, then the read. `None` once the samples are read.
    pub fn action(&self) -> (r: Option<Action>)
        ensures
            r == Measurement::action_in(self.buf(), self.mode(), self.spec_phase()),
    {
        match self.phase {
            Phase::Upload => Some(Action::Upload(self.buf)),
            Phase::Run => Some(
                match self.mode {
                    Mode::Bulk => Action::RunBulk,
                    Mode::Precise(args) => Action::RunPrecise(args),
                },
            ),
            Phase::Count => Some(Action::SampleCount),
            Phase::Read { len } => Some(Action::Read { len }),
            Phase::Done => None,
        }
    }

    /// Takes the result code of the call that was due, and moves on to the
    /// next call. Where the code ends the measurement, the measurement and
    /// the session stay as they are.
    pub fn on_code(&mut self, session: &mut Session, code: i32) -> (r: Result<(), ProtocolError>)
        ensures
            final(self).buf() == old(self).buf(),
            final(self).mode() == old(self).mode(),
            final(session).spec_fd() == old(session).spec_fd(),
            match after_code(
                old(self).spec_phase(),
                old(self).mode(),
                old(session).spec_state(),
                code,
            ) {
                Ok((phase, state)) => {
                    &&& r is Ok
                    &&& final(self).spec_phase() == phase
                    &&& final(session).spec_state() == state
                },
                Err(e) => {
                    &&& r == Err::<(), ProtocolError>(e)
                    &&& final(self).spec_phase() == old(self).spec_phase()
                    &&& final(session).spec_state() == old(session).spec_state()
                },
            },
    {
        let state = session.state();
        match self.phase {
            Phase::Upload => {
                check_result(code)?;
                let run = match self.mode {
                    Mode::Bulk => Operation::RunBulk,
                    Mode::Precise(_) => Operation::RunPrecise,
                };
                let uploaded = match state.next(Operation::Upload) {
                    Some(s) => s,
                    None => {
                        return Err(ProtocolError::OutOfOrder);
                    },
                };
                if uploaded.next(run).is_none() {
                    return Err(ProtocolError::OutOfOrder);
                }
                session.advance(Operation::Upload)?;
                session.advance(run)?;
                self.phase = Phase::Run;
                Ok(())
            },
            Phase::Run => {
                check_result(code)?;
                session.advance(Operation::Complete)?;
                self.phase = Phase::Count;
                Ok(())
            },
            Phase::Count => {
                let count = check_result(code)?;
                let len = read_len(count)?;
                session.advance(Operation::SampleCount)?;
                self.phase = Phase::Read { len };
                Ok(())
            },
            _ => Err(ProtocolError::OutOfOrder),
        }
    }

    /// Takes the data of the read that was due, and gives the samples.
    /// Where the data ends the measurement, the measurement and the
    /// session stay as they are.
    pub fn on_data(&mut self, session: &mut Session, data: &[u8]) -> (r: Result<
        Vec<Sample>,
        ProtocolError,
    >)
        ensures
            final(self).buf() == old(self).buf(),
            final(self).mode() == old(self).mode(),
            final(session).spec_fd() == old(session).spec_fd(),
            match after_data(old(self).spec_phase(), old(session).spec_state(), data@) {
                Ok((samples, state)) => {
                    &&& r is Ok
                    &&& r->Ok_0@ == samples
                    &&& final(self).spec_phase() == Phase::Done
                    &&& final(session).spec_state() == state
                },
                Err(e) => {
                    &&& r is Err
                    &&& r->Err_0 == e
                    &&& final(self).spec_phase() == old(self).spec_phase()
                    &&& final(session).spec_state() == old(session).spec_state()
                },
            },
    {
        match self.phase {
            Phase::Read { len } => {
                if session.state().next(Operation::ReadSamples).is_none() {
                    return Err(ProtocolError::OutOfOrder);
                }
                let samples = check_read(len, data)?;
                session.advance(Operation::ReadSamples)?;
                self.phase = Phase::Done;
                Ok(samples)
            },
            _ => Err(ProtocolError::OutOfOrder),
        }
    }
}

/// A measurement on a session that can take an upload goes through, where
/// the device answers in line: from the upload to the samples, and the
/// session is ready for the next upload.
pub proof fn lemma_measurement_goes_through(
    mode: Mode,
    state: SessionState,
    upload: i32,
    run: i32,
    count: i32,
    data: Seq<u8>,
)
    requires
        state.spec_next(Operation::Upload) is Some,
        upload >= 0,
        run >= 0,
        count >= 0,
        data.len() == count * 64,
        count * 64 <= usize::MAX,
    ensures
        ({
            let a = after_code(Phase::Upload, mode, state, upload);
            let b = after_code(Phase::Run, mode, a->Ok_0.1, run);
            let c = after_code(Phase::Count, mode, b->Ok_0.1, count);
            let d = after_data(c->Ok_0.0, c->Ok_0.1, data);
            &&& a is Ok && a->Ok_0 == (Phase::Run, SessionState::Measuring)
            &&& b is Ok && b->Ok_0 == (Phase::Count, SessionState::Ready)
            &&& c is Ok && c->Ok_0 == (
                Phase::Read { len: (count * 64) as usize },
                SessionState::Ready,
            )
            &&& d is Ok && d->Ok_0 == (samples_of(data), SessionState::Ready)
            &&& SessionState::Ready.spec_next(Operation::Upload) is Some
        }),
{
}

} // verus!
