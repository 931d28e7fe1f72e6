//! How the process that starts the server learns that the server is ready:
//! the server writes one end of line into a pipe, and the starter waits for
//! exactly that.

use vstd::prelude::*;
use crate::ffi::Fork;

verus! {

/// The byte that tells that the server is ready.
pub const READY: u8 = 10;

/// Something else than the sign of readiness came through the pipe, or
/// nothing.
#[derive(Debug, PartialEq, Eq, Structural)]
pub struct ProtocolError;

/// The end of the pipe that waits.
#[derive(Debug)]
pub struct ReadinessWaiter {}

/// The end of the pipe that tells.
#[derive(Debug)]
pub struct ReadinessNotifier {}

/// Which of the two processes this is after the server has been put in the
/// background.
#[derive(Debug)]
pub enum Daemonize {
    Parent(ReadinessWaiter),
    Child(ReadinessNotifier),
}

impl ReadinessWaiter {
    /// Whether what a read of one byte brought tells that the server is
    /// ready: `bytes` were read, and `first` is the one that was read if any
    /// was.
    pub fn wait(self, bytes: usize, first: u8) -> (r: Result<(), ProtocolError>)
        ensures
            r is Ok <==> bytes == 1 && first == READY,
    {
        if bytes == 1 && first == READY {
            Ok(())
        } else {
            Err(ProtocolError)
        }
    }
}

impl ReadinessNotifier {
    /// What is written to tell that the server is ready.
    pub fn notify(self) -> (bytes: [u8; 1])
        ensures
            bytes@ == seq![READY],
    {
        let bytes: [u8; 1] = [READY];
        assert(bytes@ =~= seq![READY]);
        bytes
    }
}

/// The end of the pipe that each process keeps after the fork: the parent
/// waits for the sign of readiness, and the child gives it.
pub fn daemonize(fork: Fork) -> (r: Daemonize)
    ensures
        r is Child <==> fork is Child,
{
    match fork {
        Fork::Child => Daemonize::Child(ReadinessNotifier {  }),
        Fork::Parent(_) => Daemonize::Parent(ReadinessWaiter {  }),
    }
}

} // verus!
