//! What to make of the result of a system call.

use vstd::prelude::*;

verus! {

/// The two ends of a pipe.
#[derive(Debug, Clone, Copy, PartialEq, Eq, Structural)]
pub struct Pipe {
    pub reader: i32,
    pub writer: i32,
}

/// Which process this is after a fork.
#[derive(Debug, Clone, Copy, PartialEq, Eq, Structural)]
pub enum Fork {
    Child,
    Parent(i32),
}

/// What to do after a system call.
#[derive(Debug, Clone, Copy, PartialEq, Eq, Structural)]
pub enum Verdict {
    /// The call went well; this is what it returned.
    Done(i64),
    /// The call was interrupted: make it again.
    Again,
    /// The call failed.
    Failed,
}

/// What to do after a system call that returned `ret`, where `interrupted`
/// says whether the error of the system is that of an interrupted call: a
/// call fails by returning -1, and an interrupted call is made again.
pub fn try_os(ret: i64, interrupted: bool) -> (verdict: Verdict)
    ensures
        verdict == if ret != -1 {
            Verdict::Done(ret)
        } else if interrupted {
            Verdict::Again
        } else {
            Verdict::Failed
        },
{
    if ret == -1 {
        if interrupted {
            Verdict::Again
        } else {
            Verdict::Failed
        }
    } else {
        Verdict::Done(ret)
    }
}

/// The two ends of a pipe as the system hands them out: the reading end
/// first.
pub fn pipe(fds: [i32; 2]) -> (pipe: Pipe)
    ensures
        pipe == (Pipe { reader: fds@[0], writer: fds@[1] }),
{
    Pipe { reader: fds[0], writer: fds[1] }
}

/// Which process this is, by what the fork returned: the child gets 0, and
/// the parent the number of the child.
pub fn fork(pid: i32) -> (fork: Fork)
    ensures
        fork == if pid == 0 {
            Fork::Child
        } else {
            Fork::Parent(pid)
        },
{
    if pid == 0 {
        Fork::Child
    } else {
        Fork::Parent(pid)
    }
}

} // verus!
