//! Threads: the decisions of a `std::thread`-like layer over pthreads.
//!
//! The pthread functions report failure by returning an `errno` value
//! directly (`0` on success); they do not set the thread-local `errno`. So
//! their results map to [`Error::Os`]`(`[`Errno`]`(rc))`.
use vstd::prelude::*;

use crate::error::{Errno, Error, EINVAL};

verus! {

/// Turn a pthread-style return code into a [`Result`].
pub fn cvt_pthread(rc: i32) -> (r: Result<(), Error>)
    ensures
        rc == 0 ==> r is Ok,
        rc != 0 ==> r == Err::<(), Error>(Error::Os(Errno(rc))),
{
    if rc == 0 {
        Ok(())
    } else {
        Err(Error::Os(Errno(rc)))
    }
}

/// Thread-creation settings (mirrors `std::thread::Builder`).
///
/// The main reason to set one is the stack size: the default per-thread stack
/// is large and implementation-defined, so a server that runs one thread per
/// connection should cap it.
#[derive(Clone, Copy, Debug, Default, PartialEq, Eq)]
pub struct Builder {
    stack_size: Option<usize>,
}

impl Builder {
    /// A builder with default thread attributes.
    pub fn new() -> (b: Builder)
        ensures
            b.spec_stack_size() is None,
    {
        Builder { stack_size: None }
    }

    /// Set the new thread's stack size, in bytes.
    pub fn stack_size(self, size: usize) -> (b: Builder)
        ensures
            b.spec_stack_size() == Some(size),
    {
        Builder { stack_size: Some(size) }
    }

    /// The requested stack size, if any.
    pub closed spec fn spec_stack_size(&self) -> Option<usize> {
        self.stack_size
    }

    /// The requested stack size, if any.
    pub fn requested_stack_size(&self) -> (s: Option<usize>)
        ensures
            s == self.spec_stack_size(),
    {
        self.stack_size
    }
}

/// A pthread call made while creating a thread.
#[derive(Clone, Copy, Debug, PartialEq, Eq)]
pub enum CreateCall {
    /// `pthread_attr_init`.
    AttrInit,
    /// `pthread_attr_setstacksize` with this size.
    SetStackSize(usize),
    /// `pthread_create`, with the attribute object or with null attributes.
    Create { with_attr: bool },
    /// `pthread_attr_destroy`.
    AttrDestroy,
}

/// What to do next while creating a thread.
#[derive(Clone, Copy, Debug, PartialEq, Eq)]
pub enum CreateAction {
    /// Make this call and report its return code.
    Call(CreateCall),
    /// Creation is over; this is the resulting pthread status code.
    Finish(i32),
}

/// The call sequence of thread creation, given the return codes of the
/// calls made so far: without a stack size, `pthread_create` with null
/// attributes; with one, the attribute object is initialized, given the size,
/// used, and destroyed once it has been initialized, and the first failing
/// code is the result.
pub open spec fn create_plan(stack_size: Option<usize>, codes: Seq<i32>) -> CreateAction {
    match stack_size {
        None => if codes.len() == 0 {
            CreateAction::Call(CreateCall::Create { with_attr: false })
        } else {
            CreateAction::Finish(codes[0])
        },
        Some(size) => if codes.len() == 0 {
            CreateAction::Call(CreateCall::AttrInit)
        } else if codes[0] != 0 {
            CreateAction::Finish(codes[0])
        } else if codes.len() == 1 {
            CreateAction::Call(CreateCall::SetStackSize(size))
        } else if codes[1] != 0 {
            if codes.len() == 2 {
                CreateAction::Call(CreateCall::AttrDestroy)
            } else {
                CreateAction::Finish(codes[1])
            }
        } else if codes.len() == 2 {
            CreateAction::Call(CreateCall::Create { with_attr: true })
        } else if codes.len() == 3 {
            CreateAction::Call(CreateCall::AttrDestroy)
        } else {
            CreateAction::Finish(codes[2])
        },
    }
}

/// The next step of thread creation, from the stack size and the codes
/// returned so far (see [`create_plan`]).
pub fn create_step(stack_size: Option<usize>, codes: &Vec<i32>) -> (a: CreateAction)
    ensures
        a == create_plan(stack_size, codes@),
{
    match stack_size {
        None => {
            if codes.len() == 0 {
                CreateAction::Call(CreateCall::Create { with_attr: false })
            } else {
                CreateAction::Finish(codes[0])
            }
        },
        Some(size) => {
            if codes.len() == 0 {
                CreateAction::Call(CreateCall::AttrInit)
            } else if codes[0] != 0 {
                CreateAction::Finish(codes[0])
            } else if codes.len() == 1 {
                CreateAction::Call(CreateCall::SetStackSize(size))
            } else if codes[1] != 0 {
                if codes.len() == 2 {
                    CreateAction::Call(CreateCall::AttrDestroy)
                } else {
                    CreateAction::Finish(codes[1])
                }
            } else if codes.len() == 2 {
                CreateAction::Call(CreateCall::Create { with_attr: true })
            } else if codes.len() == 3 {
                CreateAction::Call(CreateCall::AttrDestroy)
            } else {
                CreateAction::Finish(codes[2])
            }
        },
    }
}

/// The result of `join`: the join's code, then the value the thread stored
/// (always present for a thread from `spawn`; its absence is reported as
/// `EINVAL`).
pub fn join_result<T>(rc: i32, value: Option<T>) -> (r: Result<T, Error>)
    ensures
        rc != 0 ==> r == Err::<T, Error>(Error::Os(Errno(rc))),
        rc == 0 ==> r == (match value {
            Some(v) => Ok::<T, Error>(v),
            None => Err(Error::Os(Errno(EINVAL))),
        }),
{
    if rc != 0 {
        return Err(Error::Os(Errno(rc)));
    }
    match value {
        Some(v) => Ok(v),
        None => Err(Error::Os(Errno(EINVAL))),
    }
}

} // verus!

verus! {

/// The calls made for a history of return codes: the call asked for after
/// each prefix of the history.
pub open spec fn calls_made(stack_size: Option<usize>, codes: Seq<i32>) -> Seq<CreateAction> {
    Seq::new(codes.len(), |k: int| create_plan(stack_size, codes.take(k)))
}

/// Thread creation with a stack size always ends in one of three ways, and
/// the attribute object is destroyed exactly when it was initialized, once,
/// after its last use: init failed (nothing to destroy); setting the size
/// failed (destroy, then that code); or create ran (destroy, then create's
/// code).
pub proof fn law_attr_destroyed_once(size: usize, codes: Seq<i32>)
    requires
        create_plan(Some(size), codes) is Finish,
        forall|k: int| 0 <= k < codes.len() ==> #[trigger] create_plan(Some(size), codes.take(k)) is Call,
    ensures
        codes.len() == 1 ==> codes[0] != 0 && calls_made(Some(size), codes) == seq![
            CreateAction::Call(CreateCall::AttrInit),
        ] && create_plan(Some(size), codes) == CreateAction::Finish(codes[0]),
        codes.len() == 3 ==> codes[0] == 0 && codes[1] != 0 && calls_made(Some(size), codes)
            == seq![
            CreateAction::Call(CreateCall::AttrInit),
            CreateAction::Call(CreateCall::SetStackSize(size)),
            CreateAction::Call(CreateCall::AttrDestroy),
        ] && create_plan(Some(size), codes) == CreateAction::Finish(codes[1]),
        codes.len() == 4 ==> codes[0] == 0 && codes[1] == 0 && calls_made(Some(size), codes)
            == seq![
            CreateAction::Call(CreateCall::AttrInit),
            CreateAction::Call(CreateCall::SetStackSize(size)),
            CreateAction::Call(CreateCall::Create { with_attr: true }),
            CreateAction::Call(CreateCall::AttrDestroy),
        ] && create_plan(Some(size), codes) == CreateAction::Finish(codes[2]),
        codes.len() == 1 || codes.len() == 3 || codes.len() == 4,
{
    let c = codes;
    if c.len() >= 1 {
        assert(create_plan(Some(size), c.take(0)) is Call);
    }
    if c.len() >= 2 {
        assert(c.take(1)[0] == c[0]);
        assert(create_plan(Some(size), c.take(1)) is Call);
    }
    if c.len() >= 3 {
        assert(c.take(2)[0] == c[0] && c.take(2)[1] == c[1]);
        assert(create_plan(Some(size), c.take(2)) is Call);
    }
    if c.len() >= 4 {
        assert(c.take(3)[0] == c[0] && c.take(3)[1] == c[1] && c.take(3)[2] == c[2]);
        assert(create_plan(Some(size), c.take(3)) is Call);
    }
    if c.len() >= 5 {
        assert(c.take(4)[0] == c[0] && c.take(4)[1] == c[1] && c.take(4)[2] == c[2]);
        assert(create_plan(Some(size), c.take(4)) is Call);
    }
    if c.len() == 1 {
        assert(calls_made(Some(size), c) =~= seq![CreateAction::Call(CreateCall::AttrInit)]);
    }
    if c.len() == 3 {
        assert(calls_made(Some(size), c) =~= seq![
            CreateAction::Call(CreateCall::AttrInit),
            CreateAction::Call(CreateCall::SetStackSize(size)),
            CreateAction::Call(CreateCall::AttrDestroy),
        ]);
    }
    if c.len() == 4 {
        assert(calls_made(Some(size), c) =~= seq![
            CreateAction::Call(CreateCall::AttrInit),
            CreateAction::Call(CreateCall::SetStackSize(size)),
            CreateAction::Call(CreateCall::Create { with_attr: true }),
            CreateAction::Call(CreateCall::AttrDestroy),
        ]);
    }
}

} // verus!
