//! The queue of unpack commands and how much of it one frame dispatches.
use vstd::prelude::*;
use crate::client::command::Command;

verus! {

/// Maximum amount of unpack commands that can be dispatched in one frame.
pub const DISPATCH_SIZE: usize = 2048;

/// Invocations per workgroup of the unpack shader.
pub const WORKGROUP_SIZE: usize = 256;

/// Commands waiting to be dispatched by the unpack pass, oldest first.
#[derive(Debug)]
pub struct Unpack {
    pending_commands: Vec<Command>,
}

/// The number of workgroups that cover `n` invocations.
pub open spec fn workgroups(n: int) -> int {
    (n + WORKGROUP_SIZE - 1) / WORKGROUP_SIZE as int
}

impl Unpack {
    /// The queued commands, oldest first.
    pub closed spec fn queued(&self) -> Seq<Command> {
        self.pending_commands@
    }

    /// An empty queue.
    pub fn new() -> (u: Unpack)
        ensures
            u.queued() == Seq::<Command>::empty(),
    {
        Unpack { pending_commands: Vec::new() }
    }

    /// Queue unpack commands to dispatch, after those already queued.
    pub fn queue(&mut self, commands: Vec<Command>)
        ensures
            final(self).queued() == old(self).queued() + commands@,
    {
        let mut commands = commands;
        self.pending_commands.append(&mut commands);
    }

    /// Number of queued commands.
    pub fn queue_size(&self) -> (n: usize)
        ensures
            n == self.queued().len(),
    {
        self.pending_commands.len()
    }

    /// Takes the commands of this frame's dispatch: the oldest ones, at most
    /// [`DISPATCH_SIZE`] of them, with the number of workgroups that covers them.
    pub fn take_dispatch(&mut self) -> (r: (Vec<Command>, u32))
        ensures
            ({
                let n = if old(self).queued().len() < DISPATCH_SIZE {
                    old(self).queued().len() as int
                } else {
                    DISPATCH_SIZE as int
                };
                &&& r.0@ == old(self).queued().subrange(0, n)
                &&& final(self).queued() == old(self).queued().subrange(
                    n,
                    old(self).queued().len() as int,
                )
                &&& r.1 == workgroups(n)
            }),
            r.1 * 256 >= r.0@.len(),
            r.0@.len() > 0 ==> (r.1 - 1) * 256 < r.0@.len(),
            r.1 == 0 <==> r.0@.len() == 0,
    {
        let len = self.pending_commands.len();
        let dispatch_size = if len < DISPATCH_SIZE {
            len
        } else {
            DISPATCH_SIZE
        };
        let mut batch = self.pending_commands.split_off(dispatch_size);
        std::mem::swap(&mut batch, &mut self.pending_commands);
        let groups = ((dispatch_size + WORKGROUP_SIZE - 1) / WORKGROUP_SIZE) as u32;
        proof {
            lemma_workgroups_cover(dispatch_size as int);
        }
        (batch, groups)
    }
}

/// Dispatching takes the queue in order: a command queued behind others is dispatched no
/// earlier than they are, and a full queue shrinks by exactly [`DISPATCH_SIZE`] per frame.
pub proof fn lemma_dispatch_fifo(before: Seq<Command>, batch: Seq<Command>, after: Seq<Command>)
    requires
        batch == before.subrange(
            0,
            if before.len() < DISPATCH_SIZE {
                before.len() as int
            } else {
                DISPATCH_SIZE as int
            },
        ),
        after == before.subrange(batch.len() as int, before.len() as int),
    ensures
        batch + after == before,
        batch.len() <= DISPATCH_SIZE,
        before.len() >= DISPATCH_SIZE ==> after.len() == before.len() - DISPATCH_SIZE,
        before.len() < DISPATCH_SIZE ==> after.len() == 0,
{
    assert(batch + after =~= before);
}

/// The workgroups of a dispatch cover its commands and no more: with 256 invocations per
/// workgroup, `n` commands get enough workgroups for all of them, one fewer would leave some
/// out, and there are none exactly when there are no commands.
pub proof fn lemma_workgroups_cover(n: int)
    requires
        0 <= n,
    ensures
        workgroups(n) * 256 >= n,
        n > 0 ==> (workgroups(n) - 1) * 256 < n,
        workgroups(n) == 0 <==> n == 0,
{
    vstd::arithmetic::div_mod::lemma_fundamental_div_mod(n + 255, 256);
    let q = (n + 255) / 256;
    let r = (n + 255) % 256;
    assert(n + 255 == 256 * q + r && 0 <= r < 256);
    assert(workgroups(n) == q);
}

} // verus!
