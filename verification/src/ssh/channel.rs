//! SSH channel kinds and the interactive shell-session boundary.
use vstd::prelude::*;

use crate::ssh::error::SshResult;
use crate::ssh::pty::PtySize;

verus! {

/// What an SSH channel carries.
#[derive(Debug, Clone, Copy, PartialEq, Eq, Structural)]
pub enum ChannelKind {
    Shell,
    Sftp,
    DirectTcpIp,
}

/// The chunks left after the front one is taken (none stay none).
pub open spec fn after_poll(pending: Seq<Seq<u8>>) -> Seq<Seq<u8>> {
    if pending.len() > 0 {
        pending.drop_first()
    } else {
        pending
    }
}

/// The front chunk (empty when there is none).
pub open spec fn front_chunk(pending: Seq<Seq<u8>>) -> Seq<u8> {
    if pending.len() > 0 {
        pending[0]
    } else {
        Seq::empty()
    }
}

/// An interactive shell session as the runtime drives it: output waits in a
/// queue of chunks that polling hands out front first.
pub trait ShellSession: Sized {
    /// Whether the session is connected.
    spec fn spec_connected(&self) -> bool;

    /// The output chunks waiting to be polled, oldest first.
    spec fn pending(&self) -> Seq<Seq<u8>>;

    /// The kind of channel behind the session.
    fn kind(&self) -> ChannelKind;

    /// Whether the session is still connected.
    fn is_connected(&self) -> (b: bool)
        ensures
            b == self.spec_connected(),
    ;

    /// `other` is this session with, perhaps, other output waiting.
    spec fn same_channel(&self, other: Self) -> bool;

    /// The next waiting chunk of output (empty when there is none).
    fn poll_output(&mut self) -> (r: SshResult<Vec<u8>>)
        ensures
            r matches Ok(bytes) ==> bytes@ == front_chunk(old(self).pending()) && final(self).pending()
                == after_poll(old(self).pending()) && old(self).same_channel(*final(self)),
    ;

    /// `after` and `r` are what sending `bytes` gives.
    spec fn wrote(&self, after: Self, bytes: Seq<u8>, r: SshResult<()>) -> bool;

    /// `after` and `r` are what resizing the PTY to `size` gives.
    spec fn resized(&self, after: Self, size: PtySize, r: SshResult<()>) -> bool;

    /// `after` and `r` are what closing the channel gives.
    spec fn closed(&self, after: Self, r: SshResult<()>) -> bool;

    /// Sends terminal input.
    fn write_input(&mut self, bytes: &[u8]) -> (r: SshResult<()>)
        ensures
            old(self).wrote(*final(self), bytes@, r),
    ;

    /// Resizes the remote PTY.
    fn resize_pty(&mut self, size: PtySize) -> (r: SshResult<()>)
        ensures
            old(self).resized(*final(self), size, r),
    ;

    /// Closes the channel.
    fn disconnect(&mut self) -> (r: SshResult<()>)
        ensures
            old(self).closed(*final(self), r),
    ;
}

} // verus!
