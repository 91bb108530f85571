//! The connection as the protocol core sees it: the current encryption
//! state and the framed packets waiting for the transport. The transport
//! itself drains `outbox` and writes each packet on the plaintext or the
//! secure path.

use vstd::prelude::*;
use crate::codec::PacketBuffer;
use crate::error::SocketError;

verus! {

/// How far the secure session has come.
#[derive(Clone, Copy, Debug, PartialEq, Eq, Structural)]
pub enum EncryptionState {
    /// Unauthenticated plaintext channel.
    Plain,
    /// Handshake in progress: outbound traffic goes through the secure path.
    WriteTransfering,
    /// Fully secured: all traffic goes through the secure path.
    ReadWrite,
}

/// A framed packet waiting to be written, and the path it must take.
pub struct Outgoing {
    pub secure: bool,
    pub bytes: Vec<u8>,
}

pub struct Socket {
    pub encrypt_state: EncryptionState,
    /// False once the transport reports the connection closed.
    pub connected: bool,
    pub outbox: Vec<Outgoing>,
}

impl Socket {
    /// The packets waiting, oldest first: whether each takes the secure
    /// path, and its bytes.
    pub open spec fn sent(&self) -> Seq<(bool, Seq<u8>)> {
        self.outbox@.map_values(|o: Outgoing| (o.secure, o.bytes@))
    }

    /// An open, unencrypted connection with nothing waiting.
    pub fn new() -> (r: Socket)
        ensures
            r.encrypt_state == EncryptionState::Plain,
            r.connected,
            r.sent() == Seq::<(bool, Seq<u8>)>::empty(),
    {
        let r = Socket { encrypt_state: EncryptionState::Plain, connected: true, outbox: Vec::new() };
        assert(r.sent() =~= Seq::<(bool, Seq<u8>)>::empty());
        r
    }

    fn queue(&mut self, secure: bool, buf: PacketBuffer) -> (r: Result<(), SocketError>)
        requires
            buf.wf(),
        ensures
            final(self).encrypt_state == old(self).encrypt_state,
            final(self).connected == old(self).connected,
            old(self).connected ==> r is Ok && final(self).sent() == old(self).sent().push(
                (secure, buf.bytes()),
            ),
            !old(self).connected ==> r == Err::<(), SocketError>(SocketError::TransportError)
                && final(self).sent() == old(self).sent(),
    {
        if !self.connected {
            return Err(SocketError::TransportError);
        }
        let mut buf = buf;
        let bytes = buf.to_vec();
        self.outbox.push(Outgoing { secure, bytes });
        assert(self.sent() =~= old(self).sent().push((secure, bytes@)));
        Ok(())
    }

    /// Queues a framed packet for the plaintext path.
    pub fn send(&mut self, buf: PacketBuffer) -> (r: Result<(), SocketError>)
        requires
            buf.wf(),
        ensures
            final(self).encrypt_state == old(self).encrypt_state,
            final(self).connected == old(self).connected,
            old(self).connected ==> r is Ok && final(self).sent() == old(self).sent().push(
                (false, buf.bytes()),
            ),
            !old(self).connected ==> r == Err::<(), SocketError>(SocketError::TransportError)
                && final(self).sent() == old(self).sent(),
    {
        self.queue(false, buf)
    }

    /// Queues a framed packet for the secure path.
    pub fn tls_send(&mut self, buf: PacketBuffer) -> (r: Result<(), SocketError>)
        requires
            buf.wf(),
        ensures
            final(self).encrypt_state == old(self).encrypt_state,
            final(self).connected == old(self).connected,
            old(self).connected ==> r is Ok && final(self).sent() == old(self).sent().push(
                (true, buf.bytes()),
            ),
            !old(self).connected ==> r == Err::<(), SocketError>(SocketError::TransportError)
                && final(self).sent() == old(self).sent(),
    {
        self.queue(true, buf)
    }

    /// Hands the waiting packets to the transport, oldest first.
    pub fn take_outgoing(&mut self) -> (r: Vec<Outgoing>)
        ensures
            r@.map_values(|o: Outgoing| (o.secure, o.bytes@)) == old(self).sent(),
            final(self).sent() == Seq::<(bool, Seq<u8>)>::empty(),
            final(self).encrypt_state == old(self).encrypt_state,
            final(self).connected == old(self).connected,
    {
        let mut r: Vec<Outgoing> = Vec::new();
        std::mem::swap(&mut self.outbox, &mut r);
        assert(self.sent() =~= Seq::<(bool, Seq<u8>)>::empty());
        r
    }
}

} // verus!
