//! Inbound dispatch: decode a packet identifier and run the one handler
//! registered for it.

use vstd::prelude::*;
use crate::codec::{dec_u16, PacketBuffer};
use crate::error::SocketError;
use crate::packets::{server_packet_of, ServerPackets};

verus! {

/// The handler registered last for `id` among `entries`.
pub open spec fn find_handler<H>(entries: Seq<(ServerPackets, H)>, id: ServerPackets) -> Option<H>
    decreases entries.len(),
{
    if entries.len() == 0 {
        None
    } else if entries.last().0 == id {
        Some(entries.last().1)
    } else {
        find_handler(entries.drop_last(), id)
    }
}

/// The packet identifier at the start of `s`, if it is a known one.
pub open spec fn dec_packet_id(s: Seq<u8>) -> Option<ServerPackets> {
    match dec_u16(s) {
        Some(id) => server_packet_of(id),
        None => None,
    }
}

/// The mapping from server packet identifier to handler. Built once at
/// startup and only read afterwards.
pub struct PacketRouter<H> {
    entries: Vec<(ServerPackets, H)>,
}

impl<H> PacketRouter<H> {
    /// The handler that `handle_data` runs for `id`.
    pub closed spec fn handler(&self, id: ServerPackets) -> Option<H> {
        find_handler(self.entries@, id)
    }

    /// A router with no handler.
    pub fn new() -> (r: PacketRouter<H>)
        ensures
            forall|id: ServerPackets| r.handler(id) is None,
    {
        PacketRouter { entries: Vec::new() }
    }

    /// Registers `handler` for `id`, replacing any earlier one.
    pub fn add(&mut self, id: ServerPackets, handler: H)
        ensures
            final(self).handler(id) == Some(handler),
            forall|other: ServerPackets| other != id ==> final(self).handler(other)
                == old(self).handler(other),
    {
        self.entries.push((id, handler));
        assert(self.entries@.drop_last() =~= old(self).entries@);
    }

    /// The handler registered for `id`.
    pub fn get(&self, id: ServerPackets) -> (r: Option<&H>)
        ensures
            r matches Some(h) ==> self.handler(id) == Some(*h),
            r is None ==> self.handler(id) is None,
    {
        let mut i: usize = self.entries.len();
        assert(self.entries@.take(i as int) =~= self.entries@);
        while i > 0
            invariant
                i <= self.entries@.len(),
                find_handler(self.entries@, id) == find_handler(self.entries@.take(i as int), id),
            decreases i,
        {
            let ghost t = self.entries@.take(i as int);
            assert(t.drop_last() =~= self.entries@.take(i - 1));
            if self.entries[i - 1].0 == id {
                return Some(&self.entries[i - 1].1);
            }
            i = i - 1;
        }
        None
    }
}

/// The identifier at the start of `s` and the handler registered for it,
/// if the identifier decodes and has one.
pub open spec fn routed<H>(router: PacketRouter<H>, s: Seq<u8>) -> Option<(ServerPackets, H)> {
    match dec_packet_id(s) {
        Some(id) => match router.handler(id) {
            Some(h) => Some((id, h)),
            None => None,
        },
        None => None,
    }
}

/// What a handler runs against: the connection, the world, the display and
/// the active content, as the application holds them.
pub trait PacketHandler<H> {
    /// Runs `handler` for packet `id`, with `data` positioned just past the
    /// identifier.
    fn handle(&mut self, handler: &H, id: ServerPackets, data: &mut PacketBuffer) -> Result<
        (),
        SocketError,
    >
        requires
            old(data).wf(),
            old(data).pos() >= 2,
            dec_packet_id(old(data).bytes().skip(old(data).pos() - 2)) == Some(id),
    ;
}

/// Reads the packet identifier at the cursor. On failure the cursor is left
/// where it was.
pub fn read_packet_id(data: &mut PacketBuffer) -> (r: Result<ServerPackets, SocketError>)
    requires
        old(data).wf(),
    ensures
        final(data).wf(),
        final(data).bytes() == old(data).bytes(),
        dec_packet_id(old(data).unread()) matches Some(id) ==> r == Ok::<ServerPackets, SocketError>(
            id,
        ) && final(data).pos() == old(data).pos() + 2,
        dec_packet_id(old(data).unread()) is None ==> r == Err::<ServerPackets, SocketError>(
            SocketError::InvalidPacket,
        ) && final(data).pos() == old(data).pos(),
{
    proof {
        data.lemma_wf();
    }
    let raw = match data.read_u16() {
        Ok(v) => v,
        Err(_) => return Err(SocketError::InvalidPacket),
    };
    match ServerPackets::from_id(raw) {
        Some(id) => Ok(id),
        None => {
            let _ = data.move_cursor(data.cursor() - 2);
            Err(SocketError::InvalidPacket)
        },
    }
}

/// Reads the packet identifier at the cursor and finds its handler. An
/// identifier that cannot be decoded or has no handler gives
/// `InvalidPacket`, and the cursor stays where it was.
pub fn route<'a, H>(router: &'a PacketRouter<H>, data: &mut PacketBuffer) -> (r: Result<
    (ServerPackets, &'a H),
    SocketError,
>)
    requires
        old(data).wf(),
    ensures
        final(data).wf(),
        final(data).bytes() == old(data).bytes(),
        routed(*router, old(data).unread()) matches Some((id, h)) ==> r is Ok && r->Ok_0.0 == id
            && *r->Ok_0.1 == h && final(data).pos() == old(data).pos() + 2,
        routed(*router, old(data).unread()) is None ==> r is Err && r->Err_0
            == SocketError::InvalidPacket && final(data).pos() == old(data).pos(),
{
    proof {
        data.lemma_wf();
    }
    let start = data.cursor();
    let id = read_packet_id(data)?;
    match router.get(id) {
        Some(handler) => Ok((id, handler)),
        None => {
            let _ = data.move_cursor(start);
            Err(SocketError::InvalidPacket)
        },
    }
}

/// Decodes the packet identifier and runs its handler once, with the
/// cursor just past the identifier, returning the handler's result. An
/// identifier that cannot be decoded or has no handler gives
/// `InvalidPacket`, and then no handler runs.
pub fn handle_data<H, C: PacketHandler<H>>(
    router: &PacketRouter<H>,
    context: &mut C,
    data: &mut PacketBuffer,
) -> (r: Result<(), SocketError>)
    requires
        old(data).wf(),
    ensures
        routed(*router, old(data).unread()) is None ==> r == Err::<(), SocketError>(
            SocketError::InvalidPacket,
        ) && *final(context) == *old(context) && final(data).pos() == old(data).pos(),
{
    let ghost s = data.unread();
    let ghost p0 = data.pos();
    proof {
        data.lemma_wf();
    }
    let (id, handler) = route(router, data)?;
    assert(data.bytes().skip(data.pos() - 2) =~= s);
    context.handle(handler, id, data)
}

} // verus!
