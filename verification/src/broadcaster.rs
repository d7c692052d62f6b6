//! The registry of connected viewers and the fan-out of chunks to them.

use crate::chunk::{chunk_of, frame_chunk};
use crate::jpeg::{encode_rgb8, fits_jpeg, jpeg_encoding, JPEG_MAX_SIDE};
use futures::channel::mpsc::{channel, Receiver, Sender, TryRecvError};
use vstd::prelude::*;

verus! {

/// Number of chunks that may wait unread in one viewer's channel.
pub const CHANNEL_CAPACITY: usize = 100;

/// Quality at which every frame is encoded.
pub const JPEG_QUALITY: u8 = 50;

/// The sending half of a bounded channel, `futures::channel::mpsc::Sender`.
#[verifier::external_type_specification]
#[verifier::external_body]
#[verifier::reject_recursive_types(T)]
pub struct ExSender<T>(Sender<T>);

/// The receiving half of a bounded channel,
/// `futures::channel::mpsc::Receiver`.
#[verifier::external_type_specification]
#[verifier::external_body]
#[verifier::reject_recursive_types(T)]
pub struct ExReceiver<T>(Receiver<T>);

/// The buffer that `futures::channel::mpsc::channel` was given when it made
/// the channel that `sender` feeds. A sender keeps it for as long as it lives.
pub uninterp spec fn channel_buffer(sender: Sender<Vec<u8>>) -> nat;

/// Calls `futures::channel::mpsc::channel`, which makes a channel that holds
/// `buffer` messages and one more for each sender, and keeps `buffer` in the
/// channel. It panics where `buffer` is not below a quarter of the `usize`
/// range, which `requires` rules out.
#[verifier::external_body]
fn open_channel(buffer: usize) -> (halves: (Sender<Vec<u8>>, Receiver<Vec<u8>>))
    requires
        buffer < 0x1000_0000,
    ensures
        channel_buffer(halves.0) == buffer,
{
    channel(buffer)
}

/// Calls `futures::channel::mpsc::Sender::try_send` with a copy of `chunk`
/// and says whether the channel took it. The channel refuses a message when
/// it is full or its receiver is gone; both depend on the viewer, so nothing
/// is claimed of the answer. The sender goes on feeding the channel that it
/// fed, with the buffer that the channel was made with.
#[verifier::external_body]
fn try_send(sender: &mut Sender<Vec<u8>>, chunk: &[u8]) -> (accepted: bool)
    ensures
        channel_buffer(*final(sender)) == channel_buffer(*old(sender)),
{
    sender.try_send(chunk.to_vec()).is_ok()
}

/// What a viewer finds when it looks into its channel.
#[derive(Debug)]
pub enum Received {
    /// The oldest chunk that was waiting.
    Chunk(Vec<u8>),
    /// Nothing is waiting, and the registry still holds the viewer.
    Empty,
    /// Nothing is waiting, and the registry has let the viewer go.
    Closed,
}

/// Calls `futures::channel::mpsc::Receiver::try_recv`, which takes the oldest
/// waiting message without blocking. What is waiting depends on the sender, so
/// nothing is claimed of the answer.
#[verifier::external_body]
fn try_recv(receiver: &mut Receiver<Vec<u8>>) -> (received: Received) {
    match receiver.try_recv() {
        Ok(chunk) => Received::Chunk(chunk),
        Err(TryRecvError::Empty) => Received::Empty,
        Err(TryRecvError::Closed) => Received::Closed,
    }
}

/// Why a frame gave no chunk.
#[derive(Clone, Copy, Debug, PartialEq, Eq, Structural)]
pub enum EncodeError {
    /// A side of the frame is longer than a JPEG image can be.
    Oversized,
}

/// The viewers that stay after a broadcast: those whose channel took the
/// chunk, in their order.
pub open spec fn retained(ids: Seq<u64>, accepted: Seq<bool>) -> Seq<u64>
    recommends
        ids.len() == accepted.len(),
    decreases ids.len(),
{
    if ids.len() == 0 {
        Seq::empty()
    } else if accepted.last() {
        retained(ids.drop_last(), accepted.drop_last()).push(ids.last())
    } else {
        retained(ids.drop_last(), accepted.drop_last())
    }
}

struct Member {
    id: u64,
    sender: Sender<Vec<u8>>,
}

/// The registry of connected viewers. Each viewer has a number of its own,
/// and the registry is the list of the numbers of its viewers in the order
/// in which they came.
pub struct Broadcaster {
    clients: Vec<Member>,
    issued: u64,
}

/// A viewer's end of its channel.
pub struct Client {
    id: u64,
    receiver: Receiver<Vec<u8>>,
}

spec fn ids_of(members: Seq<Member>) -> Seq<u64> {
    Seq::new(members.len(), |i: int| members[i].id)
}

impl View for Broadcaster {
    type V = Seq<u64>;

    closed spec fn view(&self) -> Seq<u64> {
        ids_of(self.clients@)
    }
}

impl Broadcaster {
    /// How many viewers have been given a number so far.
    pub closed spec fn issued(&self) -> nat {
        self.issued as nat
    }

    /// The buffer that each viewer's channel was made with, viewer by viewer.
    pub closed spec fn channel_buffers(&self) -> Seq<nat> {
        Seq::new(self.clients@.len(), |i: int| channel_buffer(self.clients@[i].sender))
    }

    /// The numbers of the viewers rise along the list, all are below the
    /// count of numbers given out, and every channel has room for
    /// `CHANNEL_CAPACITY` chunks.
    pub closed spec fn wf(&self) -> bool {
        &&& forall|i: int| 0 <= i < self.clients@.len() ==> self.clients@[i].id < self.issued
        &&& forall|i: int, j: int|
            0 <= i < j < self.clients@.len() ==> self.clients@[i].id < self.clients@[j].id
        &&& forall|i: int|
            0 <= i < self.clients@.len() ==> channel_buffer((#[trigger] self.clients@[i]).sender)
                + 1 == CHANNEL_CAPACITY
    }

    /// Every channel of the registry has room for `CHANNEL_CAPACITY` chunks:
    /// the buffer that it was made with, and one chunk more for the one sender
    /// that the registry keeps of it.
    pub proof fn lemma_channel_capacity(&self)
        requires
            self.wf(),
        ensures
            self.channel_buffers().len() == self@.len(),
            forall|i: int|
                0 <= i < self@.len() ==> #[trigger] self.channel_buffers()[i] + 1
                    == CHANNEL_CAPACITY,
    {
    }

    /// A registry without viewers.
    pub fn create() -> (registry: Broadcaster)
        ensures
            registry.wf(),
            registry@ == Seq::<u64>::empty(),
            registry.issued() == 0,
    {
        let registry = Broadcaster { clients: Vec::new(), issued: 0 };
        assert(registry@ =~= Seq::<u64>::empty());
        registry
    }

    /// How many viewers the registry holds.
    pub fn viewers(&self) -> (count: usize)
        ensures
            count == self@.len(),
    {
        self.clients.len()
    }

    /// Encodes an RGB frame as JPEG and frames it as one chunk. A frame with a
    /// side longer than a JPEG image can be is refused before the encoder sees
    /// it.
    pub fn make_message_block(frame: &[u8], width: u32, height: u32) -> (block: Result<
        Vec<u8>,
        EncodeError,
    >)
        requires
            frame@.len() == width * height * 3,
        ensures
            block is Ok <==> fits_jpeg(width, height),
            block matches Ok(bytes) ==> bytes@ == chunk_of(
                jpeg_encoding(frame@, width, height, JPEG_QUALITY),
            ),
    {
        if width > JPEG_MAX_SIDE || height > JPEG_MAX_SIDE {
            return Err(EncodeError::Oversized);
        }
        match encode_rgb8(frame, width, height, JPEG_QUALITY) {
            Ok(encoded) => Ok(frame_chunk(encoded.as_slice())),
            Err(_) => Err(EncodeError::Oversized),
        }
    }

    /// Offers `msg` to every viewer without waiting for any of them, and lets
    /// go of each viewer whose channel did not take it, because it is full or
    /// because the viewer has left. The answer says, viewer by viewer in the
    /// order of the list, whether the channel took the chunk.
    pub fn send_image(&mut self, msg: &[u8]) -> (accepted: Vec<bool>)
        requires
            old(self).wf(),
        ensures
            final(self).wf(),
            accepted@.len() == old(self)@.len(),
            final(self)@ == retained(old(self)@, accepted@),
            final(self).issued() == old(self).issued(),
    {
        let mut offered: Vec<Member> = Vec::new();
        core::mem::swap(&mut self.clients, &mut offered);
        let ghost before = offered@;
        let ghost ids = ids_of(before);
        let mut accepted: Vec<bool> = Vec::new();
        for member in iter: offered
            invariant
                iter.seq() == before,
                ids == ids_of(before),
                accepted@.len() == iter.index(),
                ids_of(self.clients@) == retained(ids.take(iter.index()), accepted@),
                self.issued == old(self).issued,
                forall|i: int| 0 <= i < before.len() ==> before[i].id < self.issued,
                forall|i: int|
                    0 <= i < before.len() ==> channel_buffer((#[trigger] before[i]).sender) + 1
                        == CHANNEL_CAPACITY,
                forall|k: int|
                    0 <= k < self.clients@.len() ==> channel_buffer(
                        (#[trigger] self.clients@[k]).sender,
                    ) + 1 == CHANNEL_CAPACITY,
                forall|i: int, j: int| 0 <= i < j < before.len() ==> before[i].id < before[j].id,
                forall|k: int|
                    0 <= k < self.clients@.len() ==> (#[trigger] self.clients@[k]).id
                        < self.issued,
                forall|k: int, j: int|
                    0 <= k < self.clients@.len() && iter.index() <= j < before.len() ==> (
                    #[trigger] self.clients@[k]).id < (#[trigger] before[j]).id,
                forall|i: int, j: int|
                    0 <= i < j < self.clients@.len() ==> self.clients@[i].id
                        < self.clients@[j].id,
        {
            let ghost at = iter.index();
            let ghost kept = self.clients@;
            let ghost flags = accepted@;
            let mut member = member;
            let took = try_send(&mut member.sender, msg);
            accepted.push(took);
            if took {
                self.clients.push(member);
            }
            proof {
                assert(ids.take(at + 1).drop_last() =~= ids.take(at));
                assert(accepted@.drop_last() =~= flags);
                assert(ids.take(at + 1).last() == before[at].id);
                if took {
                    assert(ids_of(self.clients@) =~= ids_of(kept).push(before[at].id));
                    assert forall|i: int, j: int|
                        0 <= i < j < self.clients@.len() implies self.clients@[i].id
                        < self.clients@[j].id by {
                        if j == kept.len() {
                            assert(kept[i].id < before[at].id);
                        }
                    }
                } else {
                    assert(ids_of(self.clients@) =~= ids_of(kept));
                }
            }
        }
        proof {
            assert(ids.take(before.len() as int) =~= ids);
        }
        accepted
    }

    /// Registers a new viewer: opens a channel of `CHANNEL_CAPACITY` chunks,
    /// keeps its sending half at the end of the list and hands out the
    /// receiving half. The viewer gets the next number. Only when the numbers
    /// have run out is there no new viewer, and then nothing changes.
    pub fn new_client(&mut self) -> (client: Option<Client>)
        requires
            old(self).wf(),
        ensures
            final(self).wf(),
            client is Some <==> old(self).issued() < u64::MAX,
            client matches Some(viewer) ==> {
                &&& viewer@ == old(self).issued()
                &&& final(self)@ == old(self)@.push(viewer@)
                &&& final(self).issued() == old(self).issued() + 1
                &&& !old(self)@.contains(viewer@)
            },
            client is None ==> final(self)@ == old(self)@
                && final(self).issued() == old(self).issued(),
    {
        if self.issued == u64::MAX {
            return None;
        }
        let id = self.issued;
        // One sender feeds the channel, and a channel holds one message for
        // each sender beyond its buffer.
        let (sender, receiver) = open_channel(CHANNEL_CAPACITY - 1);
        let ghost kept = self.clients@;
        self.clients.push(Member { id, sender });
        self.issued = id + 1;
        proof {
            assert(ids_of(self.clients@) =~= ids_of(kept).push(id));
            assert forall|i: int| 0 <= i < ids_of(kept).len() implies ids_of(kept)[i] != id by {
                assert(kept[i].id < id);
            }
        }
        Some(Client { id, receiver })
    }
}

impl View for Client {
    type V = u64;

    closed spec fn view(&self) -> u64 {
        self.id
    }
}

impl Client {
    /// The viewer's number.
    pub fn id(&self) -> (id: u64)
        ensures
            id == self@,
    {
        self.id
    }

    /// Takes the oldest chunk that waits for the viewer, without waiting for
    /// one to come.
    pub fn try_next(&mut self) -> (received: Received)
        ensures
            final(self)@ == old(self)@,
    {
        try_recv(&mut self.receiver)
    }

    /// Gives up the viewer for the receiving half of its channel, for a
    /// consumer that waits on the channel itself.
    pub fn into_receiver(self) -> (receiver: Receiver<Vec<u8>>)
        ensures
            receiver == self.channel(),
    {
        self.receiver
    }

    /// The receiving half of the viewer's channel: the one whose sending half
    /// the registry took when the viewer was registered.
    pub closed spec fn channel(&self) -> Receiver<Vec<u8>> {
        self.receiver
    }
}

/// A broadcast that every channel takes lets no viewer go.
pub proof fn lemma_all_accepted(ids: Seq<u64>, accepted: Seq<bool>)
    requires
        ids.len() == accepted.len(),
        forall|i: int| 0 <= i < accepted.len() ==> accepted[i],
    ensures
        retained(ids, accepted) == ids,
    decreases ids.len(),
{
    if ids.len() > 0 {
        lemma_all_accepted(ids.drop_last(), accepted.drop_last());
        assert(ids.drop_last().push(ids.last()) =~= ids);
    }
}

/// A broadcast that the channel of one viewer refuses, while every other
/// channel takes it, lets go of exactly that viewer: the others stay, in
/// their order.
pub proof fn lemma_one_refused(ids: Seq<u64>, accepted: Seq<bool>, refused: int)
    requires
        ids.len() == accepted.len(),
        0 <= refused < ids.len(),
        !accepted[refused],
        forall|i: int| 0 <= i < accepted.len() && i != refused ==> accepted[i],
    ensures
        retained(ids, accepted) == ids.remove(refused),
    decreases ids.len(),
{
    if refused == ids.len() - 1 {
        lemma_all_accepted(ids.drop_last(), accepted.drop_last());
        assert(ids.drop_last() =~= ids.remove(refused));
    } else {
        lemma_one_refused(ids.drop_last(), accepted.drop_last(), refused);
        assert(ids.drop_last().remove(refused).push(ids.last()) =~= ids.remove(refused));
    }
}

/// After a broadcast the registry holds a viewer if and only if it held the
/// viewer before and the viewer's channel took the chunk.
pub proof fn lemma_retained_members(ids: Seq<u64>, accepted: Seq<bool>, id: u64)
    requires
        ids.len() == accepted.len(),
    ensures
        retained(ids, accepted).contains(id) <==> exists|i: int|
            0 <= i < ids.len() && ids[i] == id && accepted[i],
    decreases ids.len(),
{
    if ids.len() > 0 {
        let front = ids.drop_last();
        let flags = accepted.drop_last();
        let last = ids.len() - 1;
        lemma_retained_members(front, flags, id);
        let kept = retained(front, flags);
        if retained(ids, accepted).contains(id) {
            if accepted.last() && ids.last() == id {
                assert(ids[last] == id && accepted[last]);
            } else {
                if accepted.last() {
                    let at = choose|at: int|
                        0 <= at < kept.push(ids.last()).len() && kept.push(ids.last())[at] == id;
                    assert(kept[at] == id);
                }
                assert(kept.contains(id));
                let i = choose|i: int| 0 <= i < front.len() && front[i] == id && flags[i];
                assert(ids[i] == id && accepted[i]);
            }
        }
        if exists|i: int| 0 <= i < ids.len() && ids[i] == id && accepted[i] {
            let i = choose|i: int| 0 <= i < ids.len() && ids[i] == id && accepted[i];
            if i == last {
                assert(kept.push(ids.last())[kept.len() as int] == id);
            } else {
                assert(front[i] == id && flags[i]);
                assert(kept.contains(id));
                let at = choose|at: int| 0 <= at < kept.len() && kept[at] == id;
                if accepted.last() {
                    assert(kept.push(ids.last())[at] == id);
                }
            }
        }
    }
}

} // verus!
