//! The output pump of one session: what each read of the terminal's output
//! turns into.
//!
//! The host reads the terminal in a loop and hands each outcome to the pump. A
//! non-empty chunk becomes one output event; the end of the stream, or a read
//! error, ends the pump, which then takes no further read. The host announces
//! that end when the session manager's `end_of_output` hands the session back,
//! that is when the session was not stopped or replaced before.

use vstd::prelude::*;
use crate::manager::{PtyDataEvent, PtyExitEvent};

verus! {

/// The text that lossy UTF-8 decoding makes of `bytes`.
pub uninterp spec fn utf8_lossy(bytes: Seq<u8>) -> Seq<char>;

/// Relies on `String::from_utf8_lossy`: the text depends on the bytes alone.
#[verifier::external_body]
fn decode_lossy(bytes: &[u8]) -> (r: String)
    ensures
        r@ == utf8_lossy(bytes@),
{
    String::from_utf8_lossy(bytes).into_owned()
}

/// Output keeps the order in which it was read: when a pump has read `a` and
/// then `b` since an earlier state, its output events are the earlier ones
/// followed by the text of `a` and then the text of `b`.
pub proof fn lemma_reads_keep_their_order(
    earlier: OutputPump,
    later: OutputPump,
    a: Seq<u8>,
    b: Seq<u8>,
)
    requires
        earlier.wf(),
        later.wf(),
        later.chunks() == earlier.chunks().push(a).push(b),
    ensures
        later.emitted() == earlier.emitted().push(utf8_lossy(a)).push(utf8_lossy(b)),
{
    let n = earlier.chunks().len() as int;
    assert(later.chunks()[n] == a);
    assert(later.chunks()[n + 1] == b);
    assert forall|i: int| 0 <= i < n implies later.emitted()[i] == earlier.emitted()[i] by {
        assert(later.chunks()[i] == earlier.chunks()[i]);
    }
    assert(later.emitted() =~= earlier.emitted().push(utf8_lossy(a)).push(utf8_lossy(b)));
}

/// What the pump makes of one read: output to forward, or the end of the
/// session's output.
pub enum PumpEvent {
    Data(PtyDataEvent),
    Exit(PtyExitEvent),
}

/// The pump of one session.
pub struct OutputPump {
    session_id: String,
    ended: bool,
    /// The chunks read so far, in order.
    chunks: Ghost<Seq<Seq<u8>>>,
    /// The text of each output event emitted so far, in order.
    emitted: Ghost<Seq<Seq<char>>>,
}

impl OutputPump {
    /// The session whose output this pump forwards.
    pub closed spec fn id(&self) -> Seq<char> {
        self.session_id@
    }

    /// Whether the output has ended.
    pub closed spec fn is_ended(&self) -> bool {
        self.ended
    }

    /// The non-empty chunks read so far, in order.
    pub closed spec fn chunks(&self) -> Seq<Seq<u8>> {
        self.chunks@
    }

    /// The text of the output events emitted so far, in order.
    pub closed spec fn emitted(&self) -> Seq<Seq<char>> {
        self.emitted@
    }

    /// Each output event carries the decoding of the chunk read in its place.
    pub open spec fn wf(&self) -> bool {
        &&& self.emitted().len() == self.chunks().len()
        &&& forall|i: int|
            0 <= i < self.chunks().len() ==> #[trigger] self.emitted()[i] == utf8_lossy(
                self.chunks()[i],
            )
    }

    /// A pump for the session `session_id` that has read nothing yet.
    pub fn new(session_id: String) -> (r: Self)
        ensures
            r.wf(),
            r.id() == session_id@,
            !r.is_ended(),
            r.chunks() == Seq::<Seq<u8>>::empty(),
    {
        OutputPump {
            session_id,
            ended: false,
            chunks: Ghost(Seq::empty()),
            emitted: Ghost(Seq::empty()),
        }
    }

    /// Whether the pump still takes reads.
    pub fn is_running(&self) -> (r: bool)
        ensures
            r == !self.is_ended(),
    {
        !self.ended
    }

    /// One successful read of `chunk`. An empty chunk is the end of the
    /// stream and ends the session; any other is forwarded as text.
    pub fn on_chunk(&mut self, chunk: &[u8]) -> (r: PumpEvent)
        requires
            old(self).wf(),
            !old(self).is_ended(),
        ensures
            final(self).wf(),
            final(self).id() == old(self).id(),
            chunk@.len() == 0 ==> {
                &&& r matches PumpEvent::Exit(e) && e.session_id@ == old(self).id()
                &&& final(self).is_ended()
                &&& final(self).chunks() == old(self).chunks()
                &&& final(self).emitted() == old(self).emitted()
            },
            chunk@.len() > 0 ==> {
                &&& r matches PumpEvent::Data(d) && d.session_id@ == old(self).id() && d.data@
                    == utf8_lossy(chunk@)
                &&& !final(self).is_ended()
                &&& final(self).chunks() == old(self).chunks().push(chunk@)
                &&& final(self).emitted() == old(self).emitted().push(utf8_lossy(chunk@))
            },
    {
        if chunk.len() == 0 {
            self.ended = true;
            return PumpEvent::Exit(PtyExitEvent { session_id: self.session_id.clone() });
        }
        let data = decode_lossy(chunk);
        proof {
            let ghost old_chunks = self.chunks@;
            let ghost old_emitted = self.emitted@;
            self.chunks = Ghost(old_chunks.push(chunk@));
            self.emitted = Ghost(old_emitted.push(data@));
            assert forall|i: int| 0 <= i < self.chunks@.len() implies #[trigger] self.emitted@[i]
                == utf8_lossy(self.chunks@[i]) by {
                if i < old_chunks.len() {
                    assert(self.emitted@[i] == old_emitted[i]);
                    assert(self.chunks@[i] == old_chunks[i]);
                }
            }
        }
        PumpEvent::Data(PtyDataEvent { session_id: self.session_id.clone(), data })
    }

    /// A failed read: it ends the session.
    pub fn on_read_error(&mut self) -> (r: PtyExitEvent)
        requires
            old(self).wf(),
            !old(self).is_ended(),
        ensures
            final(self).wf(),
            final(self).id() == old(self).id(),
            r.session_id@ == old(self).id(),
            final(self).is_ended(),
            final(self).chunks() == old(self).chunks(),
            final(self).emitted() == old(self).emitted(),
    {
        self.ended = true;
        PtyExitEvent { session_id: self.session_id.clone() }
    }
}

} // verus!
