//! An in-memory transport: a script of replies consumed one per
//! round-trip, and a log of every frame sent. The protocol engine is
//! verified against this model, and the tests drive it with scripted
//! ECU behaviour, exactly as the transaction path behaves on hardware:
//! one request in flight at a time, each answered by at most one reply
//! (`None` standing for a transport failure or timeout).

use vstd::prelude::*;

verus! {

/// A transport whose replies are scripted. `replies` holds what the ECU
/// side will answer, front first; `sent` logs every frame that went out.
pub struct ScriptedTransport {
    /// The replies still to be served, front first. `None` is a
    /// transport failure or timeout for that round-trip.
    pub replies: Vec<Option<Vec<u8>>>,
    /// Every frame sent so far, oldest first.
    pub sent: Vec<Vec<u8>>,
}

impl ScriptedTransport {
    /// The replies still to be served.
    pub open spec fn script(&self) -> Seq<Option<Seq<u8>>> {
        self.replies.deep_view()
    }

    /// Every frame sent so far.
    pub open spec fn sent_log(&self) -> Seq<Seq<u8>> {
        self.sent.deep_view()
    }

    /// The reply the next round-trip will get: the front of the script,
    /// or a transport failure once the script is exhausted.
    pub open spec fn next_reply(&self) -> Option<Seq<u8>> {
        if self.script().len() > 0 {
            self.script()[0]
        } else {
            None
        }
    }

    /// A transport with the given scripted replies and nothing sent.
    pub fn new(replies: Vec<Option<Vec<u8>>>) -> (r: Self)
        ensures
            r.script() == replies.deep_view(),
            r.sent_log() == Seq::<Seq<u8>>::empty(),
    {
        let r = ScriptedTransport { replies, sent: Vec::new() };
        proof {
            assert(r.sent_log() =~= Seq::<Seq<u8>>::empty());
        }
        r
    }

    /// Send one frame without awaiting a reply (a fire-and-forget write,
    /// as for keep-alive frames): the frame is logged, the script stays.
    pub fn send(&mut self, frame: &[u8])
        ensures
            final(self).sent_log() == old(self).sent_log().push(frame@),
            final(self).script() == old(self).script(),
    {
        let ghost old_sent = self.sent.deep_view();
        self.sent.push(vstd::slice::slice_to_vec(frame));
        proof {
            assert(self.sent.deep_view() =~~= old_sent.push(frame@));
        }
    }

    /// One full round-trip: the frame is logged and the front of the
    /// script is consumed and returned; an exhausted script answers as a
    /// transport failure would.
    pub fn send_recv(&mut self, frame: &[u8]) -> (r: Option<Vec<u8>>)
        ensures
            final(self).sent_log() == old(self).sent_log().push(frame@),
            r.deep_view() == old(self).next_reply(),
            final(self).script() == if old(self).script().len() > 0 {
                old(self).script().skip(1)
            } else {
                old(self).script()
            },
    {
        let ghost old_sent = self.sent.deep_view();
        let ghost old_script = self.replies.deep_view();
        self.sent.push(vstd::slice::slice_to_vec(frame));
        proof {
            assert(self.sent.deep_view() =~~= old_sent.push(frame@));
        }
        if self.replies.len() > 0 {
            let head = self.replies.remove(0);
            proof {
                assert(self.replies.deep_view() =~= old_script.skip(1));
                assert(head.deep_view() == old_script[0]);
            }
            head
        } else {
            None
        }
    }

    /// How many frames have been sent.
    pub fn sent_count(&self) -> (r: usize)
        ensures
            r == self.sent_log().len(),
    {
        self.sent.len()
    }

    /// The log of sent frames, for inspection by tests and callers.
    pub fn sent_frames(&self) -> (r: &Vec<Vec<u8>>)
        ensures
            r.deep_view() == self.sent_log(),
    {
        &self.sent
    }

    /// How many scripted replies are still unserved.
    pub fn replies_left(&self) -> (r: usize)
        ensures
            r == self.script().len(),
    {
        self.replies.len()
    }
}

} // verus!
