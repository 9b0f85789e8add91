use vstd::prelude::*;
use crate::registry::WebsocketConnections;
use crate::state::{
    is_v4, lemma_uuid_text_injective, random_uuid, session_dir, still_path, still_path_of,
    uuid_text, State,
};

verus! {

/// The session a still goes to when a frame arrives: the active one, if a
/// capture was requested and a session is active; none otherwise.
pub open spec fn still_session(pending: bool, active: Option<u128>) -> Option<u128> {
    if pending {
        active
    } else {
        None
    }
}

/// The sessions that `frames` successive capture checks store a still under,
/// one entry per frame (`None`: no still), starting with the trigger
/// `pending` and the active session `active`; each check clears the trigger.
pub open spec fn stills_over(pending: bool, active: Option<u128>, frames: nat) -> Seq<Option<u128>>
    decreases frames,
{
    if frames == 0 {
        Seq::empty()
    } else {
        seq![still_session(pending, active)] + stills_over(false, active, (frames - 1) as nat)
    }
}

/// Once the trigger is cleared, no later frame stores a still.
pub proof fn lemma_no_pending_no_write(active: Option<u128>, frames: nat)
    ensures
        stills_over(false, active, frames).len() == frames,
        forall|i: int| 0 <= i < frames ==> #[trigger] stills_over(false, active, frames)[i] is None,
    decreases frames,
{
    if frames > 0 {
        lemma_no_pending_no_write(active, (frames - 1) as nat);
    }
}

/// One capture request followed by one or more frames, with a session
/// active, stores exactly one still: from the first of those frames, under
/// that session.
pub proof fn lemma_single_shot(session: u128, frames: nat)
    requires
        frames >= 1,
    ensures
        stills_over(true, Some(session), frames).len() == frames,
        stills_over(true, Some(session), frames)[0] == Some(session),
        forall|i: int|
            1 <= i < frames ==> #[trigger] stills_over(true, Some(session), frames)[i] is None,
{
    lemma_no_pending_no_write(Some(session), (frames - 1) as nat);
    let rest = stills_over(false, Some(session), (frames - 1) as nat);
    assert forall|i: int| 1 <= i < frames implies #[trigger] stills_over(
        true,
        Some(session),
        frames,
    )[i] is None by {
        assert(stills_over(true, Some(session), frames)[i] == rest[i - 1]);
    }
}

/// With no session active, capture requests store no still, whatever the
/// trigger and however many frames follow.
pub proof fn lemma_no_session_no_write(pending: bool, frames: nat)
    ensures
        stills_over(pending, None, frames).len() == frames,
        forall|i: int| 0 <= i < frames ==> #[trigger] stills_over(pending, None, frames)[i] is None,
{
    if frames > 0 {
        lemma_no_pending_no_write(None, (frames - 1) as nat);
        let rest = stills_over(false, None, (frames - 1) as nat);
        assert forall|i: int| 0 <= i < frames implies #[trigger] stills_over(
            pending,
            None,
            frames,
        )[i] is None by {
            if i > 0 {
                assert(stills_over(pending, None, frames)[i] == rest[i - 1]);
            }
        }
    }
}

/// Stills taken under two distinct sessions land in two distinct session
/// directories, each inside its own session's directory, at distinct paths.
pub proof fn lemma_session_isolation(a: u128, b: u128, file_a: u128, file_b: u128)
    requires
        a != b,
    ensures
        session_dir(a) != session_dir(b),
        still_path(a, file_a).subrange(0, session_dir(a).len() as int) == session_dir(a),
        still_path(b, file_b).subrange(0, session_dir(b).len() as int) == session_dir(b),
        still_path(a, file_a) != still_path(b, file_b),
{
    lemma_uuid_text_injective(a, b);
    let pre = "sessions/"@;
    if session_dir(a) == session_dir(b) {
        assert(session_dir(a).subrange(pre.len() as int, session_dir(a).len() as int) =~= uuid_text(a));
        assert(session_dir(b).subrange(pre.len() as int, session_dir(b).len() as int) =~= uuid_text(b));
    }
    assert(still_path(a, file_a).subrange(0, session_dir(a).len() as int) =~= session_dir(a));
    assert(still_path(b, file_b).subrange(0, session_dir(b).len() as int) =~= session_dir(b));
    assert(session_dir(a).len() == session_dir(b).len());
}

/// One fan-out pass: the frame to deliver, and the subscribers registered when
/// the pass began, in admission order, each to be sent the frame once.
pub struct FanOut<C> {
    pub frame: Vec<u8>,
    pub targets: Vec<C>,
}

/// A still to be written: the session it belongs to, its own identifier, and
/// the file it goes to.
pub struct StillCapture {
    pub session: u128,
    pub file: u128,
    pub path: String,
}

/// The broadcast hub: the subscriber registry with its capture trigger, and
/// the session state.
pub struct Session<C> {
    pub state: State,
    pub connections: WebsocketConnections<C>,
}

/// A byte-for-byte copy of a frame.
pub fn copy_frame(img: &[u8]) -> (r: Vec<u8>)
    ensures
        r@ == img@,
{
    let mut out: Vec<u8> = Vec::new();
    let mut i: usize = 0;
    while i < img.len()
        invariant
            i <= img@.len(),
            out@ == img@.subrange(0, i as int),
        decreases img@.len() - i,
    {
        out.push(img[i]);
        i = i + 1;
        assert(out@ =~= img@.subrange(0, i as int));
    }
    assert(img@.subrange(0, img@.len() as int) =~= img@);
    out
}

impl<C> Session<C> {
    /// No subscribers, no capture pending, no session active.
    pub fn new() -> (r: Self)
        ensures
            r.connections@ == Seq::<C>::empty(),
            !r.connections.pic_pending(),
            r.state.curr_session is None,
    {
        Session { state: State::new(), connections: WebsocketConnections::new() }
    }

    /// Starts the fan-out of the frame `img`: every subscriber registered now
    /// is handed out once, with a byte-identical copy of the frame. Until
    /// `finish_broadcast`, the registry holds only those admitted meanwhile.
    pub fn broadcast_img(&mut self, img: &[u8]) -> (r: FanOut<C>)
        ensures
            r.frame@ == img@,
            r.targets@ == old(self).connections@,
            final(self).connections@ == Seq::<C>::empty(),
            final(self).connections.pic_pending() == old(self).connections.pic_pending(),
            final(self).state.curr_session == old(self).state.curr_session,
    {
        let frame = copy_frame(img);
        let targets = self.connections.begin_pass();
        FanOut { frame, targets }
    }

    /// Ends the fan-out pass over `targets`: those whose delivery failed are
    /// dropped, the others stay, ahead of any admitted during the pass.
    pub fn finish_broadcast(&mut self, targets: Vec<C>, delivered: &Vec<bool>)
        requires
            targets@.len() == delivered@.len(),
        ensures
            final(self).connections@ == crate::registry::survivors(targets@, delivered@) + old(
                self,
            ).connections@,
            final(self).connections.pic_pending() == old(self).connections.pic_pending(),
            final(self).state.curr_session == old(self).state.curr_session,
    {
        self.connections.end_pass(targets, delivered);
    }

    /// The per-frame capture check: consumes the trigger and, when a capture
    /// was pending and a session is active, names a fresh file (a random
    /// version-4 UUID) under that session's directory. A request with no
    /// active session is dropped.
    pub fn capture_still(&mut self) -> (r: Option<StillCapture>)
        ensures
            !final(self).connections.pic_pending(),
            final(self).connections@ == old(self).connections@,
            final(self).state.curr_session == old(self).state.curr_session,
            match r {
                Some(c) => still_session(
                    old(self).connections.pic_pending(),
                    old(self).state.curr_session,
                ) == Some(c.session) && is_v4(c.file) && c.path@ == still_path(
                    c.session,
                    c.file,
                ),
                None => still_session(
                    old(self).connections.pic_pending(),
                    old(self).state.curr_session,
                ) is None,
            },
    {
        let pending = self.connections.take_pic();
        if pending {
            match self.state.curr_session {
                Some(session) => {
                    let file = random_uuid();
                    let path = still_path_of(session, file);
                    Some(StillCapture { session, file, path })
                },
                None => None,
            }
        } else {
            None
        }
    }
}

} // verus!
