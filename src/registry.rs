use vstd::prelude::*;

verus! {

/// The subscribers of a fan-out pass that stay registered: those whose
/// delivery succeeded, in their original order.
pub open spec fn survivors<C>(pass: Seq<C>, delivered: Seq<bool>) -> Seq<C>
    decreases pass.len(),
{
    if pass.len() == 0 {
        Seq::empty()
    } else {
        let rest = survivors(pass.drop_first(), delivered.drop_first());
        if delivered[0] {
            seq![pass[0]] + rest
        } else {
            rest
        }
    }
}

/// When every delivery of a pass succeeds, the registry keeps every
/// subscriber, in the same order.
pub proof fn lemma_all_delivered<C>(pass: Seq<C>, delivered: Seq<bool>)
    requires
        pass.len() == delivered.len(),
        forall|i: int| 0 <= i < delivered.len() ==> delivered[i],
    ensures
        survivors(pass, delivered) == pass,
    decreases pass.len(),
{
    if pass.len() > 0 {
        lemma_all_delivered(pass.drop_first(), delivered.drop_first());
        assert(seq![pass[0]] + pass.drop_first() =~= pass);
    }
}

/// When exactly one delivery of a pass fails, every other subscriber stays,
/// in order, and the failing one is the only one removed.
pub proof fn lemma_fault_isolation<C>(pass: Seq<C>, delivered: Seq<bool>, k: int)
    requires
        pass.len() == delivered.len(),
        0 <= k < pass.len(),
        !delivered[k],
        forall|i: int| 0 <= i < delivered.len() && i != k ==> delivered[i],
    ensures
        survivors(pass, delivered) == pass.remove(k),
    decreases pass.len(),
{
    if k == 0 {
        lemma_all_delivered(pass.drop_first(), delivered.drop_first());
        assert(pass.remove(0) =~= pass.drop_first());
    } else {
        lemma_fault_isolation(pass.drop_first(), delivered.drop_first(), k - 1);
        assert(seq![pass[0]] + pass.drop_first().remove(k - 1) =~= pass.remove(k));
    }
}

/// The stayers of a pass are a part of it: none is added or repeated.
pub proof fn lemma_survivors_len<C>(pass: Seq<C>, delivered: Seq<bool>)
    requires
        pass.len() == delivered.len(),
    ensures
        survivors(pass, delivered).len() <= pass.len(),
        forall|x: C| survivors(pass, delivered).contains(x) ==> pass.contains(x),
    decreases pass.len(),
{
    if pass.len() > 0 {
        lemma_survivors_len(pass.drop_first(), delivered.drop_first());
        let rest = survivors(pass.drop_first(), delivered.drop_first());
        assert forall|x: C| survivors(pass, delivered).contains(x) implies pass.contains(x) by {
            if rest.contains(x) {
                let j = choose|j: int| 0 <= j < rest.len() && rest[j] == x;
                assert(pass.drop_first().contains(x));
                let m = choose|m: int| 0 <= m < pass.len() - 1 && pass.drop_first()[m] == x;
                assert(pass[m + 1] == x);
            } else {
                assert(pass[0] == x);
            }
        }
    }
}

/// A subscriber admitted while a pass over `registered` runs joins the
/// registry behind the stayers of that pass, so the next pass reaches it:
/// afterwards the registry holds at most one entry more than before, every
/// entry is the new subscriber or was registered before, and with every
/// delivery successful it is the old registry with the new subscriber appended.
pub proof fn lemma_admission_during_pass<C>(registered: Seq<C>, delivered: Seq<bool>, conn: C)
    requires
        registered.len() == delivered.len(),
    ensures
        (survivors(registered, delivered) + Seq::<C>::empty().push(conn)).len() <= registered.len() + 1,
        (survivors(registered, delivered) + Seq::<C>::empty().push(conn)).last() == conn,
        forall|x: C|
            (survivors(registered, delivered) + Seq::<C>::empty().push(conn)).contains(x) ==> x
                == conn || registered.contains(x),
        (forall|i: int| 0 <= i < delivered.len() ==> delivered[i]) ==> survivors(
            registered,
            delivered,
        ) + Seq::<C>::empty().push(conn) == registered.push(conn),
{
    lemma_survivors_len(registered, delivered);
    let kept = survivors(registered, delivered);
    let after = kept + Seq::<C>::empty().push(conn);
    assert(after =~= kept.push(conn));
    assert forall|x: C| after.contains(x) implies x == conn || registered.contains(x) by {
        let j = choose|j: int| 0 <= j < after.len() && after[j] == x;
        if j < kept.len() {
            assert(kept.contains(x));
        }
    }
    if forall|i: int| 0 <= i < delivered.len() ==> delivered[i] {
        lemma_all_delivered(registered, delivered);
    }
}

/// The live subscriber connections, in admission order, together with the
/// one-shot still-capture trigger.
pub struct WebsocketConnections<C> {
    connections: Vec<C>,
    take_pic: bool,
}

impl<C> View for WebsocketConnections<C> {
    type V = Seq<C>;

    closed spec fn view(&self) -> Seq<C> {
        self.connections@
    }
}

impl<C> WebsocketConnections<C> {
    /// Whether a still capture has been requested and not yet consumed.
    pub closed spec fn pic_pending(&self) -> bool {
        self.take_pic
    }

    /// An empty registry with no capture pending.
    pub fn new() -> (r: Self)
        ensures
            r@ == Seq::<C>::empty(),
            !r.pic_pending(),
    {
        WebsocketConnections { connections: Vec::new(), take_pic: false }
    }

    /// Number of live subscribers.
    pub fn len(&self) -> (r: usize)
        ensures
            r == self@.len(),
    {
        self.connections.len()
    }

    /// Admits a subscriber: it is appended after every earlier one.
    pub fn add(&mut self, conn: C)
        ensures
            final(self)@ == old(self)@.push(conn),
            final(self).pic_pending() == old(self).pic_pending(),
    {
        self.connections.push(conn);
    }

    /// Consumes the capture trigger: reports whether a capture was pending and
    /// clears it.
    pub fn take_pic(&mut self) -> (r: bool)
        ensures
            r == old(self).pic_pending(),
            !final(self).pic_pending(),
            final(self)@ == old(self)@,
    {
        if self.take_pic {
            self.take_pic = false;
            true
        } else {
            false
        }
    }

    /// Requests a still capture of the next frame; requesting again before it
    /// is consumed changes nothing.
    pub fn take_pic_time(&mut self)
        ensures
            final(self).pic_pending(),
            final(self)@ == old(self)@,
    {
        self.take_pic = true
    }

    /// Starts a fan-out pass: hands out every registered subscriber, in
    /// admission order, and leaves the registry empty until the pass ends.
    pub fn begin_pass(&mut self) -> (r: Vec<C>)
        ensures
            r@ == old(self)@,
            final(self)@ == Seq::<C>::empty(),
            final(self).pic_pending() == old(self).pic_pending(),
    {
        let mut out: Vec<C> = Vec::new();
        std::mem::swap(&mut out, &mut self.connections);
        out
    }

    /// Ends a fan-out pass: the subscribers whose delivery succeeded go back,
    /// in their order, ahead of any admitted while the pass ran; the others
    /// are dropped.
    pub fn end_pass(&mut self, pass: Vec<C>, delivered: &Vec<bool>)
        requires
            pass@.len() == delivered@.len(),
        ensures
            final(self)@ == survivors(pass@, delivered@) + old(self)@,
            final(self).pic_pending() == old(self).pic_pending(),
    {
        let mut pass = pass;
        let mut kept: Vec<C> = Vec::new();
        let ghost all = pass@;
        let n = delivered.len();
        let mut i: usize = 0;
        assert(delivered@.subrange(0, n as int) =~= delivered@);
        assert(pass@ =~= all.subrange(0, n as int));
        assert(kept@ + survivors(all, delivered@) =~= survivors(all, delivered@));
        while i < n
            invariant
                n == delivered@.len(),
                all.len() == n,
                i <= n,
                pass@ == all.subrange(i as int, n as int),
                kept@ + survivors(pass@, delivered@.subrange(i as int, n as int))
                    == survivors(all, delivered@),
            decreases n - i,
        {
            let conn = pass.remove(0);
            let ghost rest = delivered@.subrange(i as int, n as int);
            assert(rest.drop_first() =~= delivered@.subrange(i + 1, n as int));
            if delivered[i] {
                kept.push(conn);
            }
            assert(pass@ =~= all.subrange(i + 1, n as int));
            i = i + 1;
        }
        assert(pass@.len() == 0);
        std::mem::swap(&mut kept, &mut self.connections);
        self.connections.append(&mut kept);
    }
}

} // verus!
