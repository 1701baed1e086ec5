//! Inbound patch channel: jump tables and the capacity-one mailbox.
//!
//! A jump table arrives from the external transport as a list of address
//! redirections.  Tables may arrive faster than the frame loop consumes them;
//! the mailbox keeps at most one pending table, a later delivery replacing an
//! unconsumed earlier one, so that each tick observes at most one hot-patch
//! notification.

use vstd::prelude::*;

verus! {

/// One redirection of a jump table: code that lived at address `from` now
/// lives at address `to`.  Addresses are opaque comparison tokens; nothing
/// here ever dereferences them.
#[derive(Clone, Copy, Debug, PartialEq, Eq, Structural)]
pub struct AddressPair {
    pub from: u64,
    pub to: u64,
}

/// Where a table sends address `a`: the `to` of the first pair whose `from`
/// is `a`, or `a` itself when no pair mentions it.
pub open spec fn redirect_model(pairs: Seq<AddressPair>, a: u64) -> u64
    decreases pairs.len(),
{
    if pairs.len() == 0 {
        a
    } else if pairs[0].from == a {
        pairs[0].to
    } else {
        redirect_model(pairs.skip(1), a)
    }
}

/// A table under which every address keeps its meaning: following the table
/// from any address lands on that same address.
pub open spec fn identity_table(pairs: Seq<AddressPair>) -> bool {
    forall|a: u64| redirect_model(pairs, a) == a
}

/// A table each of whose pairs sends an address to itself maps every address
/// identically, mentioned or not.
pub proof fn lemma_self_pairs_form_identity_table(pairs: Seq<AddressPair>)
    requires
        forall|i: int| 0 <= i < pairs.len() ==> (#[trigger] pairs[i]).to == pairs[i].from,
    ensures
        identity_table(pairs),
    decreases pairs.len(),
{
    if pairs.len() > 0 {
        assert forall|i: int| 0 <= i < pairs.skip(1).len() implies (#[trigger] pairs.skip(
            1,
        )[i]).to == pairs.skip(1)[i].from by {
            assert(pairs.skip(1)[i] == pairs[i + 1]);
        }
        lemma_self_pairs_form_identity_table(pairs.skip(1));
        assert forall|a: u64| redirect_model(pairs, a) == a by {
            if pairs[0].from == a {
                assert(pairs[0].to == pairs[0].from);
            } else {
                assert(redirect_model(pairs, a) == redirect_model(pairs.skip(1), a));
                assert(redirect_model(pairs.skip(1), a) == a);
            }
        }
    }
}

/// An externally supplied mapping from old code addresses to new code
/// addresses.  Ownership is transient: a table is consumed once, never kept.
pub struct JumpTable {
    pub pairs: Vec<AddressPair>,
}

impl View for JumpTable {
    type V = Seq<AddressPair>;

    open spec fn view(&self) -> Seq<AddressPair> {
        self.pairs@
    }
}

impl JumpTable {
    /// The address the table redirects `a` to, `a` itself when unmentioned.
    pub fn redirect(&self, a: u64) -> (r: u64)
        ensures
            r == redirect_model(self@, a),
    {
        let mut i: usize = 0;
        assert(self@.skip(0) =~= self@);
        while i < self.pairs.len()
            invariant
                0 <= i <= self.pairs.len(),
                redirect_model(self@, a) == redirect_model(self@.skip(i as int), a),
            decreases self.pairs.len() - i,
        {
            if self.pairs[i].from == a {
                assert(self@.skip(i as int)[0] == self.pairs[i as int]);
                return self.pairs[i].to;
            }
            assert(self@.skip(i as int).skip(1) =~= self@.skip(i + 1));
            i = i + 1;
        }
        assert(self@.skip(i as int).len() == 0);
        a
    }
}

/// The hot-patch notification: a single-shot event with no payload beyond its
/// occurrence, observed at most once per applied patch.
#[derive(Clone, Copy, Debug, PartialEq, Eq, Structural)]
pub struct HotPatched;

/// What delivering a table leaves pending: the new table, whatever was there
/// before.  A pending patch is replaced by, not queued behind, a later one.
pub open spec fn deliver_model(
    pending: Option<Seq<AddressPair>>,
    table: Seq<AddressPair>,
) -> Option<Seq<AddressPair>> {
    Some(table)
}

/// Whether consuming the mailbox at a tick emits a notification.
pub open spec fn consume_emits(pending: Option<Seq<AddressPair>>) -> bool {
    pending is Some
}

/// The capacity-one mailbox between the transport that delivers jump tables
/// and the frame loop that consumes them once per tick.
pub struct PatchMailbox {
    pending: Option<JumpTable>,
}

impl View for PatchMailbox {
    type V = Option<Seq<AddressPair>>;

    closed spec fn view(&self) -> Option<Seq<AddressPair>> {
        match self.pending {
            Some(ref t) => Some(t@),
            None => None,
        }
    }
}

impl PatchMailbox {
    /// An empty mailbox: nothing pending, nothing to notify.
    pub fn new() -> (m: Self)
        ensures
            m@ is None,
    {
        PatchMailbox { pending: None }
    }

    /// Deliver a table.  Coalesces: an unconsumed earlier table is replaced.
    pub fn deliver(&mut self, table: JumpTable)
        ensures
            final(self)@ == deliver_model(old(self)@, table@),
    {
        self.pending = Some(table);
    }

    /// Consume the mailbox at a tick boundary: hand out the pending table
    /// together with the one notification it warrants, or nothing.  The
    /// mailbox is empty afterwards either way.
    pub fn consume(&mut self) -> (r: Option<(JumpTable, HotPatched)>)
        ensures
            final(self)@ is None,
            r is Some <==> consume_emits(old(self)@),
            r matches Some(p) ==> Some(p.0@) == old(self)@,
    {
        match self.pending.take() {
            Some(t) => Some((t, HotPatched)),
            None => None,
        }
    }
}

/// Handle one inbound transport message: a message carrying a jump table is
/// delivered to the mailbox, a message without one is ignored.
pub fn receive_patch_message(mailbox: &mut PatchMailbox, table: Option<JumpTable>)
    ensures
        table matches Some(t) ==> final(mailbox)@ == deliver_model(old(mailbox)@, t@),
        table is None ==> final(mailbox)@ == old(mailbox)@,
{
    match table {
        Some(t) => mailbox.deliver(t),
        None => {},
    }
}

/// Notification coalescing: however many tables are delivered before a tick,
/// the tick that consumes the mailbox observes exactly one notification (for
/// the latest table), and the following tick, with nothing delivered in
/// between, observes none.
pub proof fn lemma_notifications_coalesce(
    pending: Option<Seq<AddressPair>>,
    first: Seq<AddressPair>,
    second: Seq<AddressPair>,
)
    ensures
        consume_emits(deliver_model(deliver_model(pending, first), second)),
        deliver_model(deliver_model(pending, first), second) == Some(second),
        !consume_emits(None::<Seq<AddressPair>>),
{
}

} // verus!
