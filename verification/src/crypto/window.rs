//! Bounded tolerance for envelopes that arrive out of order.
//!
//! A transport may reorder or repeat envelopes. A receive window holds back
//! the message keys of the chain positions that were skipped when a later
//! envelope arrived first, so that the earlier ones still open when they
//! come. The window holds at most [`MAX_SKIP`] keys; beyond that the oldest
//! are evicted. A key is removed when it has opened an envelope, so a
//! repeated envelope finds no key.
//!
//! A window belongs to one receiving chain. A Diffie-Hellman step starts the
//! chains anew, and a new window is to be started with it.

use crate::crypto::aead::{open_envelope, opened_envelope, NONCE_LEN, TAG_LEN};
use crate::crypto::ratchet::{
    chain_message_key, chain_next, chain_opens, Ratchet, MESSAGE_AAD,
};
use crate::error::CryptoError;
use vstd::prelude::*;

verus! {

/// How many held-back message keys a window keeps, and how many chain
/// positions one envelope may skip. A protocol parameter.
pub const MAX_SKIP: usize = 50;

/// A message key held back for the chain position it belongs to.
#[derive(Clone, Copy)]
pub struct HeldKey {
    /// The chain position: how many message keys the chain had yielded
    /// before this one.
    pub position: u64,
    /// The message key.
    pub key: [u8; 32],
}

/// The mathematical content of a held-back key.
pub struct HeldKeyView {
    /// The chain position.
    pub position: u64,
    /// The message key, 32 bytes.
    pub key: Seq<u8>,
}

impl View for HeldKey {
    type V = HeldKeyView;

    open spec fn view(&self) -> HeldKeyView {
        HeldKeyView { position: self.position, key: self.key@ }
    }
}

/// The mathematical state of a receiving chain with its window.
pub struct WindowState {
    /// The receiving chain key.
    pub chain_key: Seq<u8>,
    /// The position of the next message key that the chain yields.
    pub position: u64,
    /// The held-back keys, oldest first.
    pub held: Seq<HeldKeyView>,
}

/// `position + steps`, held at the largest position where it would pass it.
pub open spec fn position_after(position: u64, steps: nat) -> u64 {
    if position + steps > u64::MAX {
        u64::MAX
    } else {
        (position + steps) as u64
    }
}

/// What the held key `key` makes of `envelope`.
pub open spec fn key_opens(key: Seq<u8>, envelope: Seq<u8>) -> Result<Seq<u8>, CryptoError> {
    opened_envelope(key, MESSAGE_AAD@, envelope)
}

/// The index of the first held key, from index `from` on, that opens
/// `envelope`.
pub open spec fn held_match(held: Seq<HeldKeyView>, envelope: Seq<u8>, from: int) -> Option<int>
    decreases held.len() - from,
{
    if from < 0 || from >= held.len() {
        None
    } else if key_opens(held[from].key, envelope) is Ok {
        Some(from)
    } else {
        held_match(held, envelope, from + 1)
    }
}

/// The number of the first chain step, counted from `step` for a chain that
/// stands at `chain_key`, whose message key opens `envelope`; `None` where
/// no step up to `limit` does.
pub open spec fn chain_match(chain_key: Seq<u8>, envelope: Seq<u8>, step: nat, limit: nat) -> Option<
    nat,
>
    decreases limit + 1 - step,
{
    if step > limit {
        None
    } else if chain_opens(chain_key, envelope) is Ok {
        Some(step)
    } else {
        chain_match(chain_next(chain_key), envelope, step + 1, limit)
    }
}

/// The chain key `steps` steps after `chain_key`.
pub open spec fn chain_after(chain_key: Seq<u8>, steps: nat) -> Seq<u8>
    decreases steps,
{
    if steps == 0 {
        chain_key
    } else {
        chain_next(chain_after(chain_key, (steps - 1) as nat))
    }
}

/// The message keys of the first `count` steps of a chain that stands at
/// `chain_key` and `position`, each with its position.
pub open spec fn skipped_keys(chain_key: Seq<u8>, position: u64, count: nat) -> Seq<HeldKeyView>
    decreases count,
{
    if count == 0 {
        Seq::empty()
    } else {
        skipped_keys(chain_key, position, (count - 1) as nat).push(
            HeldKeyView {
                position: position_after(position, (count - 1) as nat),
                key: chain_message_key(chain_after(chain_key, (count - 1) as nat)),
            },
        )
    }
}

/// The newest `MAX_SKIP` of `held`: the oldest keys are evicted where there
/// are more.
pub open spec fn evicted(held: Seq<HeldKeyView>) -> Seq<HeldKeyView> {
    if held.len() > MAX_SKIP {
        held.subrange(held.len() - MAX_SKIP, held.len() as int)
    } else {
        held
    }
}

impl WindowState {
    /// What receiving `envelope` returns: `MalformedInput` for an envelope
    /// too short to hold a nonce and a tag; the plaintext under the first
    /// held key that opens it; else the plaintext under the first message
    /// key of the chain, at most `MAX_SKIP` positions ahead, that opens it;
    /// else `AuthFailure`.
    pub open spec fn received(self, envelope: Seq<u8>) -> Result<Seq<u8>, CryptoError> {
        if envelope.len() < NONCE_LEN + TAG_LEN {
            Err(CryptoError::MalformedInput)
        } else {
            match held_match(self.held, envelope, 0) {
                Some(i) => key_opens(self.held[i].key, envelope),
                None => match chain_match(self.chain_key, envelope, 0, MAX_SKIP as nat) {
                    Some(k) => chain_opens(chain_after(self.chain_key, k), envelope),
                    None => Err(CryptoError::AuthFailure),
                },
            }
        }
    }

    /// The state after receiving `envelope`. A held key that opened the
    /// envelope is removed. Where a message key of the chain opened it, the
    /// keys of the skipped positions are held back, the oldest keys are
    /// evicted beyond the window, and the chain stands behind the key that
    /// was used. Where nothing opened it, nothing changes.
    pub open spec fn after_receive(self, envelope: Seq<u8>) -> WindowState {
        if envelope.len() < NONCE_LEN + TAG_LEN {
            self
        } else {
            match held_match(self.held, envelope, 0) {
                Some(i) => WindowState { held: self.held.remove(i), ..self },
                None => match chain_match(self.chain_key, envelope, 0, MAX_SKIP as nat) {
                    Some(k) => WindowState {
                        chain_key: chain_after(self.chain_key, k + 1),
                        position: position_after(self.position, k + 1),
                        held: evicted(self.held + skipped_keys(self.chain_key, self.position, k)),
                    },
                    None => self,
                },
            }
        }
    }
}

/// A held match is an index of a held key that opens the envelope.
pub proof fn lemma_held_match_opens(held: Seq<HeldKeyView>, envelope: Seq<u8>, from: int)
    requires
        0 <= from,
    ensures
        held_match(held, envelope, from) matches Some(i) ==> from <= i < held.len() && key_opens(
            held[i].key,
            envelope,
        ) is Ok,
    decreases held.len() - from,
{
    if from < held.len() && !(key_opens(held[from].key, envelope) is Ok) {
        lemma_held_match_opens(held, envelope, from + 1);
    }
}

/// A chain match is a step, within the limit, whose message key opens the
/// envelope.
pub proof fn lemma_chain_match_opens(chain_key: Seq<u8>, envelope: Seq<u8>, step: nat, limit: nat)
    ensures
        chain_match(chain_key, envelope, step, limit) matches Some(k) ==> step <= k <= limit
            && chain_opens(chain_after(chain_key, (k - step) as nat), envelope) is Ok,
    decreases limit + 1 - step,
{
    if step <= limit && !(chain_opens(chain_key, envelope) is Ok) {
        lemma_chain_match_opens(chain_next(chain_key), envelope, step + 1, limit);
        let m = chain_match(chain_next(chain_key), envelope, step + 1, limit);
        if m is Some {
            let k = m->0;
            lemma_chain_after_shift(chain_key, (k - step - 1) as nat);
        }
    }
}

/// Stepping a chain once and then `steps` times is stepping it `steps + 1`
/// times.
pub proof fn lemma_chain_after_shift(chain_key: Seq<u8>, steps: nat)
    ensures
        chain_after(chain_next(chain_key), steps) == chain_after(chain_key, steps + 1),
    decreases steps,
{
    if steps > 0 {
        lemma_chain_after_shift(chain_key, (steps - 1) as nat);
    }
    assert(chain_after(chain_key, steps + 1) == chain_next(chain_after(chain_key, steps)));
}

/// The window never grows beyond its bound.
pub proof fn lemma_window_stays_bounded(state: WindowState, envelope: Seq<u8>)
    requires
        state.held.len() <= MAX_SKIP,
    ensures
        state.after_receive(envelope).held.len() <= MAX_SKIP,
{
    lemma_held_match_opens(state.held, envelope, 0);
}

/// An envelope that nothing opens changes nothing, and no plaintext comes
/// out of it.
pub proof fn lemma_rejected_envelope_keeps_window(state: WindowState, envelope: Seq<u8>)
    requires
        state.received(envelope) is Err,
    ensures
        state.after_receive(envelope) == state,
{
    lemma_held_match_opens(state.held, envelope, 0);
    lemma_chain_match_opens(state.chain_key, envelope, 0, MAX_SKIP as nat);
}

/// Where some held key from `from` on opens the envelope, there is a held
/// match.
pub proof fn lemma_held_match_finds(held: Seq<HeldKeyView>, envelope: Seq<u8>, from: int, i: int)
    requires
        0 <= from <= i < held.len(),
        key_opens(held[i].key, envelope) is Ok,
    ensures
        held_match(held, envelope, from) is Some,
    decreases i - from,
{
    if from < i && !(key_opens(held[from].key, envelope) is Ok) {
        lemma_held_match_finds(held, envelope, from + 1, i);
    }
}

/// The keys of `count` skipped steps are `count` keys, and the key of step
/// `j` is the message key of the chain `j` steps on, at position `j` on.
pub proof fn lemma_skipped_key(chain_key: Seq<u8>, position: u64, count: nat, j: int)
    requires
        0 <= j < count,
    ensures
        skipped_keys(chain_key, position, count).len() == count,
        skipped_keys(chain_key, position, count)[j] == (HeldKeyView {
            position: position_after(position, j as nat),
            key: chain_message_key(chain_after(chain_key, j as nat)),
        }),
    decreases count,
{
    lemma_skipped_keys_len(chain_key, position, count);
    if j < count - 1 {
        lemma_skipped_key(chain_key, position, (count - 1) as nat, j);
    }
}

/// The keys of `count` skipped steps are `count` keys.
pub proof fn lemma_skipped_keys_len(chain_key: Seq<u8>, position: u64, count: nat)
    ensures
        skipped_keys(chain_key, position, count).len() == count,
    decreases count,
{
    if count > 0 {
        lemma_skipped_keys_len(chain_key, position, (count - 1) as nat);
    }
}

/// In order, a window changes nothing: an envelope that no held key opens
/// and that the chain's next message key opens is received as the plain
/// engine decrypts it. The chain moves one step, and no key is held back or
/// evicted.
pub proof fn lemma_in_order_receive(state: WindowState, envelope: Seq<u8>)
    requires
        state.held.len() <= MAX_SKIP,
        held_match(state.held, envelope, 0) is None,
        chain_opens(state.chain_key, envelope) is Ok,
    ensures
        state.received(envelope) == chain_opens(state.chain_key, envelope),
        state.after_receive(envelope).chain_key == chain_next(state.chain_key),
        state.after_receive(envelope).held == state.held,
        state.after_receive(envelope).position == position_after(state.position, 1),
{
    assert(chain_match(state.chain_key, envelope, 0, MAX_SKIP as nat) == Some(0nat));
    assert(chain_after(state.chain_key, 1) == chain_next(chain_after(state.chain_key, 0)));
    assert(state.held + skipped_keys(state.chain_key, state.position, 0) =~= state.held);
}

/// A late envelope within the window still opens: when an envelope arrived
/// `ahead` positions early and no key had to be evicted, the message key of
/// every skipped position `late < ahead` is held, so an envelope sealed
/// under that key is received with a plaintext and not rejected.
pub proof fn lemma_late_envelope_opens(
    state: WindowState,
    early: Seq<u8>,
    ahead: nat,
    late_envelope: Seq<u8>,
    late: nat,
)
    requires
        early.len() >= NONCE_LEN + TAG_LEN,
        late_envelope.len() >= NONCE_LEN + TAG_LEN,
        held_match(state.held, early, 0) is None,
        chain_match(state.chain_key, early, 0, MAX_SKIP as nat) == Some(ahead),
        state.held.len() + ahead <= MAX_SKIP,
        late < ahead,
        chain_opens(chain_after(state.chain_key, late), late_envelope) is Ok,
    ensures
        state.after_receive(early).received(late_envelope) is Ok,
        state.after_receive(early).chain_key == chain_after(state.chain_key, ahead + 1),
{
    let skipped = skipped_keys(state.chain_key, state.position, ahead);
    lemma_skipped_key(state.chain_key, state.position, ahead, late as int);
    let after = state.after_receive(early);
    assert(after.held == state.held + skipped);
    let index = state.held.len() + late;
    assert(after.held[index as int] == skipped[late as int]);
    lemma_held_match_finds(after.held, late_envelope, 0, index as int);
    lemma_held_match_opens(after.held, late_envelope, 0);
}

/// The views of a sequence of held keys.
pub open spec fn held_views(held: Seq<HeldKey>) -> Seq<HeldKeyView> {
    held.map_values(|h: HeldKey| h@)
}

/// The held-back keys of one receiving chain and the position the chain
/// stands at.
pub struct ReceiveWindow {
    position: u64,
    held: Vec<HeldKey>,
}

impl ReceiveWindow {
    /// A window holds at most `MAX_SKIP` keys.
    pub closed spec fn wf(&self) -> bool {
        self.held@.len() <= MAX_SKIP
    }

    /// The position of the next message key of the chain.
    pub closed spec fn position(&self) -> u64 {
        self.position
    }

    /// The held-back keys, oldest first.
    pub closed spec fn held(&self) -> Seq<HeldKeyView> {
        held_views(self.held@)
    }

    /// The state of a chain that stands at `chain_key` with this window.
    pub open spec fn state(&self, chain_key: Seq<u8>) -> WindowState {
        WindowState { chain_key, position: self.position(), held: self.held() }
    }

    /// An empty window for a chain that has yielded no message key yet.
    pub fn new() -> (window: ReceiveWindow)
        ensures
            window.wf(),
            window.position() == 0,
            window.held() == Seq::<HeldKeyView>::empty(),
    {
        let window = ReceiveWindow { position: 0, held: Vec::new() };
        assert(window.held() =~= Seq::<HeldKeyView>::empty());
        window
    }

    /// Restores a window from the position and the held-back keys that
    /// were stored. More than `MAX_SKIP` keys are `MalformedInput`.
    pub fn from_parts(position: u64, held: Vec<HeldKey>) -> (r: Result<ReceiveWindow, CryptoError>)
        ensures
            held@.len() <= MAX_SKIP ==> r is Ok && r->Ok_0.wf() && r->Ok_0.position() == position
                && r->Ok_0.held() == held_views(held@),
            held@.len() > MAX_SKIP ==> r is Err && r->Err_0 == CryptoError::MalformedInput,
    {
        if held.len() > MAX_SKIP {
            return Err(CryptoError::MalformedInput);
        }
        Ok(ReceiveWindow { position, held })
    }

    /// The held-back keys, oldest first, for durable storage.
    pub fn held_keys(&self) -> (held: &[HeldKey])
        ensures
            held_views(held@) == self.held(),
    {
        self.held.as_slice()
    }

    /// The position of the next message key of the chain.
    pub fn next_position(&self) -> (position: u64)
        ensures
            position == self.position(),
    {
        self.position
    }

    /// How many keys are held back; never more than `MAX_SKIP`.
    pub fn held_count(&self) -> (count: usize)
        requires
            self.wf(),
        ensures
            count == self.held().len(),
            count <= MAX_SKIP,
    {
        self.held.len()
    }

    /// Receives `envelope` on a chain that stands at `chain_key`, and
    /// returns the outcome with the chain key to go on with.
    ///
    /// Outcome and new state are exactly those of
    /// [`WindowState::received`] and [`WindowState::after_receive`]. Where
    /// nothing opens the envelope the chain key comes back as it was and
    /// the window is unchanged.
    pub fn receive(&mut self, chain_key: [u8; 32], envelope: &[u8]) -> (out: (
        Result<Vec<u8>, CryptoError>,
        [u8; 32],
    ))
        requires
            old(self).wf(),
        ensures
            final(self).wf(),
            crate::crypto::aead::result_view(out.0) == old(self).state(chain_key@).received(
                envelope@,
            ),
            final(self).state(out.1@) == old(self).state(chain_key@).after_receive(envelope@),
    {
        if envelope.len() < NONCE_LEN + TAG_LEN {
            return (Err(CryptoError::MalformedInput), chain_key);
        }
        let ghost before = self.state(chain_key@);
        let mut i: usize = 0;
        while i < self.held.len()
            invariant
                i <= self.held@.len(),
                self.held@.len() <= MAX_SKIP,
                self.state(chain_key@) == before,
                before == old(self).state(chain_key@),
                envelope@.len() >= NONCE_LEN + TAG_LEN,
                held_match(before.held, envelope@, 0) == held_match(
                    before.held,
                    envelope@,
                    i as int,
                ),
            decreases self.held@.len() - i,
        {
            let candidate = self.held[i];
            assert(before.held[i as int] == candidate@);
            match open_envelope(&candidate.key, MESSAGE_AAD.as_slice(), envelope) {
                Ok(plaintext) => {
                    let ghost old_held = self.held@;
                    self.held.remove(i);
                    proof {
                        assert(held_views(old_held.remove(i as int)) =~= held_views(
                            old_held,
                        ).remove(i as int));
                        assert(key_opens(before.held[i as int].key, envelope@) is Ok);
                        assert(held_match(before.held, envelope@, i as int) == Some(i as int));
                    }
                    return (Ok(plaintext), chain_key);
                },
                Err(_) => {},
            }
            i += 1;
        }
        let mut current = chain_key;
        let mut step: usize = 0;
        let mut pending: Vec<HeldKey> = Vec::new();
        proof {
            assert(held_views(pending@) =~= skipped_keys(chain_key@, self.position, 0));
        }
        while step <= MAX_SKIP
            invariant
                step <= MAX_SKIP + 1,
                self.held@.len() <= MAX_SKIP,
                self.state(chain_key@) == before,
                before == old(self).state(chain_key@),
                envelope@.len() >= NONCE_LEN + TAG_LEN,
                held_match(before.held, envelope@, 0) is None,
                current@ == chain_after(chain_key@, step as nat),
                pending@.len() == step,
                held_views(pending@) == skipped_keys(chain_key@, before.position, step as nat),
                chain_match(chain_key@, envelope@, 0, MAX_SKIP as nat) == chain_match(
                    current@,
                    envelope@,
                    step as nat,
                    MAX_SKIP as nat,
                ),
            decreases MAX_SKIP + 1 - step,
        {
            let (next, message_key) = Ratchet::kdf_chain(&current);
            match open_envelope(&message_key, MESSAGE_AAD.as_slice(), envelope) {
                Ok(plaintext) => {
                    let ghost old_held = self.held@;
                    let ghost skipped = pending@;
                    self.held.append(&mut pending);
                    let total = self.held.len();
                    if total > MAX_SKIP {
                        let newest = self.held.split_off(total - MAX_SKIP);
                        self.held = newest;
                    }
                    self.position = self.position.saturating_add(step as u64 + 1);
                    proof {
                        assert(held_views(old_held + skipped) =~= held_views(old_held)
                            + held_views(skipped));
                        let combined = old_held + skipped;
                        if combined.len() > MAX_SKIP {
                            assert(held_views(
                                combined.subrange(combined.len() - MAX_SKIP, combined.len() as int),
                            ) =~= held_views(combined).subrange(
                                combined.len() - MAX_SKIP,
                                combined.len() as int,
                            ));
                        }
                        assert(next@ == chain_after(chain_key@, (step + 1) as nat));
                        assert(chain_opens(current@, envelope@) is Ok);
                        assert(chain_match(current@, envelope@, step as nat, MAX_SKIP as nat)
                            == Some(step as nat));
                        assert(self.position == position_after(
                            before.position,
                            (step + 1) as nat,
                        ));
                        assert(held_views(self.held@) =~= evicted(
                            before.held + skipped_keys(
                                chain_key@,
                                before.position,
                                step as nat,
                            ),
                        ));
                    }
                    return (Ok(plaintext), next);
                },
                Err(_) => {
                    let ghost old_pending = pending@;
                    let held_key = HeldKey {
                        position: self.position.saturating_add(step as u64),
                        key: message_key,
                    };
                    pending.push(held_key);
                    proof {
                        assert(held_views(old_pending.push(held_key)) =~= held_views(
                            old_pending,
                        ).push(held_key@));
                        assert(next@ == chain_after(chain_key@, (step + 1) as nat));
                    }
                    current = next;
                    step += 1;
                },
            }
        }
        (Err(CryptoError::AuthFailure), chain_key)
    }
}

} // verus!
