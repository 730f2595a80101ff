//! The fob: a paired fob clones itself onto an unpaired one under a PIN, stores
//! feature tokens, and answers the car's unlock challenge.

use vstd::prelude::*;
use rand_chacha::ChaCha20Rng;
use crate::crypto::{ecdsa_accepts, secret_key_valid, seeded_rng, sha256, sha256_of, sign, verify};
use crate::protocol::{
    append, be_u64_bytes, be_u64_value, board_msg, clock_after, host_msg, is_board_msg,
    is_host_msg, next_nonce, nonce_successor, payload, payload_of, persist, persists, scheduled_us,
    tag, u64_from_be, u64_to_be, uart_read_board, uart_read_host, uart_write_board, Action, Input,
    ENAB_FEAT, FOB_CAR_ID, FOB_CAR_PUBLIC, FOB_FEAT_1_SIG, FOB_FEAT_2_SIG, FOB_FEAT_3_SIG,
    FOB_IS_PAIRED, FOB_PIN_HASH, FOB_SALT, FOB_SECRET, FOB_SECRET_ENC, HOST_FAILURE, HOST_SUCCESS,
    LEN_CAR_ID, LEN_HASH, LEN_NONCE, LEN_PAIRED, LEN_PUBLIC, LEN_SALT, LEN_SECRET, LEN_SIG,
    PAIR_ACK, PAIR_FIN, PAIR_REQ, PAIR_RST, PAIR_SYN, UNLOCK_CHAL, UNLOCK_FEAT, UNLOCK_GOOD,
    UNLOCK_REQ, UNLOCK_RESP, UNLOCK_RST,
};
use crate::car::chal_acts;
use crate::protocol::lemma_be_u64_round_trip;
use crate::store::{field, written, Store, STORE_SIZE};

verus! {

/// Whole budget of the paired side of a pairing, in microseconds.
pub const PAIR_BUDGET_US: u32 = 1_000_000;
/// Time left on the pairing budget when `PAIR_ACK` is checked: 800 ms have passed.
pub const PAIR_ACK_REMAINING_US: u32 = 200_000;
/// Penalty after a wrong PIN, on top of the budget, in microseconds.
pub const PAIR_PENALTY_US: u32 = 4_000_000;
/// How long an unpaired fob waits for `PAIR_FIN` or `PAIR_RST`, in microseconds.
pub const PAIR_FIN_WAIT_US: u32 = 10_000_000;
/// Pause before a feature token is stored, in microseconds.
pub const ENROL_DELAY_US: u32 = 800_000;
/// How long a fob waits for each reply of the car, in microseconds.
pub const UNLOCK_WAIT_US: u32 = 1_000_000;

/// Where the fob stands in its protocols.
#[derive(Clone, Copy, PartialEq, Eq, Structural)]
pub enum FobPhase {
    Idle,
    /// Paired side: `PAIR_SYN` with this PIN was sent; `PAIR_ACK` is awaited.
    AwaitAck(u8, u8, u8),
    /// Unpaired side: `PAIR_ACK` was sent for this PIN; `PAIR_FIN` is awaited.
    AwaitFin(u8, u8, u8),
    /// `UNLOCK_REQ` was sent; the challenge is awaited.
    AwaitChal,
    /// `UNLOCK_RESP` was sent; `UNLOCK_GOOD` is awaited.
    AwaitGood,
}

pub struct Fob {
    phase: FobPhase,
    rng: ChaCha20Rng,
}

/// Whether the stored paired flag is set (any nonzero byte).
pub open spec fn paired(img: Seq<u8>) -> bool {
    field(img, FOB_IS_PAIRED as int, 4) != seq![0u8, 0u8, 0u8, 0u8]
}

/// The stored PIN hash for `pin`: SHA-256(salt || 0x00 || pin).
pub open spec fn pin_hash_of(salt: Seq<u8>, pin: Seq<u8>) -> Seq<u8> {
    sha256_of(salt + seq![0u8] + pin)
}

/// The key that wraps the fob secret under `pin`: SHA-256(pin || 0x00 || salt).
pub open spec fn wrap_key_of(pin: Seq<u8>, salt: Seq<u8>) -> Seq<u8> {
    sha256_of(pin + seq![0u8] + salt)
}

/// Bytewise xor of `a` with the first `a.len()` bytes of `b`.
pub open spec fn xor_bytes(a: Seq<u8>, b: Seq<u8>) -> Seq<u8> {
    Seq::new(a.len(), |i: int| a[i] ^ b[i])
}

/// The stored salt.
pub open spec fn salt_of(img: Seq<u8>) -> Seq<u8> {
    field(img, FOB_SALT as int, 12)
}

/// The slot of feature signature `n` (1, 2 or 3).
pub open spec fn feat_slot(n: int) -> int {
    if n == 1 {
        FOB_FEAT_1_SIG as int
    } else if n == 2 {
        FOB_FEAT_2_SIG as int
    } else {
        FOB_FEAT_3_SIG as int
    }
}

/// The three stored feature signatures, in order.
pub open spec fn feature_sigs(img: Seq<u8>) -> Seq<u8> {
    field(img, FOB_FEAT_1_SIG as int, 64) + field(img, FOB_FEAT_2_SIG as int, 64) + field(
        img,
        FOB_FEAT_3_SIG as int,
        64,
    )
}

/// The value of four big-endian bytes.
pub open spec fn be_u32_value(b: Seq<u8>) -> int {
    b[0] * 0x100_0000 + b[1] * 0x1_0000 + b[2] * 0x100 + b[3]
}

impl Fob {
    /// The fob's phase.
    pub closed spec fn state(&self) -> FobPhase {
        self.phase
    }

    /// Returns the fob's phase.
    pub fn phase(&self) -> (r: FobPhase)
        ensures
            r == self.state(),
    {
        self.phase
    }

    /// A fob in idle. Its signatures need no fresh randomness (the car picks the
    /// nonce), so its generator has a fixed seed.
    pub fn new() -> (r: Fob)
        ensures
            r.state() == FobPhase::Idle,
    {
        Fob { phase: FobPhase::Idle, rng: seeded_rng([0u8; 32]) }
    }
}

/// Reads the paired flag.
pub fn is_paired(store: &Store) -> (r: bool)
    requires
        store@.len() == STORE_SIZE,
    ensures
        r == paired(store@),
{
    let flag = store.read(FOB_IS_PAIRED, LEN_PAIRED);
    let r = flag[0] != 0 || flag[1] != 0 || flag[2] != 0 || flag[3] != 0;
    assert(r == (flag@ != seq![0u8, 0u8, 0u8, 0u8])) by {
        if !r {
            assert(flag@ =~= seq![0u8, 0u8, 0u8, 0u8]);
        }
    }
    r
}

/// Sets the paired flag (to the word 1), recording the write.
pub fn set_paired(store: &mut Store, acts: &mut Vec<Action>)
    requires
        old(store)@.len() == STORE_SIZE,
    ensures
        final(store)@ == written(old(store)@, FOB_IS_PAIRED as int, seq![1u8, 0u8, 0u8, 0u8]),
        final(store)@.len() == STORE_SIZE,
        paired(final(store)@),
        forall|j: int|
            0 <= j < STORE_SIZE && !(FOB_IS_PAIRED <= j < FOB_IS_PAIRED + 4)
                ==> #[trigger] final(store)@[j] == old(store)@[j],
        final(acts)@.len() == old(acts)@.len() + 1,
        final(acts)@.subrange(0, old(acts)@.len() as int) == old(acts)@,
        final(acts)@.last() is Persist,
        final(acts)@.last()->Persist_0 == FOB_IS_PAIRED,
{
    let one: [u8; 4] = [1u8, 0u8, 0u8, 0u8];
    persist(store, acts, FOB_IS_PAIRED, &one);
    assert(field(store@, FOB_IS_PAIRED as int, 4) =~= seq![1u8, 0u8, 0u8, 0u8]);
}

/// The actions of `enable_feature` for a request payload `p`: a pause, then the
/// signature is stored in slot `n` and success reported, or failure reported
/// when `n` is not 1, 2 or 3.
pub open spec fn enrol_acts(acts: Seq<Action>, p: Seq<u8>) -> bool {
    let n = be_u32_value(p.subrange(4, 8));
    &&& acts[0] == Action::Sleep(ENROL_DELAY_US)
    &&& acts.last() is Host
    &&& if 1 <= n <= 3 {
        &&& acts.len() == 3
        &&& acts[1] is Persist
        &&& acts[1]->Persist_0 == feat_slot(n)
        &&& acts[2]->Host_0@ == seq![HOST_SUCCESS]
    } else {
        &&& acts.len() == 2
        &&& acts[1]->Host_0@ == seq![HOST_FAILURE]
    }
}

/// The store after `enable_feature` with payload `p`.
pub open spec fn enrolled(img: Seq<u8>, p: Seq<u8>) -> Seq<u8> {
    let n = be_u32_value(p.subrange(4, 8));
    if 1 <= n <= 3 {
        written(img, feat_slot(n), p.subrange(8, 72))
    } else {
        img
    }
}

/// Handles `ENAB_FEAT` (car id, feature number big-endian, signature): after a
/// pause, stores the signature in the slot of its feature number; the signature
/// itself is not checked here (the car checks it).
pub fn enable_feature(store: &mut Store, p: &[u8]) -> (acts: Vec<Action>)
    requires
        old(store)@.len() == STORE_SIZE,
        p@.len() == 72,
    ensures
        final(store)@ == enrolled(old(store)@, p@),
        final(store)@.len() == STORE_SIZE,
        enrol_acts(acts@, p@),
{
    let mut acts: Vec<Action> = Vec::new();
    acts.push(Action::Sleep(ENROL_DELAY_US));
    let mut sig: [u8; 64] = [0u8; 64];
    uart_read_host(&mut sig, p, 8);
    let ghost n = be_u32_value(p@.subrange(4, 8));
    let ok = p[4] == 0 && p[5] == 0 && p[6] == 0 && 1 <= p[7] && p[7] <= 3;
    assert(ok == (1 <= n <= 3)) by {
        assert(p@.subrange(4, 8)[0] == p@[4]);
        assert(p@.subrange(4, 8)[1] == p@[5]);
        assert(p@.subrange(4, 8)[2] == p@[6]);
        assert(p@.subrange(4, 8)[3] == p@[7]);
    }
    if ok {
        let slot: usize = if p[7] == 1 {
            FOB_FEAT_1_SIG
        } else if p[7] == 2 {
            FOB_FEAT_2_SIG
        } else {
            FOB_FEAT_3_SIG
        };
        assert(n == p@[7]) by {
            assert(p@.subrange(4, 8)[3] == p@[7]);
            assert(p@.subrange(4, 8)[0] == p@[4]);
            assert(p@.subrange(4, 8)[1] == p@[5]);
            assert(p@.subrange(4, 8)[2] == p@[6]);
        }
        let ghost before = acts@;
        persist(store, &mut acts, slot, &sig);
        assert(acts@[0] == before[0]) by {
            assert(acts@.subrange(0, 1)[0] == acts@[0]);
        }
        acts.push(Action::Host(tag(HOST_SUCCESS)));
    } else {
        acts.push(Action::Host(tag(HOST_FAILURE)));
    }
    acts
}

/// The `UNLOCK_FEAT` message: the tag, then the three stored feature signatures.
pub fn unlock_send_features(store: &Store) -> (r: Vec<u8>)
    requires
        store@.len() == STORE_SIZE,
    ensures
        r@ == seq![UNLOCK_FEAT] + feature_sigs(store@),
{
    let mut msg = tag(UNLOCK_FEAT);
    append(&mut msg, store.read(FOB_FEAT_1_SIG, LEN_SIG).as_slice());
    append(&mut msg, store.read(FOB_FEAT_2_SIG, LEN_SIG).as_slice());
    append(&mut msg, store.read(FOB_FEAT_3_SIG, LEN_SIG).as_slice());
    assert(msg@ =~= seq![UNLOCK_FEAT] + feature_sigs(store@));
    msg
}

/// Whether `pin` hashes, with the stored salt, to the stored PIN hash.
pub open spec fn pin_matches(img: Seq<u8>, pin: Seq<u8>) -> bool {
    pin_hash_of(salt_of(img), pin) == field(img, FOB_PIN_HASH as int, 32)
}

/// The fob secret unwrapped from the stored wrapped secret under `pin`.
pub open spec fn unwrapped_secret(img: Seq<u8>, pin: Seq<u8>) -> Seq<u8> {
    xor_bytes(field(img, FOB_SECRET_ENC as int, 32), wrap_key_of(pin, salt_of(img)))
}

/// The `PAIR_FIN` payload for `pin`: the unwrapped secret, car id, the three
/// feature signatures and the car's public key.
pub open spec fn fin_payload(img: Seq<u8>, pin: Seq<u8>) -> Seq<u8> {
    unwrapped_secret(img, pin) + field(img, FOB_CAR_ID as int, 4) + feature_sigs(img) + field(
        img,
        FOB_CAR_PUBLIC as int,
        64,
    )
}

/// The actions on `PAIR_REQ`: start the budget, forward the PIN in `PAIR_SYN`,
/// and block until 800 ms of the budget have passed.
pub open spec fn syn_acts(acts: Seq<Action>, pin: Seq<u8>) -> bool {
    &&& acts.len() == 3
    &&& acts[0] == Action::StartTimer(PAIR_BUDGET_US)
    &&& acts[1] is Board
    &&& acts[1]->Board_0@ == seq![PAIR_SYN] + pin
    &&& acts[2] == Action::WaitRemaining(PAIR_ACK_REMAINING_US)
}

/// The actions for a correct PIN: send `PAIR_FIN`, then wait out the budget.
pub open spec fn fin_acts(acts: Seq<Action>, img: Seq<u8>, pin: Seq<u8>) -> bool {
    &&& acts.len() == 2
    &&& acts[0] is Board
    &&& acts[0]->Board_0@ == seq![PAIR_FIN] + fin_payload(img, pin)
    &&& acts[1] == Action::WaitRemaining(0)
}

/// The actions for a wrong PIN: wait out the budget, sleep the penalty, send
/// `PAIR_RST`.
pub open spec fn rst_acts(acts: Seq<Action>) -> bool {
    &&& acts.len() == 3
    &&& acts[0] == Action::WaitRemaining(0)
    &&& acts[1] == Action::Sleep(PAIR_PENALTY_US)
    &&& acts[2] is Board
    &&& acts[2]->Board_0@ == seq![PAIR_RST]
}

/// The actions of an unpaired fob on `PAIR_SYN`: start the wait, send `PAIR_ACK`.
pub open spec fn ack_acts(acts: Seq<Action>) -> bool {
    &&& acts.len() == 2
    &&& acts[0] == Action::StartTimer(PAIR_FIN_WAIT_US)
    &&& acts[1] is Board
    &&& acts[1]->Board_0@ == seq![PAIR_ACK]
}

/// The store of an unpaired fob after it commits the `PAIR_FIN` payload `p`
/// received with `pin`: secret, car id, feature signatures and car key copied;
/// PIN hash and wrapped secret derived from `pin` and the fob's own salt; the
/// paired flag set; every other byte unchanged.
pub open spec fn paired_image(img: Seq<u8>, p: Seq<u8>, pin: Seq<u8>) -> Seq<u8> {
    let enc = xor_bytes(p.subrange(0, 32), wrap_key_of(pin, salt_of(img)));
    let hash = pin_hash_of(salt_of(img), pin);
    Seq::new(
        img.len(),
        |j: int|
            if FOB_SECRET <= j < FOB_SECRET + 32 {
                p[j - FOB_SECRET]
            } else if FOB_SECRET_ENC <= j < FOB_SECRET_ENC + 32 {
                enc[j - FOB_SECRET_ENC]
            } else if FOB_PIN_HASH <= j < FOB_PIN_HASH + 32 {
                hash[j - FOB_PIN_HASH]
            } else if FOB_CAR_ID <= j < FOB_CAR_ID + 4 {
                p[32 + j - FOB_CAR_ID]
            } else if FOB_FEAT_1_SIG <= j < FOB_CAR_PUBLIC + 64 {
                p[36 + j - FOB_FEAT_1_SIG]
            } else if FOB_IS_PAIRED <= j < FOB_IS_PAIRED + 4 {
                if j == FOB_IS_PAIRED {
                    1u8
                } else {
                    0u8
                }
            } else {
                img[j]
            },
    )
}

/// The actions of a commit: only writes to the store, the paired flag last.
pub open spec fn commit_acts(acts: Seq<Action>) -> bool {
    &&& acts.len() > 0
    &&& forall|i: int| 0 <= i < acts.len() ==> #[trigger] acts[i] is Persist
    &&& forall|i: int|
        0 <= i < acts.len() - 1 ==> #[trigger] acts[i]->Persist_0 != FOB_IS_PAIRED
    &&& acts.last()->Persist_0 == FOB_IS_PAIRED
}

/// Whether two byte strings are equal, compared in full.
pub fn bytes_equal(a: &[u8], b: &[u8]) -> (r: bool)
    ensures
        r == (a@ == b@),
{
    if a.len() != b.len() {
        return false;
    }
    let mut i: usize = 0;
    while i < a.len()
        invariant
            a@.len() == b@.len(),
            i <= a@.len(),
            a@.subrange(0, i as int) == b@.subrange(0, i as int),
        decreases a@.len() - i,
    {
        if a[i] != b[i] {
            assert(a@.subrange(0, i + 1)[i as int] != b@.subrange(0, i + 1)[i as int]);
            return false;
        }
        assert(a@.subrange(0, i + 1) =~= a@.subrange(0, i as int).push(a@[i as int]));
        assert(b@.subrange(0, i + 1) =~= b@.subrange(0, i as int).push(b@[i as int]));
        i = i + 1;
    }
    assert(a@ =~= a@.subrange(0, a@.len() as int));
    assert(b@ =~= b@.subrange(0, b@.len() as int));
    true
}

/// Bytewise xor of `a` with the first bytes of `b`.
pub fn xor_with(a: &[u8], b: &[u8]) -> (r: Vec<u8>)
    requires
        a@.len() <= b@.len(),
    ensures
        r@ == xor_bytes(a@, b@),
{
    let mut r: Vec<u8> = Vec::new();
    let mut i: usize = 0;
    while i < a.len()
        invariant
            i <= a@.len(),
            a@.len() <= b@.len(),
            r@ == xor_bytes(a@, b@).subrange(0, i as int),
        decreases a@.len() - i,
    {
        r.push(a[i] ^ b[i]);
        i = i + 1;
        assert(r@ =~= xor_bytes(a@, b@).subrange(0, i as int));
    }
    assert(r@ =~= xor_bytes(a@, b@));
    r
}

/// SHA-256(`first` || 0x00 || `second`).
fn hash_joined(first: &[u8], second: &[u8]) -> (r: [u8; 32])
    ensures
        r@ == sha256_of(first@ + seq![0u8] + second@),
{
    let mut msg: Vec<u8> = Vec::new();
    append(&mut msg, first);
    msg.push(0u8);
    append(&mut msg, second);
    assert(msg@ =~= first@ + seq![0u8] + second@);
    sha256(msg.as_slice())
}

impl Fob {
    /// Paired side, on `PAIR_REQ` with a 3-byte PIN attempt: starts the 1 s
    /// budget, forwards the PIN to the unpaired fob, and blocks until 800 ms
    /// have passed before `PAIR_ACK` is checked.
    pub fn paired_fob_pairing(&mut self, pin: &[u8]) -> (acts: Vec<Action>)
        requires
            pin@.len() == 3,
        ensures
            final(self).state() == FobPhase::AwaitAck(pin@[0], pin@[1], pin@[2]),
            syn_acts(acts@, pin@),
    {
        let mut acts: Vec<Action> = Vec::new();
        acts.push(Action::StartTimer(PAIR_BUDGET_US));
        let mut syn = tag(PAIR_SYN);
        append(&mut syn, pin);
        uart_write_board(&mut acts, syn.as_slice());
        acts.push(Action::WaitRemaining(PAIR_ACK_REMAINING_US));
        self.phase = FobPhase::AwaitAck(pin[0], pin[1], pin[2]);
        acts
    }

    /// Paired side, on `PAIR_ACK`: compares SHA-256(salt || 0x00 || pin) with the
    /// stored PIN hash in full. On a match it unwraps the fob secret with
    /// SHA-256(pin || 0x00 || salt), sends it in `PAIR_FIN` with the car id,
    /// feature signatures and car key, and waits out the budget; otherwise it
    /// waits out the budget, sleeps 4 s and sends `PAIR_RST`.
    pub fn paired_fob_check_pin(&mut self, store: &Store, pin: &[u8]) -> (acts: Vec<Action>)
        requires
            store@.len() == STORE_SIZE,
            pin@.len() == 3,
        ensures
            final(self).state() == FobPhase::Idle,
            pin_matches(store@, pin@) ==> fin_acts(acts@, store@, pin@),
            !pin_matches(store@, pin@) ==> rst_acts(acts@),
    {
        self.phase = FobPhase::Idle;
        let salt = store.read(FOB_SALT, LEN_SALT);
        let attempt = hash_joined(salt.as_slice(), pin);
        let stored = store.read(FOB_PIN_HASH, LEN_HASH);
        let mut acts: Vec<Action> = Vec::new();
        if bytes_equal(&attempt, stored.as_slice()) {
            let key = hash_joined(pin, salt.as_slice());
            let enc = store.read(FOB_SECRET_ENC, LEN_SECRET);
            let secret = xor_with(enc.as_slice(), &key);
            let mut fin = tag(PAIR_FIN);
            append(&mut fin, secret.as_slice());
            append(&mut fin, store.read(FOB_CAR_ID, LEN_CAR_ID).as_slice());
            append(&mut fin, store.read(FOB_FEAT_1_SIG, LEN_SIG).as_slice());
            append(&mut fin, store.read(FOB_FEAT_2_SIG, LEN_SIG).as_slice());
            append(&mut fin, store.read(FOB_FEAT_3_SIG, LEN_SIG).as_slice());
            append(&mut fin, store.read(FOB_CAR_PUBLIC, LEN_PUBLIC).as_slice());
            assert(fin@ =~= seq![PAIR_FIN] + fin_payload(store@, pin@));
            uart_write_board(&mut acts, fin.as_slice());
            acts.push(Action::WaitRemaining(0));
        } else {
            acts.push(Action::WaitRemaining(0));
            acts.push(Action::Sleep(PAIR_PENALTY_US));
            uart_write_board(&mut acts, tag(PAIR_RST).as_slice());
        }
        acts
    }

    /// Unpaired side, on `PAIR_SYN` with a 3-byte PIN: starts the wait for the
    /// outcome and answers `PAIR_ACK`.
    pub fn unpaired_fob_pairing(&mut self, pin: &[u8]) -> (acts: Vec<Action>)
        requires
            pin@.len() == 3,
        ensures
            final(self).state() == FobPhase::AwaitFin(pin@[0], pin@[1], pin@[2]),
            ack_acts(acts@),
    {
        let mut acts: Vec<Action> = Vec::new();
        acts.push(Action::StartTimer(PAIR_FIN_WAIT_US));
        acts.push(Action::Board(tag(PAIR_ACK)));
        self.phase = FobPhase::AwaitFin(pin[0], pin[1], pin[2]);
        acts
    }

    /// Unpaired side, on `PAIR_FIN`: derives the PIN hash and the wrapped secret
    /// from the PIN received and the fob's own salt, persists the payload and
    /// those, and sets the paired flag as the very last write.
    pub fn unpaired_fob_commit(&mut self, store: &mut Store, pin: &[u8], p: &[u8]) -> (acts: Vec<
        Action,
    >)
        requires
            old(store)@.len() == STORE_SIZE,
            pin@.len() == 3,
            p@.len() == 292,
        ensures
            final(self).state() == FobPhase::Idle,
            final(store)@ == paired_image(old(store)@, p@, pin@),
            final(store)@.len() == STORE_SIZE,
            commit_acts(acts@),
    {
        self.phase = FobPhase::Idle;
        let ghost img = store@;
        let salt = store.read(FOB_SALT, LEN_SALT);
        let hash = hash_joined(salt.as_slice(), pin);
        let key = hash_joined(pin, salt.as_slice());
        let mut secret: [u8; 32] = [0u8; 32];
        let mut car_id: [u8; 4] = [0u8; 4];
        let mut sig1: [u8; 64] = [0u8; 64];
        let mut sig2: [u8; 64] = [0u8; 64];
        let mut sig3: [u8; 64] = [0u8; 64];
        let mut car_public: [u8; 64] = [0u8; 64];
        uart_read_board(&mut secret, p, 0);
        uart_read_board(&mut car_id, p, 32);
        uart_read_board(&mut sig1, p, 36);
        uart_read_board(&mut sig2, p, 100);
        uart_read_board(&mut sig3, p, 164);
        uart_read_board(&mut car_public, p, 228);
        let enc = xor_with(&secret, &key);
        let mut acts: Vec<Action> = Vec::new();
        persist(store, &mut acts, FOB_SECRET_ENC, enc.as_slice());
        persist(store, &mut acts, FOB_SECRET, &secret);
        persist(store, &mut acts, FOB_CAR_ID, &car_id);
        persist(store, &mut acts, FOB_FEAT_1_SIG, &sig1);
        persist(store, &mut acts, FOB_FEAT_2_SIG, &sig2);
        persist(store, &mut acts, FOB_FEAT_3_SIG, &sig3);
        persist(store, &mut acts, FOB_CAR_PUBLIC, &car_public);
        persist(store, &mut acts, FOB_PIN_HASH, &hash);
        let ghost before = acts@;
        set_paired(store, &mut acts);
        proof {
            assert(store@ =~= paired_image(img, p@, pin@));
            assert forall|i: int| 0 <= i < acts@.len() implies #[trigger] acts@[i] is Persist by {
                if i < acts@.len() - 1 {
                    assert(acts@[i] == acts@.subrange(0, 8)[i]);
                }
            }
            assert forall|i: int| 0 <= i < acts@.len() - 1 implies #[trigger] acts@[i]->Persist_0
                != FOB_IS_PAIRED by {
                assert(acts@[i] == acts@.subrange(0, 8)[i]);
            }
        }
        acts
    }
}

/// Whether the challenge payload `p` carries a signature, under the stored car
/// key, over its 8-byte nonce.
pub open spec fn chal_verified(img: Seq<u8>, p: Seq<u8>) -> bool {
    ecdsa_accepts(
        field(img, FOB_CAR_PUBLIC as int, 64),
        sha256_of(p.subrange(0, 8)),
        p.subrange(8, 72),
    )
}

/// The actions on a switch press: start the wait, send `UNLOCK_REQ`.
pub open spec fn req_acts(acts: Seq<Action>) -> bool {
    &&& acts.len() == 2
    &&& acts[0] == Action::StartTimer(UNLOCK_WAIT_US)
    &&& acts[1] is Board
    &&& acts[1]->Board_0@ == seq![UNLOCK_REQ]
}

/// The response to the challenge payload `p`: `UNLOCK_RESP`, the successor of
/// the challenge nonce big-endian, and a 64-byte signature.
pub open spec fn resp_acts(acts: Seq<Action>, p: Seq<u8>) -> bool {
    &&& acts.len() == 1
    &&& acts[0] is Board
    &&& acts[0]->Board_0@.len() == 73
    &&& acts[0]->Board_0@[0] == UNLOCK_RESP
    &&& acts[0]->Board_0@.subrange(1, 9) == be_u64_bytes(next_nonce(be_u64_value(p.subrange(0, 8))))
}

/// A lone one-byte board message.
pub open spec fn board_tag_acts(acts: Seq<Action>, magic: u8) -> bool {
    &&& acts.len() == 1
    &&& acts[0] is Board
    &&& acts[0]->Board_0@ == seq![magic]
}

/// A lone one-byte host message.
pub open spec fn host_tag_acts(acts: Seq<Action>, magic: u8) -> bool {
    &&& acts.len() == 1
    &&& acts[0] is Host
    &&& acts[0]->Host_0@ == seq![magic]
}

/// The actions on `UNLOCK_GOOD`: send the stored feature signatures.
pub open spec fn feat_send_acts(acts: Seq<Action>, img: Seq<u8>) -> bool {
    &&& acts.len() == 1
    &&& acts[0] is Board
    &&& acts[0]->Board_0@ == seq![UNLOCK_FEAT] + feature_sigs(img)
}

fn single(a: Action) -> (r: Vec<Action>)
    ensures
        r@ == seq![a],
{
    let mut r: Vec<Action> = Vec::new();
    r.push(a);
    assert(r@ =~= seq![a]);
    r
}

impl Fob {
    /// On a switch press: asks the car to unlock.
    pub fn request_unlock(&mut self) -> (acts: Vec<Action>)
        ensures
            final(self).state() == FobPhase::AwaitChal,
            req_acts(acts@),
    {
        let mut acts: Vec<Action> = Vec::new();
        acts.push(Action::StartTimer(UNLOCK_WAIT_US));
        acts.push(Action::Board(tag(UNLOCK_REQ)));
        self.phase = FobPhase::AwaitChal;
        acts
    }

    /// On `UNLOCK_CHAL`: checks the car's signature over the received nonce with
    /// the stored car key; on success signs the successor nonce with the fob
    /// secret and sends `UNLOCK_RESP`, otherwise sends `UNLOCK_RST`.
    pub fn unlock_answer(&mut self, store: &Store, p: &[u8]) -> (acts: Vec<Action>)
        requires
            store@.len() == STORE_SIZE,
            p@.len() == 72,
        ensures
            chal_verified(store@, p@) && secret_key_valid(field(store@, FOB_SECRET as int, 32))
                ==> final(self).state() == FobPhase::AwaitGood && resp_acts(acts@, p@),
            !(chal_verified(store@, p@) && secret_key_valid(field(store@, FOB_SECRET as int, 32)))
                ==> final(self).state() == FobPhase::Idle && board_tag_acts(acts@, UNLOCK_RST),
    {
        let mut nonce_b: [u8; 8] = [0u8; 8];
        let mut sig: [u8; 64] = [0u8; 64];
        uart_read_board(&mut nonce_b, p, 0);
        uart_read_board(&mut sig, p, LEN_NONCE);
        let car_public = store.read(FOB_CAR_PUBLIC, LEN_PUBLIC);
        if !verify(car_public.as_slice(), &nonce_b, &sig) {
            self.phase = FobPhase::Idle;
            return single(Action::Board(tag(UNLOCK_RST)));
        }
        let answer = u64_to_be(nonce_successor(u64_from_be(&nonce_b)));
        let secret = store.read(FOB_SECRET, LEN_SECRET);
        match sign(secret.as_slice(), answer.as_slice(), &mut self.rng) {
            Some(fob_sig) => {
                let mut msg = tag(UNLOCK_RESP);
                append(&mut msg, answer.as_slice());
                append(&mut msg, &fob_sig);
                assert(nonce_b@ =~= p@.subrange(0, 8));
                assert(msg@.subrange(1, 9) =~= answer@);
                self.phase = FobPhase::AwaitGood;
                single(Action::Board(msg))
            },
            None => {
                self.phase = FobPhase::Idle;
                single(Action::Board(tag(UNLOCK_RST)))
            },
        }
    }
}

/// The PIN held by a pairing phase.
pub open spec fn pin_of(a: u8, b: u8, c: u8) -> Seq<u8> {
    seq![a, b, c]
}

/// What one step of the fob does, for each phase and input: the next phase
/// `q`, the store `img2` after the step, and the actions.
pub open spec fn fob_transition(
    p: FobPhase,
    q: FobPhase,
    img: Seq<u8>,
    img2: Seq<u8>,
    input: Input,
    acts: Seq<Action>,
) -> bool {
    let pl = payload_of(input);
    match p {
        FobPhase::Idle => if input is Button {
            img2 == img && if paired(img) {
                q == FobPhase::AwaitChal && req_acts(acts)
            } else {
                q == FobPhase::Idle && acts.len() == 0
            }
        } else if input is Host {
            if paired(img) && is_host_msg(input, PAIR_REQ) {
                img2 == img && q == FobPhase::AwaitAck(pl[0], pl[1], pl[2]) && syn_acts(acts, pl)
            } else if paired(img) && is_host_msg(input, ENAB_FEAT) {
                img2 == enrolled(img, pl) && q == FobPhase::Idle && enrol_acts(acts, pl)
            } else {
                img2 == img && q == FobPhase::Idle && host_tag_acts(acts, HOST_FAILURE)
            }
        } else if !paired(img) && is_board_msg(input, PAIR_SYN) {
            img2 == img && q == FobPhase::AwaitFin(pl[0], pl[1], pl[2]) && ack_acts(acts)
        } else {
            img2 == img && q == FobPhase::Idle && acts.len() == 0
        },
        FobPhase::AwaitAck(a, b, c) => if is_board_msg(input, PAIR_ACK) {
            img2 == img && q == FobPhase::Idle && if pin_matches(img, pin_of(a, b, c)) {
                fin_acts(acts, img, pin_of(a, b, c))
            } else {
                rst_acts(acts)
            }
        } else if input is Board || input is Timeout {
            img2 == img && q == FobPhase::Idle && acts.len() == 0
        } else {
            img2 == img && q == p && acts.len() == 0
        },
        FobPhase::AwaitFin(a, b, c) => if is_board_msg(input, PAIR_FIN) {
            img2 == paired_image(img, pl, pin_of(a, b, c)) && q == FobPhase::Idle && commit_acts(
                acts,
            )
        } else if input is Board || input is Timeout {
            img2 == img && q == FobPhase::Idle && acts.len() == 0
        } else {
            img2 == img && q == p && acts.len() == 0
        },
        FobPhase::AwaitChal => img2 == img && if is_board_msg(input, UNLOCK_CHAL) {
            if chal_verified(img, pl) && secret_key_valid(field(img, FOB_SECRET as int, 32)) {
                q == FobPhase::AwaitGood && resp_acts(acts, pl)
            } else {
                q == FobPhase::Idle && board_tag_acts(acts, UNLOCK_RST)
            }
        } else if input is Timeout {
            q == FobPhase::Idle && acts.len() == 0
        } else {
            q == p && acts.len() == 0
        },
        FobPhase::AwaitGood => img2 == img && if is_board_msg(input, UNLOCK_GOOD) {
            q == FobPhase::Idle && feat_send_acts(acts, img)
        } else if is_board_msg(input, UNLOCK_RST) || input is Timeout {
            q == FobPhase::Idle && acts.len() == 0
        } else {
            q == p && acts.len() == 0
        },
    }
}

impl Fob {
    /// One step of the fob's main loop: dispatches the input by phase. Host
    /// commands that need a paired fob, or that are unknown, are answered with
    /// `HOST_FAILURE`; unknown board messages are ignored.
    pub fn step(&mut self, store: &mut Store, input: &Input) -> (acts: Vec<Action>)
        requires
            old(store)@.len() == STORE_SIZE,
        ensures
            final(store)@.len() == STORE_SIZE,
            fob_transition(
                old(self).state(),
                final(self).state(),
                old(store)@,
                final(store)@,
                *input,
                acts@,
            ),
    {
        let pl = payload(input);
        match self.phase {
            FobPhase::Idle => {
                let is_pair = is_paired(store);
                match input {
                    Input::Button => {
                        if is_pair {
                            self.request_unlock()
                        } else {
                            Vec::new()
                        }
                    },
                    Input::Host(_, _) => {
                        if is_pair && host_msg(input, PAIR_REQ) {
                            self.paired_fob_pairing(pl)
                        } else if is_pair && host_msg(input, ENAB_FEAT) {
                            enable_feature(store, pl)
                        } else {
                            single(Action::Host(tag(HOST_FAILURE)))
                        }
                    },
                    _ => {
                        if !is_pair && board_msg(input, PAIR_SYN) {
                            self.unpaired_fob_pairing(pl)
                        } else {
                            Vec::new()
                        }
                    },
                }
            },
            FobPhase::AwaitAck(a, b, c) => {
                if board_msg(input, PAIR_ACK) {
                    let pin: [u8; 3] = [a, b, c];
                    assert(pin@ =~= pin_of(a, b, c));
                    self.paired_fob_check_pin(store, &pin)
                } else if matches!(input, Input::Board(_, _)) || matches!(input, Input::Timeout) {
                    self.phase = FobPhase::Idle;
                    Vec::new()
                } else {
                    Vec::new()
                }
            },
            FobPhase::AwaitFin(a, b, c) => {
                if board_msg(input, PAIR_FIN) {
                    let pin: [u8; 3] = [a, b, c];
                    assert(pin@ =~= pin_of(a, b, c));
                    self.unpaired_fob_commit(store, &pin, pl)
                } else if matches!(input, Input::Board(_, _)) || matches!(input, Input::Timeout) {
                    self.phase = FobPhase::Idle;
                    Vec::new()
                } else {
                    Vec::new()
                }
            },
            FobPhase::AwaitChal => {
                if board_msg(input, UNLOCK_CHAL) {
                    self.unlock_answer(store, pl)
                } else if matches!(input, Input::Timeout) {
                    self.phase = FobPhase::Idle;
                    Vec::new()
                } else {
                    Vec::new()
                }
            },
            FobPhase::AwaitGood => {
                if board_msg(input, UNLOCK_GOOD) {
                    self.phase = FobPhase::Idle;
                    single(Action::Board(unlock_send_features(store)))
                } else if board_msg(input, UNLOCK_RST) || matches!(input, Input::Timeout) {
                    self.phase = FobPhase::Idle;
                    Vec::new()
                } else {
                    Vec::new()
                }
            },
        }
    }
}

/// A wrong PIN never releases the fob secret: on `PAIR_ACK` with a PIN that does
/// not match, the paired fob sends only `PAIR_RST` (no `PAIR_FIN`), and that
/// after at least 5 s since `PAIR_REQ` was received. `a1` and `a2` are the
/// actions of the `PAIR_REQ` and `PAIR_ACK` steps.
pub proof fn lemma_wrong_pin_penalty(
    img: Seq<u8>,
    q1: FobPhase,
    q2: FobPhase,
    img1: Seq<u8>,
    img2: Seq<u8>,
    in1: Input,
    in2: Input,
    a1: Seq<Action>,
    a2: Seq<Action>,
)
    requires
        fob_transition(FobPhase::Idle, q1, img, img1, in1, a1),
        is_host_msg(in1, PAIR_REQ),
        paired(img),
        fob_transition(q1, q2, img1, img2, in2, a2),
        is_board_msg(in2, PAIR_ACK),
        !pin_matches(img, payload_of(in1)),
    ensures
        forall|i: int|
            0 <= i < a2.len() && #[trigger] a2[i] is Board ==> a2[i]->Board_0@ == seq![PAIR_RST],
        (a1 + a2).last() is Board,
        (a1 + a2).last()->Board_0@ == seq![PAIR_RST],
        scheduled_us(a1 + a2) >= 5_000_000,
        img2 == img,
{
    let pl = payload_of(in1);
    assert(pin_of(pl[0], pl[1], pl[2]) =~= pl);
    let acts = a1 + a2;
    reveal_with_fuel(clock_after, 7);
    assert(clock_after(acts, 6).0 == PAIR_BUDGET_US + PAIR_PENALTY_US);
}

proof fn lemma_unpaired_stays(
    imgs: Seq<Seq<u8>>,
    phases: Seq<FobPhase>,
    inputs: Seq<Input>,
    outs: Seq<Seq<Action>>,
    k: int,
)
    requires
        imgs.len() == phases.len() == inputs.len() + 1,
        outs.len() == inputs.len(),
        phases[0] == FobPhase::Idle,
        !paired(imgs[0]),
        forall|i: int|
            0 <= i < inputs.len() ==> fob_transition(
                #[trigger] phases[i],
                phases[i + 1],
                imgs[i],
                imgs[i + 1],
                inputs[i],
                outs[i],
            ),
        forall|i: int| 0 <= i < inputs.len() ==> !is_board_msg(#[trigger] inputs[i], PAIR_FIN),
        0 <= k <= inputs.len(),
    ensures
        imgs[k] == imgs[0],
        forall|i: int| 0 <= i < k ==> !persists(#[trigger] outs[i]),
    decreases k,
{
    if k > 0 {
        lemma_unpaired_stays(imgs, phases, inputs, outs, k - 1);
        assert(fob_transition(
            phases[k - 1],
            phases[k],
            imgs[k - 1],
            imgs[k],
            inputs[k - 1],
            outs[k - 1],
        ));
        let o = outs[k - 1];
        if persists(o) {
            let j = choose|j: int| 0 <= j < o.len() && #[trigger] o[j] is Persist;
            assert(false);
        }
    }
}

/// An unpaired fob that is never sent `PAIR_FIN` (as when every `PAIR_REQ` to
/// its paired peer carries a wrong PIN, so the peer only ever sends
/// `PAIR_RST`) keeps its store exactly as it was, writes nothing, and stays
/// unpaired, whatever else it receives. `imgs`, `phases`, `inputs` and `outs`
/// are a run of `Fob::step` from idle.
pub proof fn lemma_unpaired_unchanged_without_fin(
    imgs: Seq<Seq<u8>>,
    phases: Seq<FobPhase>,
    inputs: Seq<Input>,
    outs: Seq<Seq<Action>>,
)
    requires
        imgs.len() == phases.len() == inputs.len() + 1,
        outs.len() == inputs.len(),
        phases[0] == FobPhase::Idle,
        !paired(imgs[0]),
        forall|i: int|
            0 <= i < inputs.len() ==> fob_transition(
                #[trigger] phases[i],
                phases[i + 1],
                imgs[i],
                imgs[i + 1],
                inputs[i],
                outs[i],
            ),
        forall|i: int| 0 <= i < inputs.len() ==> !is_board_msg(#[trigger] inputs[i], PAIR_FIN),
    ensures
        forall|k: int| 0 <= k < imgs.len() ==> #[trigger] imgs[k] == imgs[0],
        forall|k: int| 0 <= k < imgs.len() ==> !paired(#[trigger] imgs[k]),
        forall|i: int| 0 <= i < outs.len() ==> !persists(#[trigger] outs[i]),
{
    lemma_unpaired_stays(imgs, phases, inputs, outs, inputs.len() as int);
    assert forall|k: int| 0 <= k < imgs.len() implies #[trigger] imgs[k] == imgs[0] by {
        lemma_unpaired_stays(imgs, phases, inputs, outs, k);
    }
}

/// A fob that is already paired ignores every board message while idle: a
/// replayed `PAIR_SYN` or `PAIR_FIN` does nothing, changes nothing, and writes
/// nothing. With the commit setting the paired flag, a blank fob is cloned at
/// most once.
pub proof fn lemma_paired_fob_ignores_board(
    img: Seq<u8>,
    img2: Seq<u8>,
    q: FobPhase,
    input: Input,
    acts: Seq<Action>,
)
    requires
        fob_transition(FobPhase::Idle, q, img, img2, input, acts),
        paired(img),
        input is Board,
    ensures
        q == FobPhase::Idle,
        img2 == img,
        acts.len() == 0,
{
}

/// A commit leaves the fob paired, holding the PIN hash of the PIN it was sent,
/// and a wrapped secret that this PIN unwraps to exactly the secret received
/// (the xor with the same key undoes itself). The two digests are 32 bytes, as
/// every SHA-256 digest.
pub proof fn lemma_commit_unwraps(img: Seq<u8>, p: Seq<u8>, pin: Seq<u8>)
    requires
        img.len() == STORE_SIZE,
        p.len() == 292,
        wrap_key_of(pin, salt_of(img)).len() == 32,
        pin_hash_of(salt_of(img), pin).len() == 32,
    ensures
        paired(paired_image(img, p, pin)),
        pin_matches(paired_image(img, p, pin), pin),
        unwrapped_secret(paired_image(img, p, pin), pin) == p.subrange(0, 32),
        field(paired_image(img, p, pin), FOB_SECRET as int, 32) == p.subrange(0, 32),
{
    let img2 = paired_image(img, p, pin);
    assert(salt_of(img2) =~= salt_of(img));
    assert(field(img2, FOB_IS_PAIRED as int, 4) =~= seq![1u8, 0u8, 0u8, 0u8]);
    assert(field(img2, FOB_PIN_HASH as int, 32) =~= pin_hash_of(salt_of(img), pin));
    let key = wrap_key_of(pin, salt_of(img));
    assert forall|i: int| 0 <= i < 32 implies #[trigger] unwrapped_secret(img2, pin)[i] == p[i] by {
        let x = p[i];
        let k = key[i];
        assert((x ^ k) ^ k == x) by (bit_vector);
    }
    assert(unwrapped_secret(img2, pin) =~= p.subrange(0, 32));
    assert(field(img2, FOB_SECRET as int, 32) =~= p.subrange(0, 32));
}

/// The fob answers a car's challenge for nonce `n` with `n + 1`, exactly the
/// nonce the car checks the answer against.
pub proof fn lemma_answer_matches_challenge(
    n: u64,
    chal: Seq<Action>,
    p: Seq<u8>,
    resp: Seq<Action>,
)
    requires
        chal_acts(chal, n),
        p == chal[1]->Board_0@.subrange(1, 73),
        resp_acts(resp, p),
    ensures
        resp[0]->Board_0@.subrange(1, 9) == be_u64_bytes(next_nonce(n)),
{
    assert(p.subrange(0, 8) =~= chal[1]->Board_0@.subrange(1, 9));
    lemma_be_u64_round_trip(n);
}

} // verus!
