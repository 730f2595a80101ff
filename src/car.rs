//! The car: answers an unlock request with a signed nonce challenge, checks the
//! fob's signature over the successor nonce, then checks the feature tokens.

use vstd::prelude::*;
use rand_chacha::ChaCha20Rng;
use crate::crypto::{
    ecdsa_accepts, next_u64, secret_key_valid, seeded_rng, sha256_of, sign, verify,
};
use crate::protocol::{
    append, be_u64_bytes, board_msg, clock_after, is_board_msg, le_u64_value, next_nonce,
    nonce_successor, payload, payload_of, scheduled_us, tag, u64_from_le, u64_to_be,
    uart_read_board, uart_write_board, uart_write_host, writes_host, Action, Input, CAR_FOB_PUBLIC,
    CAR_ID, CAR_MAN_PUBLIC, CAR_MSG_FEAT_1, CAR_MSG_FEAT_2, CAR_MSG_FEAT_3, CAR_MSG_UNLOCK,
    CAR_SECRET, LEN_CAR_ID, LEN_FLAG, LEN_NONCE, LEN_PUBLIC, LEN_SECRET, UNLOCK_CHAL, UNLOCK_FEAT,
    UNLOCK_GOOD, UNLOCK_REQ, UNLOCK_RESP, UNLOCK_RST,
};
use crate::store::{field, Store, STORE_SIZE};

verus! {

/// Time the car gives a whole challenge-response exchange, in microseconds.
pub const UNLOCK_BUDGET_US: u32 = 500_000;
/// Penalty after a response that does not verify, in microseconds.
pub const UNLOCK_PENALTY_US: u32 = 4_500_000;
/// Time the car waits for the feature tokens after `UNLOCK_GOOD`, in microseconds.
pub const FEATURE_WAIT_US: u32 = 500_000;

/// Where the car stands in the unlock protocol.
#[derive(Clone, Copy, PartialEq, Eq, Structural)]
pub enum CarPhase {
    Idle,
    /// A challenge with this nonce was sent.
    ChalSent(u64),
    /// The fob was verified; its feature tokens are awaited.
    FeatAwait,
}

pub struct Car {
    phase: CarPhase,
    rng: ChaCha20Rng,
    timer_entropy: u64,
}

/// The message the manufacturer signs to grant feature `i`: the car id then
/// `i` as four big-endian bytes.
pub open spec fn feature_message(img: Seq<u8>, i: u8) -> Seq<u8> {
    field(img, CAR_ID as int, 4) + seq![0u8, 0u8, 0u8, i]
}

/// Whether the manufacturer key in the store accepts `sig` for feature `i`.
pub open spec fn feature_accepted(img: Seq<u8>, i: u8, sig: Seq<u8>) -> bool {
    ecdsa_accepts(
        field(img, CAR_MAN_PUBLIC as int, 64),
        sha256_of(feature_message(img, i)),
        sig,
    )
}

/// Whether a response payload carries a signature, under the stored fob key,
/// over the successor of the nonce `n` that the car sent (the echoed nonce
/// field is ignored).
pub open spec fn resp_accepted(img: Seq<u8>, n: u64, p: Seq<u8>) -> bool {
    ecdsa_accepts(
        field(img, CAR_FOB_PUBLIC as int, 64),
        sha256_of(be_u64_bytes(next_nonce(n))),
        p.subrange(8, 72),
    )
}

/// The actions that send a challenge for nonce `n`: the budget timer starts,
/// then `UNLOCK_CHAL`, `n` big-endian and a 64-byte signature go out.
pub open spec fn chal_acts(acts: Seq<Action>, n: u64) -> bool {
    &&& acts.len() == 2
    &&& acts[0] == Action::StartTimer(UNLOCK_BUDGET_US)
    &&& acts[1] is Board
    &&& acts[1]->Board_0@.len() == 73
    &&& acts[1]->Board_0@[0] == UNLOCK_CHAL
    &&& acts[1]->Board_0@.subrange(1, 9) == be_u64_bytes(n)
}

/// The actions after a verified response: wait out the budget, emit the unlock
/// flag to the host, send `UNLOCK_GOOD`, start the wait for feature tokens.
pub open spec fn good_acts(acts: Seq<Action>, img: Seq<u8>) -> bool {
    &&& acts.len() == 4
    &&& acts[0] == Action::WaitRemaining(0)
    &&& acts[1] is Host
    &&& acts[1]->Host_0@ == field(img, CAR_MSG_UNLOCK as int, 64)
    &&& acts[2] is Board
    &&& acts[2]->Board_0@ == seq![UNLOCK_GOOD]
    &&& acts[3] == Action::StartTimer(FEATURE_WAIT_US)
}

/// The actions after a response that does not verify: wait out the budget,
/// sleep the penalty, send `UNLOCK_RST`.
pub open spec fn bad_acts(acts: Seq<Action>) -> bool {
    &&& acts.len() == 3
    &&& acts[0] == Action::WaitRemaining(0)
    &&& acts[1] == Action::Sleep(UNLOCK_PENALTY_US)
    &&& acts[2] is Board
    &&& acts[2]->Board_0@ == seq![UNLOCK_RST]
}

/// The flags owed for the three feature signatures in `p`, in feature order.
pub open spec fn feature_flags(img: Seq<u8>, p: Seq<u8>) -> Seq<Seq<u8>> {
    (if feature_accepted(img, 1, p.subrange(0, 64)) {
        seq![field(img, CAR_MSG_FEAT_1 as int, 64)]
    } else {
        Seq::empty()
    }) + (if feature_accepted(img, 2, p.subrange(64, 128)) {
        seq![field(img, CAR_MSG_FEAT_2 as int, 64)]
    } else {
        Seq::empty()
    }) + (if feature_accepted(img, 3, p.subrange(128, 192)) {
        seq![field(img, CAR_MSG_FEAT_3 as int, 64)]
    } else {
        Seq::empty()
    })
}

/// The actions after the feature tokens: one host write per accepted token.
pub open spec fn feature_acts(acts: Seq<Action>, img: Seq<u8>, p: Seq<u8>) -> bool {
    &&& forall|i: int| 0 <= i < acts.len() ==> #[trigger] acts[i] is Host
    &&& acts.map_values(|a: Action| a->Host_0@) == feature_flags(img, p)
}

/// What one step of the car does, for each phase and input.
pub open spec fn car_transition(
    p: CarPhase,
    q: CarPhase,
    img: Seq<u8>,
    input: Input,
    acts: Seq<Action>,
) -> bool {
    match p {
        CarPhase::Idle => if is_board_msg(input, UNLOCK_REQ) && secret_key_valid(
            field(img, CAR_SECRET as int, 32),
        ) {
            q is ChalSent && chal_acts(acts, q->ChalSent_0)
        } else {
            q == CarPhase::Idle && acts.len() == 0
        },
        CarPhase::ChalSent(n) => if is_board_msg(input, UNLOCK_RESP) {
            if resp_accepted(img, n, payload_of(input)) {
                q == CarPhase::FeatAwait && good_acts(acts, img)
            } else {
                q == CarPhase::Idle && bad_acts(acts)
            }
        } else if is_board_msg(input, UNLOCK_RST) || input is Timeout {
            q == CarPhase::Idle && acts.len() == 0
        } else {
            q == p && acts.len() == 0
        },
        CarPhase::FeatAwait => if is_board_msg(input, UNLOCK_FEAT) {
            q == CarPhase::Idle && feature_acts(acts, img, payload_of(input))
        } else if is_board_msg(input, UNLOCK_RST) || input is Timeout {
            q == CarPhase::Idle && acts.len() == 0
        } else {
            q == p && acts.len() == 0
        },
    }
}

impl Car {
    /// The car's phase.
    pub closed spec fn state(&self) -> CarPhase {
        self.phase
    }

    /// The entropy folded in from the timer samples so far.
    pub closed spec fn timer_entropy(&self) -> u64 {
        self.timer_entropy
    }

    /// Returns the car's phase.
    pub fn phase(&self) -> (r: CarPhase)
        ensures
            r == self.state(),
    {
        self.phase
    }

    /// A car in idle whose nonce generator is seeded from the entropy pool.
    pub fn new(seed: [u8; 32]) -> (r: Car)
        ensures
            r.state() == CarPhase::Idle,
    {
        Car { phase: CarPhase::Idle, rng: seeded_rng(seed), timer_entropy: 0 }
    }

    /// Handles `UNLOCK_REQ`: folds the timer sample into the car's timer entropy,
    /// draws a fresh nonce from the generator xor that entropy, signs it with the
    /// car secret and sends the challenge.
    pub fn unlock_start(&mut self, store: &Store, timer_sample: &[u8; 32]) -> (acts: Vec<Action>)
        requires
            store@.len() == STORE_SIZE,
        ensures
            final(self).timer_entropy() == old(self).timer_entropy() ^ le_u64_value(timer_sample@),
            secret_key_valid(field(store@, CAR_SECRET as int, 32))
                ==> final(self).state() is ChalSent
                && chal_acts(acts@, final(self).state()->ChalSent_0),
            !secret_key_valid(field(store@, CAR_SECRET as int, 32)) ==> final(self).state()
                == CarPhase::Idle && acts@.len() == 0,
    {
        self.timer_entropy = self.timer_entropy ^ u64_from_le(timer_sample);
        let nonce: u64 = next_u64(&mut self.rng) ^ self.timer_entropy;
        let nonce_b = u64_to_be(nonce);
        let secret = store.read(CAR_SECRET, LEN_SECRET);
        let mut acts: Vec<Action> = Vec::new();
        match sign(secret.as_slice(), nonce_b.as_slice(), &mut self.rng) {
            Some(sig) => {
                let mut msg = tag(UNLOCK_CHAL);
                append(&mut msg, nonce_b.as_slice());
                append(&mut msg, &sig);
                assert(msg@.subrange(1, 9) =~= be_u64_bytes(nonce));
                acts.push(Action::StartTimer(UNLOCK_BUDGET_US));
                acts.push(Action::Board(msg));
                self.phase = CarPhase::ChalSent(nonce);
            },
            None => {
                self.phase = CarPhase::Idle;
            },
        }
        acts
    }

    /// Handles `UNLOCK_RESP` to the challenge `n`: verifies the fob's signature
    /// over `n + 1` under the stored fob key, waits out the budget, then either
    /// emits the unlock flag and `UNLOCK_GOOD`, or sleeps the penalty and sends
    /// `UNLOCK_RST`.
    pub fn unlock_response(&mut self, store: &Store, n: u64, resp: &[u8]) -> (acts: Vec<Action>)
        requires
            store@.len() == STORE_SIZE,
            resp@.len() == 72,
        ensures
            resp_accepted(store@, n, resp@) ==> final(self).state() == CarPhase::FeatAwait
                && good_acts(acts@, store@),
            !resp_accepted(store@, n, resp@) ==> final(self).state() == CarPhase::Idle && bad_acts(
                acts@,
            ),
    {
        let expected = u64_to_be(nonce_successor(n));
        let fob_public = store.read(CAR_FOB_PUBLIC, LEN_PUBLIC);
        let mut sig: [u8; 64] = [0u8; 64];
        uart_read_board(&mut sig, resp, LEN_NONCE);
        let ok = verify(fob_public.as_slice(), expected.as_slice(), &sig);
        let mut acts: Vec<Action> = Vec::new();
        acts.push(Action::WaitRemaining(0));
        if ok {
            uart_write_host(&mut acts, store.read(CAR_MSG_UNLOCK, LEN_FLAG).as_slice());
            uart_write_board(&mut acts, tag(UNLOCK_GOOD).as_slice());
            acts.push(Action::StartTimer(FEATURE_WAIT_US));
            self.phase = CarPhase::FeatAwait;
        } else {
            acts.push(Action::Sleep(UNLOCK_PENALTY_US));
            uart_write_board(&mut acts, tag(UNLOCK_RST).as_slice());
            self.phase = CarPhase::Idle;
        }
        acts
    }

    /// Handles `UNLOCK_FEAT`: checks each of the three signatures against the
    /// manufacturer key for (car id, feature number) and emits the flag of each
    /// feature that verifies, in feature order. Failures are silent.
    pub fn unlock_request_features(&mut self, store: &Store, sigs: &[u8]) -> (acts: Vec<Action>)
        requires
            store@.len() == STORE_SIZE,
            sigs@.len() == 192,
        ensures
            final(self).state() == CarPhase::Idle,
            feature_acts(acts@, store@, sigs@),
    {
        let man_public = store.read(CAR_MAN_PUBLIC, LEN_PUBLIC);
        let car_id = store.read(CAR_ID, LEN_CAR_ID);
        let mut acts: Vec<Action> = Vec::new();
        let ghost mut owed: Seq<Seq<u8>> = Seq::empty();
        let mut i: u8 = 1;
        while i <= 3
            invariant
                1 <= i <= 4,
                store@.len() == STORE_SIZE,
                sigs@.len() == 192,
                man_public@ == field(store@, CAR_MAN_PUBLIC as int, 64),
                car_id@ == field(store@, CAR_ID as int, 4),
                forall|k: int| 0 <= k < acts@.len() ==> #[trigger] acts@[k] is Host,
                acts@.map_values(|a: Action| a->Host_0@) == feature_flags_upto(
                    store@,
                    sigs@,
                    i as int,
                ),
            decreases 4 - i,
        {
            let mut msg: Vec<u8> = Vec::new();
            append(&mut msg, car_id.as_slice());
            msg.push(0u8);
            msg.push(0u8);
            msg.push(0u8);
            msg.push(i);
            assert(msg@ =~= feature_message(store@, i));
            let start: usize = 64 * (i as usize - 1);
            let mut sig: [u8; 64] = [0u8; 64];
            uart_read_board(&mut sig, sigs, start);
            let ghost before = acts@;
            if verify(man_public.as_slice(), msg.as_slice(), &sig) {
                let offset: usize = if i == 1 {
                    CAR_MSG_FEAT_1
                } else if i == 2 {
                    CAR_MSG_FEAT_2
                } else {
                    CAR_MSG_FEAT_3
                };
                uart_write_host(&mut acts, store.read(offset, LEN_FLAG).as_slice());
                assert(acts@.map_values(|a: Action| a->Host_0@) =~= before.map_values(
                    |a: Action| a->Host_0@,
                ).push(field(store@, offset as int, 64)));
            }
            i = i + 1;
        }
        proof {
            lemma_feature_flags_all(store@, sigs@);
        }
        self.phase = CarPhase::Idle;
        acts
    }

    /// One step of the car's main loop: dispatches the input by phase.
    pub fn step(&mut self, store: &Store, input: &Input, timer_sample: &[u8; 32]) -> (acts: Vec<
        Action,
    >)
        requires
            store@.len() == STORE_SIZE,
        ensures
            car_transition(old(self).state(), final(self).state(), store@, *input, acts@),
    {
        match self.phase {
            CarPhase::Idle => {
                if board_msg(input, UNLOCK_REQ) {
                    self.unlock_start(store, timer_sample)
                } else {
                    Vec::new()
                }
            },
            CarPhase::ChalSent(n) => {
                if board_msg(input, UNLOCK_RESP) {
                    self.unlock_response(store, n, payload(input))
                } else if board_msg(input, UNLOCK_RST) || matches!(input, Input::Timeout) {
                    self.phase = CarPhase::Idle;
                    Vec::new()
                } else {
                    Vec::new()
                }
            },
            CarPhase::FeatAwait => {
                if board_msg(input, UNLOCK_FEAT) {
                    self.unlock_request_features(store, payload(input))
                } else if board_msg(input, UNLOCK_RST) || matches!(input, Input::Timeout) {
                    self.phase = CarPhase::Idle;
                    Vec::new()
                } else {
                    Vec::new()
                }
            },
        }
    }
}

/// The flags owed for the feature signatures numbered below `i`.
pub open spec fn feature_flags_upto(img: Seq<u8>, p: Seq<u8>, i: int) -> Seq<Seq<u8>>
    decreases i,
{
    if i <= 1 {
        Seq::empty()
    } else {
        let k = i - 1;
        let offset = if k == 1 {
            CAR_MSG_FEAT_1
        } else if k == 2 {
            CAR_MSG_FEAT_2
        } else {
            CAR_MSG_FEAT_3
        };
        if feature_accepted(img, k as u8, p.subrange(64 * (k - 1), 64 * k)) {
            feature_flags_upto(img, p, k).push(field(img, offset as int, 64))
        } else {
            feature_flags_upto(img, p, k)
        }
    }
}

proof fn lemma_feature_flags_all(img: Seq<u8>, p: Seq<u8>)
    ensures
        feature_flags_upto(img, p, 4) == feature_flags(img, p),
{
    reveal_with_fuel(feature_flags_upto, 4);
    assert(feature_flags_upto(img, p, 4) =~= feature_flags(img, p));
}


proof fn lemma_never_verified(
    img: Seq<u8>,
    phases: Seq<CarPhase>,
    inputs: Seq<Input>,
    outs: Seq<Seq<Action>>,
    k: int,
)
    requires
        phases.len() == inputs.len() + 1,
        outs.len() == inputs.len(),
        phases[0] == CarPhase::Idle,
        forall|i: int|
            0 <= i < inputs.len() ==> car_transition(
                #[trigger] phases[i],
                phases[i + 1],
                img,
                inputs[i],
                outs[i],
            ),
        forall|i: int|
            0 <= i < inputs.len() && #[trigger] phases[i] is ChalSent && is_board_msg(
                inputs[i],
                UNLOCK_RESP,
            ) ==> !resp_accepted(img, phases[i]->ChalSent_0, payload_of(inputs[i])),
        0 <= k <= inputs.len(),
    ensures
        phases[k] != CarPhase::FeatAwait,
    decreases k,
{
    if k > 0 {
        lemma_never_verified(img, phases, inputs, outs, k - 1);
        assert(car_transition(phases[k - 1], phases[k], img, inputs[k - 1], outs[k - 1]));
    }
}

/// However many unlock attempts a car sees, if no response ever carries a valid
/// signature under the stored fob key over the successor of the car's own nonce
/// (as when the fob's key is not the stored one), the car never writes to the
/// host: neither the unlock flag nor any feature flag. `phases`, `inputs` and
/// `outs` are a run of `Car::step` from idle.
pub proof fn lemma_no_flag_without_fob_key(
    img: Seq<u8>,
    phases: Seq<CarPhase>,
    inputs: Seq<Input>,
    outs: Seq<Seq<Action>>,
)
    requires
        phases.len() == inputs.len() + 1,
        outs.len() == inputs.len(),
        phases[0] == CarPhase::Idle,
        forall|i: int|
            0 <= i < inputs.len() ==> car_transition(
                #[trigger] phases[i],
                phases[i + 1],
                img,
                inputs[i],
                outs[i],
            ),
        forall|i: int|
            0 <= i < inputs.len() && #[trigger] phases[i] is ChalSent && is_board_msg(
                inputs[i],
                UNLOCK_RESP,
            ) ==> !resp_accepted(img, phases[i]->ChalSent_0, payload_of(inputs[i])),
    ensures
        forall|i: int| 0 <= i < inputs.len() ==> !writes_host(#[trigger] outs[i]),
{
    assert forall|i: int| 0 <= i < inputs.len() implies !writes_host(#[trigger] outs[i]) by {
        lemma_never_verified(img, phases, inputs, outs, i);
        assert(car_transition(phases[i], phases[i + 1], img, inputs[i], outs[i]));
        if writes_host(outs[i]) {
            let k = choose|k: int| 0 <= k < outs[i].len() && #[trigger] outs[i][k] is Host;
            assert(false);
        }
    }
}

/// A verified unlock is bound to take exactly the car's budget: the unlock flag
/// goes out once 500 ms have passed since the request, and nothing else is
/// waited for. `a1` and `a2` are the actions of the request and response steps.
pub proof fn lemma_unlock_success_timing(
    img: Seq<u8>,
    q1: CarPhase,
    q2: CarPhase,
    in1: Input,
    in2: Input,
    a1: Seq<Action>,
    a2: Seq<Action>,
)
    requires
        car_transition(CarPhase::Idle, q1, img, in1, a1),
        car_transition(q1, q2, img, in2, a2),
        q1 is ChalSent,
        is_board_msg(in2, UNLOCK_RESP),
        resp_accepted(img, q1->ChalSent_0, payload_of(in2)),
    ensures
        a2[1] is Host,
        a2[1]->Host_0@ == field(img, CAR_MSG_UNLOCK as int, 64),
        scheduled_us((a1 + a2).subrange(0, 4)) == UNLOCK_BUDGET_US,
        scheduled_us(a1 + a2) == UNLOCK_BUDGET_US,
{
    let acts = a1 + a2;
    let pre = acts.subrange(0, 4);
    reveal_with_fuel(clock_after, 7);
    assert(clock_after(pre, 4) == clock_after(acts, 4));
    assert(clock_after(acts, 6).0 == UNLOCK_BUDGET_US);
}

/// An unlock whose response does not verify is bound to take at least the
/// budget and the 4.5 s penalty before `UNLOCK_RST` goes out.
pub proof fn lemma_unlock_failure_timing(
    img: Seq<u8>,
    q1: CarPhase,
    q2: CarPhase,
    in1: Input,
    in2: Input,
    a1: Seq<Action>,
    a2: Seq<Action>,
)
    requires
        car_transition(CarPhase::Idle, q1, img, in1, a1),
        car_transition(q1, q2, img, in2, a2),
        q1 is ChalSent,
        is_board_msg(in2, UNLOCK_RESP),
        !resp_accepted(img, q1->ChalSent_0, payload_of(in2)),
    ensures
        (a1 + a2).last() is Board,
        (a1 + a2).last()->Board_0@ == seq![UNLOCK_RST],
        scheduled_us(a1 + a2) == UNLOCK_BUDGET_US + UNLOCK_PENALTY_US,
        scheduled_us(a1 + a2) >= UNLOCK_PENALTY_US,
{
    let acts = a1 + a2;
    reveal_with_fuel(clock_after, 6);
    assert(clock_after(acts, 5).0 == UNLOCK_BUDGET_US + UNLOCK_PENALTY_US);
}

} // verus!
