use keyfob::car::{Car, CarPhase};
use keyfob::crypto::{sha256, sign, verify};
use rand_chacha::rand_core::SeedableRng;
use rand_chacha::ChaCha20Rng;
use keyfob::fob::{is_paired, Fob, FobPhase};
use keyfob::protocol::{
    Action, Input, CAR_FOB_PUBLIC, CAR_ID, CAR_MAN_PUBLIC, CAR_MSG_FEAT_1, CAR_MSG_FEAT_2,
    CAR_MSG_FEAT_3, CAR_MSG_UNLOCK, CAR_SECRET, ENAB_FEAT, FOB_CAR_ID, FOB_CAR_PUBLIC,
    FOB_FEAT_1_SIG, FOB_FEAT_2_SIG, FOB_FEAT_3_SIG, FOB_IS_PAIRED, FOB_PIN_HASH, FOB_SALT,
    FOB_SECRET, FOB_SECRET_ENC, HOST_FAILURE, PAIR_REQ, UNLOCK_RST,
};
use keyfob::store::Store;
use p256_cortex_m4::SecretKey;

fn seeded_rng(seed: [u8; 32]) -> ChaCha20Rng {
    ChaCha20Rng::from_seed(seed)
}

fn public_of(secret: &[u8; 32]) -> [u8; 64] {
    SecretKey::from_bytes(secret).unwrap().public_key().to_untagged_bytes()
}

fn flag(c: u8) -> Vec<u8> {
    vec![c; 64]
}

fn joined(a: &[u8], b: &[u8]) -> Vec<u8> {
    let mut v = a.to_vec();
    v.push(0);
    v.extend_from_slice(b);
    v
}

struct World {
    car_secret: [u8; 32],
    fob_secret: [u8; 32],
    man_secret: [u8; 32],
    car_id: [u8; 4],
}

fn world() -> World {
    World { car_secret: [0x11; 32], fob_secret: [0x22; 32], man_secret: [0x33; 32], car_id: [0, 0, 0, 0x42] }
}

fn feature_sig(w: &World, i: u8) -> [u8; 64] {
    let mut msg = w.car_id.to_vec();
    msg.extend_from_slice(&[0, 0, 0, i]);
    sign(&w.man_secret, &msg, &mut seeded_rng([9; 32])).unwrap()
}

fn car_store(w: &World, fob_public: &[u8; 64]) -> Store {
    let mut s = Store::new();
    s.write(CAR_SECRET, &w.car_secret);
    s.write(CAR_MAN_PUBLIC, &public_of(&w.man_secret));
    s.write(CAR_FOB_PUBLIC, fob_public);
    s.write(CAR_ID, &w.car_id);
    s.write(CAR_MSG_UNLOCK, &flag(b'U'));
    s.write(CAR_MSG_FEAT_1, &flag(b'1'));
    s.write(CAR_MSG_FEAT_2, &flag(b'2'));
    s.write(CAR_MSG_FEAT_3, &flag(b'3'));
    s
}

fn paired_fob_store(w: &World, pin: &[u8; 3], salt: &[u8; 12], sigs: [[u8; 64]; 3]) -> Store {
    let mut s = Store::new();
    let key = sha256(&joined(pin, salt));
    let enc: Vec<u8> = w.fob_secret.iter().zip(key.iter()).map(|(a, b)| a ^ b).collect();
    s.write(FOB_SECRET, &w.fob_secret);
    s.write(FOB_SECRET_ENC, &enc);
    s.write(FOB_SALT, salt);
    s.write(FOB_PIN_HASH, &sha256(&joined(salt, pin)));
    s.write(FOB_CAR_ID, &w.car_id);
    s.write(FOB_FEAT_1_SIG, &sigs[0]);
    s.write(FOB_FEAT_2_SIG, &sigs[1]);
    s.write(FOB_FEAT_3_SIG, &sigs[2]);
    s.write(FOB_CAR_PUBLIC, &public_of(&w.car_secret));
    s.write(FOB_IS_PAIRED, &[1, 0, 0, 0]);
    s
}

fn blank_fob_store(salt: &[u8; 12]) -> Store {
    let mut s = Store::new();
    s.write(FOB_SALT, salt);
    s
}

fn image(s: &Store) -> Vec<u8> {
    s.read(0, 2048)
}

fn host_bytes(acts: &[Action]) -> Vec<Vec<u8>> {
    acts.iter().filter_map(|a| if let Action::Host(b) = a { Some(b.clone()) } else { None }).collect()
}

fn board_frames(acts: &[Action]) -> Vec<Vec<u8>> {
    acts.iter().filter_map(|a| if let Action::Board(b) = a { Some(b.clone()) } else { None }).collect()
}

fn to_input(frame: &[u8]) -> Input {
    Input::Board(frame[0], frame[1..].to_vec())
}

/// Lower bound on the time a run of actions takes, in microseconds.
fn scheduled(acts: &[Action]) -> u64 {
    let (mut t, mut deadline) = (0u64, 0u64);
    for a in acts {
        match a {
            Action::StartTimer(us) => deadline = t + *us as u64,
            Action::WaitRemaining(r) => t = t.max(deadline.saturating_sub(*r as u64)),
            Action::Sleep(us) => t += *us as u64,
            _ => {}
        }
    }
    t
}

const SAMPLE: [u8; 32] = [5; 32];

#[test]
fn happy_path_unlock_and_features() {
    let w = world();
    let store = car_store(&w, &public_of(&w.fob_secret));
    let mut car = Car::new([1; 32]);
    let n: u64 = 0x0102030405060708;
    let answer = (n + 1).to_be_bytes();
    assert_eq!(answer, [1, 2, 3, 4, 5, 6, 7, 9]);
    let sig = sign(&w.fob_secret, &answer, &mut seeded_rng([0; 32])).unwrap();
    let mut resp = answer.to_vec();
    resp.extend_from_slice(&sig);
    let acts = car.unlock_response(&store, n, &resp);
    assert!(matches!(car.phase(), CarPhase::FeatAwait));
    assert_eq!(host_bytes(&acts), vec![flag(b'U')]);
    assert_eq!(board_frames(&acts), vec![vec![0x63]]);
    assert_eq!(scheduled(&acts), 0);

    let mut sigs = feature_sig(&w, 1).to_vec();
    sigs.extend_from_slice(&feature_sig(&w, 3));
    sigs.extend_from_slice(&feature_sig(&w, 3));
    let acts = car.unlock_request_features(&store, &sigs);
    assert_eq!(host_bytes(&acts), vec![flag(b'1'), flag(b'3')]);
    assert!(matches!(car.phase(), CarPhase::Idle));
}

#[test]
fn full_unlock_between_car_and_fob() {
    let w = world();
    let car_st = car_store(&w, &public_of(&w.fob_secret));
    let sigs = [feature_sig(&w, 1), [0u8; 64], feature_sig(&w, 3)];
    let mut fob_st = paired_fob_store(&w, &[1, 2, 3], &[7; 12], sigs);
    let mut car = Car::new([1; 32]);
    let mut fob = Fob::new();

    let req = fob.step(&mut fob_st, &Input::Button);
    assert_eq!(board_frames(&req), vec![vec![0x60]]);
    let chal = car.step(&car_st, &to_input(&board_frames(&req)[0]), &SAMPLE);
    let chal_frame = &board_frames(&chal)[0];
    assert_eq!(chal_frame.len(), 73);
    let n = u64::from_be_bytes(chal_frame[1..9].try_into().unwrap());
    assert!(matches!(car.phase(), CarPhase::ChalSent(m) if m == n));
    let resp = fob.step(&mut fob_st, &to_input(chal_frame));
    let resp_frame = &board_frames(&resp)[0];
    assert_eq!(resp_frame[0], 0x62);
    assert_eq!(resp_frame[1..9], n.wrapping_add(1).to_be_bytes());
    let good = car.step(&car_st, &to_input(resp_frame), &SAMPLE);
    assert_eq!(host_bytes(&good), vec![flag(b'U')]);
    let mut all = chal.clone();
    all.extend(good.into_iter().take(2));
    assert_eq!(scheduled(&all), 500_000);
    let feat = fob.step(&mut fob_st, &to_input(&[0x63]));
    let feat_frame = &board_frames(&feat)[0];
    assert_eq!(feat_frame.len(), 193);
    let out = car.step(&car_st, &to_input(feat_frame), &SAMPLE);
    assert_eq!(host_bytes(&out), vec![flag(b'1'), flag(b'3')]);
    assert!(matches!(fob.phase(), FobPhase::Idle));
}

#[test]
fn replayed_response_is_rejected() {
    let w = world();
    let car_st = car_store(&w, &public_of(&w.fob_secret));
    let mut fob_st = paired_fob_store(&w, &[1, 2, 3], &[7; 12], [[0; 64]; 3]);
    let mut car = Car::new([1; 32]);
    let mut fob = Fob::new();
    fob.step(&mut fob_st, &Input::Button);
    let chal = car.step(&car_st, &to_input(&[0x60]), &SAMPLE);
    let resp = fob.step(&mut fob_st, &to_input(&board_frames(&chal)[0]));
    let captured = board_frames(&resp)[0].clone();
    let good = car.step(&car_st, &to_input(&captured), &SAMPLE);
    assert_eq!(host_bytes(&good).len(), 1);
    car.step(&car_st, &Input::Timeout, &SAMPLE);

    let chal2 = car.step(&car_st, &to_input(&[0x60]), &[6; 32]);
    assert_ne!(board_frames(&chal2)[0][1..9], board_frames(&chal)[0][1..9]);
    let bad = car.step(&car_st, &to_input(&captured), &SAMPLE);
    assert!(host_bytes(&bad).is_empty());
    assert_eq!(board_frames(&bad), vec![vec![UNLOCK_RST]]);
    let mut all = chal2.clone();
    all.extend(bad);
    assert!(scheduled(&all) >= 4_500_000);
    assert!(matches!(car.phase(), CarPhase::Idle));
}

#[test]
fn unlock_with_mismatched_fob_key_emits_nothing() {
    let w = world();
    let car_st = car_store(&w, &public_of(&[0x44; 32]));
    let mut fob_st = paired_fob_store(&w, &[1, 2, 3], &[7; 12], [[0; 64]; 3]);
    let mut car = Car::new([3; 32]);
    let mut fob = Fob::new();
    for _ in 0..3 {
        fob.step(&mut fob_st, &Input::Button);
        let chal = car.step(&car_st, &to_input(&[0x60]), &SAMPLE);
        let resp = fob.step(&mut fob_st, &to_input(&board_frames(&chal)[0]));
        let out = car.step(&car_st, &to_input(&board_frames(&resp)[0]), &SAMPLE);
        assert!(host_bytes(&out).is_empty());
        let rst = fob.step(&mut fob_st, &to_input(&board_frames(&out)[0]));
        assert!(rst.is_empty());
        assert!(matches!(fob.phase(), FobPhase::Idle));
    }
}

fn pair(
    paired: &mut Fob,
    paired_st: &mut Store,
    blank: &mut Fob,
    blank_st: &mut Store,
    pin: &[u8; 3],
) -> (Vec<Action>, Vec<Action>) {
    let mut paired_acts = paired.step(paired_st, &Input::Host(PAIR_REQ, pin.to_vec()));
    let syn = board_frames(&paired_acts)[0].clone();
    let mut blank_acts = blank.step(blank_st, &to_input(&syn));
    let ack = board_frames(&blank_acts)[0].clone();
    let outcome = paired.step(paired_st, &to_input(&ack));
    let frame = board_frames(&outcome)[0].clone();
    paired_acts.extend(outcome);
    blank_acts.extend(blank.step(blank_st, &to_input(&frame)));
    (paired_acts, blank_acts)
}

#[test]
fn wrong_pin_pairing() {
    let w = world();
    let mut p_st = paired_fob_store(&w, &[1, 2, 3], &[7; 12], [[0; 64]; 3]);
    let mut b_st = blank_fob_store(&[8; 12]);
    let before = image(&b_st);
    let (mut p, mut b) = (Fob::new(), Fob::new());
    let (pa, ba) = pair(&mut p, &mut p_st, &mut b, &mut b_st, &[1, 2, 4]);
    assert_eq!(board_frames(&pa), vec![vec![0x41, 1, 2, 4], vec![0x44]]);
    assert_eq!(board_frames(&ba), vec![vec![0x42]]);
    assert!(scheduled(&pa) >= 5_000_000);
    assert!(!is_paired(&b_st));
    assert_eq!(image(&b_st), before);
    assert!(!ba.iter().any(|a| matches!(a, Action::Persist(_, _))));
}

#[test]
fn correct_pairing_then_unlock_from_clone() {
    let w = world();
    let pin = [0x11, 0x22, 0x33];
    let sigs = [feature_sig(&w, 1), feature_sig(&w, 2), feature_sig(&w, 3)];
    let mut p_st = paired_fob_store(&w, &pin, &[7; 12], sigs);
    let mut b_st = blank_fob_store(&[8; 12]);
    let (mut p, mut b) = (Fob::new(), Fob::new());
    let (pa, ba) = pair(&mut p, &mut p_st, &mut b, &mut b_st, &pin);
    assert_eq!(board_frames(&pa)[1].len(), 293);
    assert!(host_bytes(&ba).is_empty());
    assert!(is_paired(&b_st));
    assert!(matches!(ba.last(), Some(Action::Persist(o, _)) if *o == FOB_IS_PAIRED));
    assert_eq!(b_st.read(FOB_SECRET, 32), w.fob_secret.to_vec());
    assert_eq!(b_st.read(FOB_PIN_HASH, 32), sha256(&joined(&[8; 12], &pin)).to_vec());
    assert_eq!(b_st.read(FOB_CAR_PUBLIC, 64), public_of(&w.car_secret).to_vec());
    assert_eq!(b_st.read(FOB_FEAT_2_SIG, 64), sigs[1].to_vec());
    assert!(scheduled(&pa) >= 1_000_000 && scheduled(&pa) < 5_000_000);

    // Power cycle: a fresh fob on the clone's store.
    let mut clone = Fob::new();
    let car_st = car_store(&w, &public_of(&w.fob_secret));
    let mut car = Car::new([2; 32]);
    let req = clone.step(&mut b_st, &Input::Button);
    let chal = car.step(&car_st, &to_input(&board_frames(&req)[0]), &SAMPLE);
    let resp = clone.step(&mut b_st, &to_input(&board_frames(&chal)[0]));
    let good = car.step(&car_st, &to_input(&board_frames(&resp)[0]), &SAMPLE);
    assert_eq!(host_bytes(&good), vec![flag(b'U')]);
    let feat = clone.step(&mut b_st, &to_input(&board_frames(&good)[0]));
    let out = car.step(&car_st, &to_input(&board_frames(&feat)[0]), &SAMPLE);
    assert_eq!(host_bytes(&out), vec![flag(b'1'), flag(b'2'), flag(b'3')]);

    // The clone can clone again with the same PIN.
    let mut b2_st = blank_fob_store(&[9; 12]);
    let mut b2 = Fob::new();
    let (_, _) = pair(&mut clone, &mut b_st, &mut b2, &mut b2_st, &pin);
    assert!(is_paired(&b2_st));
    assert_eq!(b2_st.read(FOB_SECRET, 32), w.fob_secret.to_vec());
}

#[test]
fn paired_fob_ignores_replayed_pairing() {
    let w = world();
    let pin = [0x11, 0x22, 0x33];
    let mut p_st = paired_fob_store(&w, &pin, &[7; 12], [[0; 64]; 3]);
    let mut b_st = blank_fob_store(&[8; 12]);
    let (mut p, mut b) = (Fob::new(), Fob::new());
    let (pa, _) = pair(&mut p, &mut p_st, &mut b, &mut b_st, &pin);
    let fin = board_frames(&pa)[1].clone();
    let after = image(&b_st);
    assert!(b.step(&mut b_st, &to_input(&[0x41, 9, 9, 9])).is_empty());
    assert!(b.step(&mut b_st, &to_input(&fin)).is_empty());
    assert_eq!(image(&b_st), after);
    assert!(matches!(b.phase(), FobPhase::Idle));
}

#[test]
fn enrol_with_invalid_index() {
    let w = world();
    let mut st = paired_fob_store(&w, &[1, 2, 3], &[7; 12], [[0; 64]; 3]);
    let before = image(&st);
    let mut fob = Fob::new();
    let mut p = w.car_id.to_vec();
    p.extend_from_slice(&[0, 0, 0, 4]);
    p.extend_from_slice(&[0xAB; 64]);
    let acts = fob.step(&mut st, &Input::Host(ENAB_FEAT, p));
    assert_eq!(host_bytes(&acts), vec![vec![HOST_FAILURE]]);
    assert!(matches!(acts[0], Action::Sleep(800_000)));
    assert_eq!(image(&st), before);
}

#[test]
fn enrol_valid_index_overwrites_slot() {
    let w = world();
    let mut st = paired_fob_store(&w, &[1, 2, 3], &[7; 12], [[0; 64]; 3]);
    let mut fob = Fob::new();
    let mut p = w.car_id.to_vec();
    p.extend_from_slice(&[0, 0, 0, 2]);
    p.extend_from_slice(&[0xAB; 64]);
    let acts = fob.step(&mut st, &Input::Host(ENAB_FEAT, p));
    assert_eq!(host_bytes(&acts), vec![vec![0xAA]]);
    assert_eq!(st.read(FOB_FEAT_2_SIG, 64), vec![0xAB; 64]);
    assert_eq!(st.read(FOB_FEAT_1_SIG, 64), vec![0; 64]);
}

#[test]
fn unpaired_fob_refuses_host_commands() {
    let mut st = blank_fob_store(&[8; 12]);
    let mut fob = Fob::new();
    let acts = fob.step(&mut st, &Input::Host(PAIR_REQ, vec![1, 2, 3]));
    assert_eq!(host_bytes(&acts), vec![vec![HOST_FAILURE]]);
    assert!(fob.step(&mut st, &Input::Button).is_empty());
}

#[test]
fn bit_flip_in_challenge_signature() {
    let w = world();
    let car_st = car_store(&w, &public_of(&w.fob_secret));
    let mut fob_st = paired_fob_store(&w, &[1, 2, 3], &[7; 12], [[0; 64]; 3]);
    let mut car = Car::new([1; 32]);
    let mut fob = Fob::new();
    fob.step(&mut fob_st, &Input::Button);
    let chal = car.step(&car_st, &to_input(&[0x60]), &SAMPLE);
    let mut frame = board_frames(&chal)[0].clone();
    frame[20] ^= 0x01;
    let out = fob.step(&mut fob_st, &to_input(&frame));
    assert_eq!(board_frames(&out), vec![vec![UNLOCK_RST]]);
    assert!(matches!(fob.phase(), FobPhase::Idle));
    let timeout = car.step(&car_st, &Input::Timeout, &SAMPLE);
    assert!(timeout.is_empty());
    assert!(matches!(car.phase(), CarPhase::Idle));
}

#[test]
fn sign_then_verify_with_stored_keys() {
    let w = world();
    for secret in [w.car_secret, w.fob_secret, w.man_secret] {
        let public = public_of(&secret);
        let msg = b"some message";
        let sig = sign(&secret, msg, &mut seeded_rng([4; 32])).unwrap();
        assert!(verify(&public, msg, &sig));
        assert!(!verify(&public, b"other message", &sig));
    }
    assert!(sign(&[0xFFu8; 32], b"m", &mut seeded_rng([4; 32])).is_none());
    assert!(!verify(&[0u8; 64], b"m", &[1u8; 64]));
}
