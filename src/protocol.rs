//! What the protocols share: magic tags, payload lengths, the persistent layout,
//! and the actions a handler asks its device to perform.

use vstd::prelude::*;
use crate::store::{aligned_range, written, Store, STORE_SIZE};
use crate::words::{bytes_to_words, words_of_bytes};

verus! {

pub const PAIR_REQ: u8 = 0x40;
pub const PAIR_SYN: u8 = 0x41;
pub const PAIR_ACK: u8 = 0x42;
pub const PAIR_FIN: u8 = 0x43;
pub const PAIR_RST: u8 = 0x44;
pub const ENAB_FEAT: u8 = 0x50;
pub const UNLOCK_REQ: u8 = 0x60;
pub const UNLOCK_CHAL: u8 = 0x61;
pub const UNLOCK_RESP: u8 = 0x62;
pub const UNLOCK_GOOD: u8 = 0x63;
pub const UNLOCK_FEAT: u8 = 0x64;
pub const UNLOCK_RST: u8 = 0x69;
pub const HOST_SUCCESS: u8 = 0xAA;
pub const HOST_FAILURE: u8 = 0xBB;

pub const LEN_SECRET: usize = 32;
pub const LEN_PUBLIC: usize = 64;
pub const LEN_SALT: usize = 12;
pub const LEN_HASH: usize = 32;
pub const LEN_CAR_ID: usize = 4;
pub const LEN_FEAT_NUM: usize = 4;
pub const LEN_SIG: usize = 64;
pub const LEN_FLAG: usize = 64;
pub const LEN_PIN: usize = 3;
pub const LEN_NONCE: usize = 8;
pub const LEN_PAIRED: usize = 4;

/// Payload of `PAIR_FIN`: secret, car id, three feature signatures, car public key.
pub const LEN_PAIR_FIN: usize = 292;
/// Payload of `ENAB_FEAT`: car id, feature number, signature.
pub const LEN_ENAB_FEAT: usize = 72;
/// Payload of `UNLOCK_CHAL` and `UNLOCK_RESP`: nonce and signature.
pub const LEN_CHAL: usize = 72;
/// Payload of `UNLOCK_FEAT`: three feature signatures.
pub const LEN_UNLOCK_FEAT: usize = 192;

// Fob layout.
pub const FOB_SECRET: usize = 0x100;
pub const FOB_SECRET_ENC: usize = 0x120;
pub const FOB_SALT: usize = 0x140;
pub const FOB_PIN_HASH: usize = 0x160;
pub const FOB_CAR_ID: usize = 0x200;
pub const FOB_FEAT_1_SIG: usize = 0x240;
pub const FOB_FEAT_2_SIG: usize = 0x280;
pub const FOB_FEAT_3_SIG: usize = 0x2C0;
pub const FOB_CAR_PUBLIC: usize = 0x300;
pub const FOB_IS_PAIRED: usize = 0x400;

// Car layout.
pub const CAR_SECRET: usize = 0x100;
pub const CAR_MAN_PUBLIC: usize = 0x120;
pub const CAR_FOB_PUBLIC: usize = 0x160;
pub const CAR_ID: usize = 0x200;
pub const CAR_MSG_FEAT_3: usize = 0x700;
pub const CAR_MSG_FEAT_2: usize = 0x740;
pub const CAR_MSG_FEAT_1: usize = 0x780;
pub const CAR_MSG_UNLOCK: usize = 0x7C0;

/// Length of the payload that follows each magic tag; zero for unknown tags.
pub open spec fn payload_len_of(magic: u8) -> nat {
    if magic == PAIR_REQ || magic == PAIR_SYN {
        3
    } else if magic == PAIR_FIN {
        292
    } else if magic == ENAB_FEAT || magic == UNLOCK_CHAL || magic == UNLOCK_RESP {
        72
    } else if magic == UNLOCK_FEAT {
        192
    } else {
        0
    }
}

/// Number of payload bytes to read after `magic`.
pub fn payload_len(magic: u8) -> (r: usize)
    ensures
        r == payload_len_of(magic),
{
    if magic == PAIR_REQ || magic == PAIR_SYN {
        LEN_PIN
    } else if magic == PAIR_FIN {
        LEN_PAIR_FIN
    } else if magic == ENAB_FEAT || magic == UNLOCK_CHAL || magic == UNLOCK_RESP {
        LEN_CHAL
    } else if magic == UNLOCK_FEAT {
        LEN_UNLOCK_FEAT
    } else {
        0
    }
}

/// One thing a handler asks its device to do, in order.
#[derive(Clone, Debug)]
pub enum Action {
    /// Write these bytes on the host stream.
    Host(Vec<u8>),
    /// Write these bytes on the board stream.
    Board(Vec<u8>),
    /// Start the one-shot delay timer with this many microseconds.
    StartTimer(u32),
    /// Block until the delay timer has at most this many microseconds left.
    WaitRemaining(u32),
    /// Sleep this many microseconds.
    Sleep(u32),
    /// Write these words to the persistent store at this byte offset.
    Persist(usize, Vec<u32>),
}

/// Time and timer deadline (in microseconds since the handler began) after one
/// more action, counting only the time the action is bound to wait.
pub open spec fn tick(state: (int, int), a: Action) -> (int, int) {
    let (t, deadline) = state;
    match a {
        Action::StartTimer(us) => (t, t + us),
        Action::WaitRemaining(r) => (
            if t < deadline - r {
                deadline - r
            } else {
                t
            },
            deadline,
        ),
        Action::Sleep(us) => (t + us, deadline),
        _ => (t, deadline),
    }
}

/// Time and deadline after the first `n` actions.
pub open spec fn clock_after(acts: Seq<Action>, n: nat) -> (int, int)
    decreases n,
{
    if n == 0 || n > acts.len() {
        (0, 0)
    } else {
        tick(clock_after(acts, (n - 1) as nat), acts[n - 1])
    }
}

/// The time a run of actions is bound to take when every transfer and
/// computation were instant: a lower bound on its wall-clock duration, which
/// grows beyond it only by the cost of computing and transferring.
pub open spec fn scheduled_us(acts: Seq<Action>) -> int {
    clock_after(acts, acts.len()).0
}

/// Whether some action writes to the host stream.
pub open spec fn writes_host(acts: Seq<Action>) -> bool {
    exists|i: int| 0 <= i < acts.len() && #[trigger] acts[i] is Host
}

/// Whether some action writes to the persistent store.
pub open spec fn persists(acts: Seq<Action>) -> bool {
    exists|i: int| 0 <= i < acts.len() && #[trigger] acts[i] is Persist
}

/// One input handed to a device's handler by its main loop.
#[derive(Clone, Debug)]
pub enum Input {
    /// A magic tag and its payload from the host stream.
    Host(u8, Vec<u8>),
    /// A magic tag and its payload from the board stream.
    Board(u8, Vec<u8>),
    /// The switch was pressed.
    Button,
    /// The delay timer ran out while a reply was awaited.
    Timeout,
}

/// Whether the input is a board message with this tag and a payload of the
/// length that the tag fixes.
pub open spec fn is_board_msg(input: Input, magic: u8) -> bool {
    &&& input is Board
    &&& input->Board_0 == magic
    &&& input->Board_1@.len() == payload_len_of(magic)
}

/// Whether the input is a host message with this tag and a payload of the
/// length that the tag fixes.
pub open spec fn is_host_msg(input: Input, magic: u8) -> bool {
    &&& input is Host
    &&& input->Host_0 == magic
    &&& input->Host_1@.len() == payload_len_of(magic)
}

/// Checks `is_board_msg`.
pub fn board_msg(input: &Input, magic: u8) -> (r: bool)
    ensures
        r == is_board_msg(*input, magic),
{
    match input {
        Input::Board(m, payload) => *m == magic && payload.len() == payload_len(magic),
        _ => false,
    }
}

/// Checks `is_host_msg`.
pub fn host_msg(input: &Input, magic: u8) -> (r: bool)
    ensures
        r == is_host_msg(*input, magic),
{
    match input {
        Input::Host(m, payload) => *m == magic && payload.len() == payload_len(magic),
        _ => false,
    }
}

/// The payload of a message, empty for the other inputs.
pub open spec fn payload_of(input: Input) -> Seq<u8> {
    match input {
        Input::Host(_, p) => p@,
        Input::Board(_, p) => p@,
        _ => Seq::empty(),
    }
}

/// Returns `payload_of`.
pub fn payload(input: &Input) -> (r: &[u8])
    ensures
        r@ == payload_of(*input),
{
    match input {
        Input::Host(_, p) => p.as_slice(),
        Input::Board(_, p) => p.as_slice(),
        _ => &[],
    }
}

/// The nonce that answers the challenge `n`: `n + 1`, wrapping at 2^64.
pub open spec fn next_nonce(n: u64) -> u64 {
    if n == u64::MAX {
        0
    } else {
        (n + 1) as u64
    }
}

/// Computes `next_nonce`.
pub fn nonce_successor(n: u64) -> (r: u64)
    ensures
        r == next_nonce(n),
{
    if n == u64::MAX {
        0
    } else {
        n + 1
    }
}

/// Big-endian encoding of a 64-bit value.
pub open spec fn be_u64_bytes(n: u64) -> Seq<u8> {
    seq![
        ((n >> 56u64) & 0xff) as u8,
        ((n >> 48u64) & 0xff) as u8,
        ((n >> 40u64) & 0xff) as u8,
        ((n >> 32u64) & 0xff) as u8,
        ((n >> 24u64) & 0xff) as u8,
        ((n >> 16u64) & 0xff) as u8,
        ((n >> 8u64) & 0xff) as u8,
        (n & 0xff) as u8,
    ]
}

/// The value of eight big-endian bytes.
pub open spec fn be_u64_value(b: Seq<u8>) -> u64 {
    ((b[0] as u64) << 56u64) | ((b[1] as u64) << 48u64) | ((b[2] as u64) << 40u64) | ((
    b[3] as u64) << 32u64) | ((b[4] as u64) << 24u64) | ((b[5] as u64) << 16u64) | ((
    b[6] as u64) << 8u64) | (b[7] as u64)
}

/// The value of eight little-endian bytes.
pub open spec fn le_u64_value(b: Seq<u8>) -> u64 {
    ((b[7] as u64) << 56u64) | ((b[6] as u64) << 48u64) | ((b[5] as u64) << 40u64) | ((
    b[4] as u64) << 32u64) | ((b[3] as u64) << 24u64) | ((b[2] as u64) << 16u64) | ((
    b[1] as u64) << 8u64) | (b[0] as u64)
}

/// Encodes `n` big-endian.
pub fn u64_to_be(n: u64) -> (r: Vec<u8>)
    ensures
        r@ == be_u64_bytes(n),
{
    let mut r: Vec<u8> = Vec::new();
    r.push(((n >> 56u64) & 0xff) as u8);
    r.push(((n >> 48u64) & 0xff) as u8);
    r.push(((n >> 40u64) & 0xff) as u8);
    r.push(((n >> 32u64) & 0xff) as u8);
    r.push(((n >> 24u64) & 0xff) as u8);
    r.push(((n >> 16u64) & 0xff) as u8);
    r.push(((n >> 8u64) & 0xff) as u8);
    r.push((n & 0xff) as u8);
    assert(r@ =~= be_u64_bytes(n));
    r
}

/// Decodes the first eight bytes of `b` big-endian.
pub fn u64_from_be(b: &[u8]) -> (r: u64)
    requires
        b@.len() >= 8,
    ensures
        r == be_u64_value(b@),
{
    ((b[0] as u64) << 56u64) | ((b[1] as u64) << 48u64) | ((b[2] as u64) << 40u64) | ((
    b[3] as u64) << 32u64) | ((b[4] as u64) << 24u64) | ((b[5] as u64) << 16u64) | ((
    b[6] as u64) << 8u64) | (b[7] as u64)
}

/// Decodes the first eight bytes of `b` little-endian.
pub fn u64_from_le(b: &[u8]) -> (r: u64)
    requires
        b@.len() >= 8,
    ensures
        r == le_u64_value(b@),
{
    ((b[7] as u64) << 56u64) | ((b[6] as u64) << 48u64) | ((b[5] as u64) << 40u64) | ((
    b[4] as u64) << 32u64) | ((b[3] as u64) << 24u64) | ((b[2] as u64) << 16u64) | ((
    b[1] as u64) << 8u64) | (b[0] as u64)
}

/// Decoding an encoded value gives it back.
pub proof fn lemma_be_u64_round_trip(n: u64)
    ensures
        be_u64_value(be_u64_bytes(n)) == n,
{
    let b = be_u64_bytes(n);
    assert(((((n >> 56u64) & 0xff) as u8 as u64) << 56u64) | ((((n >> 48u64) & 0xff) as u8 as u64)
        << 48u64) | ((((n >> 40u64) & 0xff) as u8 as u64) << 40u64) | ((((n >> 32u64) & 0xff) as u8
        as u64) << 32u64) | ((((n >> 24u64) & 0xff) as u8 as u64) << 24u64) | ((((n >> 16u64)
        & 0xff) as u8 as u64) << 16u64) | ((((n >> 8u64) & 0xff) as u8 as u64) << 8u64) | ((n
        & 0xff) as u8 as u64) == n) by (bit_vector);
}

/// A one-byte message.
pub fn tag(magic: u8) -> (r: Vec<u8>)
    ensures
        r@ == seq![magic],
{
    let mut r: Vec<u8> = Vec::new();
    r.push(magic);
    assert(r@ =~= seq![magic]);
    r
}

/// Queues `data` for the host stream.
pub fn uart_write_host(acts: &mut Vec<Action>, data: &[u8])
    ensures
        final(acts)@ == old(acts)@.push(final(acts)@.last()),
        final(acts)@.last() is Host,
        final(acts)@.last()->Host_0@ == data@,
{
    let mut bytes: Vec<u8> = Vec::new();
    append(&mut bytes, data);
    acts.push(Action::Host(bytes));
    assert(acts@ =~= old(acts)@.push(acts@.last()));
}

/// Queues `data` for the board stream.
pub fn uart_write_board(acts: &mut Vec<Action>, data: &[u8])
    ensures
        final(acts)@ == old(acts)@.push(final(acts)@.last()),
        final(acts)@.last() is Board,
        final(acts)@.last()->Board_0@ == data@,
{
    let mut bytes: Vec<u8> = Vec::new();
    append(&mut bytes, data);
    acts.push(Action::Board(bytes));
    assert(acts@ =~= old(acts)@.push(acts@.last()));
}

/// Fills `data` with the bytes of a message received from the host, starting at
/// byte `at` of its payload.
pub fn uart_read_host(data: &mut [u8], received: &[u8], at: usize)
    requires
        at + old(data)@.len() <= received@.len(),
    ensures
        final(data)@ == received@.subrange(at as int, at + old(data)@.len()),
{
    copy_from(data, received, at);
}

/// Fills `data` with the bytes of a message received from the board, starting
/// at byte `at` of its payload.
pub fn uart_read_board(data: &mut [u8], received: &[u8], at: usize)
    requires
        at + old(data)@.len() <= received@.len(),
    ensures
        final(data)@ == received@.subrange(at as int, at + old(data)@.len()),
{
    copy_from(data, received, at);
}

fn copy_from(data: &mut [u8], src: &[u8], at: usize)
    requires
        at + old(data)@.len() <= src@.len(),
    ensures
        final(data)@ == src@.subrange(at as int, at + old(data)@.len()),
{
    let n = data.len();
    let m = src.len();
    let mut i: usize = 0;
    while i < n
        invariant
            n == data@.len(),
            m == src@.len(),
            at + n <= m,
            i <= n,
            forall|j: int| 0 <= j < i ==> #[trigger] data@[j] == src@[at + j],
        decreases n - i,
    {
        data[i] = src[at + i];
        i = i + 1;
    }
    assert(data@ =~= src@.subrange(at as int, at + n));
}

/// Writes `data` at `offset` of the store and records the write as an action.
pub fn persist(store: &mut Store, acts: &mut Vec<Action>, offset: usize, data: &[u8])
    requires
        old(store)@.len() == STORE_SIZE,
        aligned_range(offset as int, data@.len() as int),
    ensures
        final(store)@ == written(old(store)@, offset as int, data@),
        final(store)@.len() == STORE_SIZE,
        forall|j: int|
            0 <= j < STORE_SIZE ==> #[trigger] final(store)@[j] == if offset <= j < offset
                + data@.len() {
                data@[j - offset]
            } else {
                old(store)@[j]
            },
        final(acts)@.len() == old(acts)@.len() + 1,
        final(acts)@.subrange(0, old(acts)@.len() as int) == old(acts)@,
        final(acts)@.last() is Persist,
        final(acts)@.last()->Persist_0 == offset,
        final(acts)@.last()->Persist_1@ == words_of_bytes(data@),
{
    store.write(offset, data);
    let mut words: Vec<u32> = Vec::new();
    let mut i: usize = 0;
    let n = data.len() / 4;
    while i < n
        invariant
            i <= n,
            words@.len() == i,
        decreases n - i,
    {
        words.push(0u32);
        i = i + 1;
    }
    bytes_to_words(data, words.as_mut_slice());
    acts.push(Action::Persist(offset, words));
    assert(acts@.subrange(0, old(acts)@.len() as int) =~= old(acts)@);
}

/// Appends `src` to `dst`.
pub fn append(dst: &mut Vec<u8>, src: &[u8])
    ensures
        final(dst)@ == old(dst)@ + src@,
{
    let mut i: usize = 0;
    while i < src.len()
        invariant
            i <= src@.len(),
            dst@ == old(dst)@ + src@.subrange(0, i as int),
        decreases src@.len() - i,
    {
        dst.push(src[i]);
        i = i + 1;
        assert(dst@ =~= old(dst)@ + src@.subrange(0, i as int));
    }
    assert(src@.subrange(0, src@.len() as int) =~= src@);
}

} // verus!
