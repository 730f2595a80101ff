//! The persistent store: 2 KiB, read and written in whole words at word-aligned
//! offsets. Held here as its byte image; never-written bytes read as zero.

use vstd::prelude::*;

verus! {

/// Size of the store in bytes.
pub const STORE_SIZE: usize = 2048;

/// Whether `offset` and `len` name a word-aligned range inside the store.
pub open spec fn aligned_range(offset: int, len: int) -> bool {
    &&& offset % 4 == 0
    &&& len % 4 == 0
    &&& 0 <= offset
    &&& 0 <= len
    &&& offset + len <= STORE_SIZE
}

/// The image `img` with `data` written at `offset`.
pub open spec fn written(img: Seq<u8>, offset: int, data: Seq<u8>) -> Seq<u8> {
    img.subrange(0, offset) + data + img.subrange(offset + data.len(), img.len() as int)
}

/// The `len` bytes of `img` at `offset`.
pub open spec fn field(img: Seq<u8>, offset: int, len: int) -> Seq<u8> {
    img.subrange(offset, offset + len)
}

pub struct Store {
    image: Vec<u8>,
}

impl View for Store {
    type V = Seq<u8>;

    closed spec fn view(&self) -> Seq<u8> {
        self.image@
    }
}

impl Store {
    /// A store that was never written: all zeros.
    pub fn new() -> (r: Store)
        ensures
            r@ == Seq::new(STORE_SIZE as nat, |i: int| 0u8),
    {
        let mut image: Vec<u8> = Vec::new();
        let mut i: usize = 0;
        while i < STORE_SIZE
            invariant
                i <= STORE_SIZE,
                image@ == Seq::new(i as nat, |j: int| 0u8),
            decreases STORE_SIZE - i,
        {
            image.push(0u8);
            i = i + 1;
        }
        Store { image }
    }

    /// The store holding the given 2 KiB image.
    pub fn from_image(image: Vec<u8>) -> (r: Store)
        requires
            image@.len() == STORE_SIZE,
        ensures
            r@ == image@,
    {
        Store { image }
    }

    /// The length of the image, which is always the store's size.
    pub fn len(&self) -> (r: usize)
        ensures
            r == self@.len(),
    {
        self.image.len()
    }

    /// Reads `len` bytes at `offset`.
    pub fn read(&self, offset: usize, len: usize) -> (r: Vec<u8>)
        requires
            self@.len() == STORE_SIZE,
            aligned_range(offset as int, len as int),
        ensures
            r@ == field(self@, offset as int, len as int),
    {
        let mut out: Vec<u8> = Vec::new();
        let mut i: usize = 0;
        while i < len
            invariant
                self@.len() == STORE_SIZE,
                offset + len <= STORE_SIZE,
                i <= len,
                out@ == self@.subrange(offset as int, offset + i),
            decreases len - i,
        {
            out.push(self.image[offset + i]);
            i = i + 1;
            assert(out@ =~= self@.subrange(offset as int, offset + i));
        }
        out
    }

    /// Writes `data` at `offset`; the rest of the store is unchanged.
    pub fn write(&mut self, offset: usize, data: &[u8])
        requires
            old(self)@.len() == STORE_SIZE,
            aligned_range(offset as int, data@.len() as int),
        ensures
            final(self)@ == written(old(self)@, offset as int, data@),
            final(self)@.len() == STORE_SIZE,
            forall|j: int|
                0 <= j < STORE_SIZE ==> #[trigger] final(self)@[j] == if offset <= j < offset
                    + data@.len() {
                    data@[j - offset]
                } else {
                    old(self)@[j]
                },
    {
        let n = data.len();
        let mut i: usize = 0;
        while i < n
            invariant
                n == data@.len(),
                offset + n <= STORE_SIZE,
                self@.len() == STORE_SIZE,
                i <= n,
                forall|j: int|
                    0 <= j < STORE_SIZE ==> #[trigger] self@[j] == if offset <= j < offset + i {
                        data@[j - offset]
                    } else {
                        old(self)@[j]
                    },
            decreases n - i,
        {
            self.image.set(offset + i, data[i]);
            i = i + 1;
        }
        assert(self@ =~= written(old(self)@, offset as int, data@));
    }
}

} // verus!
