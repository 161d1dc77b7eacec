//! Window properties: how they are asked for, and how the words in an answer
//! are read.

use vstd::prelude::*;

verus! {

/// The order of the bytes in a word, as this machine and the server agreed.
#[derive(Debug, Clone, Copy, PartialEq, Eq, Structural)]
pub enum ByteOrder {
    Little,
    Big,
}

/// The word made of four bytes.
pub open spec fn word_of(b0: u8, b1: u8, b2: u8, b3: u8, order: ByteOrder) -> u32 {
    match order {
        ByteOrder::Little => (b0 + b1 * 0x100 + b2 * 0x1_0000 + b3 * 0x100_0000) as u32,
        ByteOrder::Big => (b3 + b2 * 0x100 + b1 * 0x1_0000 + b0 * 0x100_0000) as u32,
    }
}

/// The bytes of a word.
pub open spec fn bytes_of(word: u32, order: ByteOrder) -> Seq<u8> {
    let (b0, b1, b2, b3) = (
        (word % 0x100) as u8,
        (word / 0x100 % 0x100) as u8,
        (word / 0x1_0000 % 0x100) as u8,
        (word / 0x100_0000) as u8,
    );
    match order {
        ByteOrder::Little => seq![b0, b1, b2, b3],
        ByteOrder::Big => seq![b3, b2, b1, b0],
    }
}

fn word(b0: u8, b1: u8, b2: u8, b3: u8, order: ByteOrder) -> (r: u32)
    ensures
        r == word_of(b0, b1, b2, b3, order),
{
    match order {
        ByteOrder::Little => b0 as u32 + b1 as u32 * 0x100 + b2 as u32 * 0x1_0000 + b3 as u32
            * 0x100_0000,
        ByteOrder::Big => b3 as u32 + b2 as u32 * 0x100 + b1 as u32 * 0x1_0000 + b0 as u32
            * 0x100_0000,
    }
}

pub(crate) fn word_bytes(word: u32, order: ByteOrder) -> (r: Vec<u8>)
    ensures
        r@ == bytes_of(word, order),
{
    let b0: u8 = (word % 0x100) as u8;
    let b1: u8 = (word / 0x100 % 0x100) as u8;
    let b2: u8 = (word / 0x1_0000 % 0x100) as u8;
    let b3: u8 = (word / 0x100_0000) as u8;
    let r: Vec<u8> = match order {
        ByteOrder::Little => vec![b0, b1, b2, b3],
        ByteOrder::Big => vec![b3, b2, b1, b0],
    };
    assert(r@ =~= bytes_of(word, order));
    r
}

/// A question for the server: a property of a window.
#[derive(Debug, Clone, Copy, PartialEq, Eq, Structural)]
pub struct PropertyRequest {
    pub window: u32,
    pub property: u32,
    pub type_: u32,
    /// How much of it to send, in words.
    pub length: u32,
}

/// The server's answer. `value_len` counts items of `format` bits.
#[derive(Debug)]
pub struct PropertyReply {
    pub format: u8,
    pub value_len: u32,
    pub value: Vec<u8>,
}

impl PropertyReply {
    /// An answer that claims a word holds one.
    pub open spec fn wf(&self) -> bool {
        self.format == 32 && self.value_len != 0 ==> self.value@.len() >= 4
    }

    /// Whether the answer holds words at all.
    pub open spec fn has_words(&self) -> bool {
        self.format == 32 && self.value_len != 0
    }

    /// The words in the answer.
    pub open spec fn words(&self, order: ByteOrder) -> Seq<u32> {
        if self.has_words() {
            words_in(self.value@, order)
        } else {
            Seq::empty()
        }
    }

    /// The first word in the answer.
    pub open spec fn first_word(&self, order: ByteOrder) -> Option<u32> {
        if self.has_words() {
            Some(words_in(self.value@, order)[0])
        } else {
            None
        }
    }

    /// Takes in an answer, if it is as long as it claims to be.
    pub fn new(format: u8, value_len: u32, value: Vec<u8>) -> (r: Option<Self>)
        ensures
            r is Some <==> (format == 32 && value_len != 0 ==> value@.len() >= 4),
            r matches Some(p) ==> p.wf() && p == (PropertyReply { format, value_len, value }),
    {
        if format == 32 && value_len != 0 && value.len() < 4 {
            return None;
        }
        Some(PropertyReply { format, value_len, value })
    }
}

/// The words in a byte string; bytes after the last whole word are left out.
pub open spec fn words_in(bytes: Seq<u8>, order: ByteOrder) -> Seq<u32> {
    Seq::new(
        bytes.len() / 4,
        |i: int|
            word_of(bytes[4 * i], bytes[4 * i + 1], bytes[4 * i + 2], bytes[4 * i + 3], order),
    )
}

/// The first word of an answer.
pub fn read_u32(r: &PropertyReply, order: ByteOrder) -> (w: Option<u32>)
    requires
        r.wf(),
    ensures
        w == r.first_word(order),
{
    if r.format != 32 || r.value_len == 0 {
        return None;
    }
    Some(word(r.value[0], r.value[1], r.value[2], r.value[3], order))
}

/// All words of an answer.
pub fn read_u32_array(r: &PropertyReply, order: ByteOrder) -> (w: Vec<u32>)
    ensures
        w@ == r.words(order),
{
    let mut out: Vec<u32> = Vec::new();
    if r.format != 32 || r.value_len == 0 {
        return out;
    }
    let n: usize = r.value.len() / 4;
    let mut i: usize = 0;
    while i < n
        invariant
            i <= n,
            n == r.value@.len() / 4,
            out@ =~= words_in(r.value@, order).take(i as int),
        decreases n - i,
    {
        assert(r.value.len() == r.value@.len());
        let at: usize = 4 * i;
        out.push(word(r.value[at], r.value[at + 1], r.value[at + 2], r.value[at + 3], order));
        i += 1;
    }
    assert(out@ =~= words_in(r.value@, order));
    out
}

/// A word that is written as bytes is read back from them.
pub proof fn law_words_are_read_back(word: u32, order: ByteOrder)
    ensures
        words_in(bytes_of(word, order), order) == seq![word],
{
    let b = bytes_of(word, order);
    assert(b.len() == 4);
    assert(words_in(b, order).len() == 1);
    assert(word_of(b[0], b[1], b[2], b[3], order) == word);
    assert(words_in(b, order) =~= seq![word]);
}

/// In the one order the first byte of a word counts once and each further one
/// 256 times as much as the one before; in the other order it is the last byte
/// that counts once.
pub proof fn law_bytes_of_a_word_count(b0: u8, b1: u8, b2: u8, b3: u8)
    ensures
        word_of(b0, b1, b2, b3, ByteOrder::Little) == b0 + 256 * (b1 + 256 * (b2 + 256 * b3)),
        word_of(b0, b1, b2, b3, ByteOrder::Big) == word_of(b3, b2, b1, b0, ByteOrder::Little),
{
}

/// The words of two byte strings in a row are those of the first and then those
/// of the second, if the first holds whole words. Up to three bytes behind the
/// last word are left out.
pub proof fn law_words_follow_each_other(a: Seq<u8>, b: Seq<u8>, order: ByteOrder)
    requires
        a.len() % 4 == 0,
    ensures
        words_in(a + b, order) == words_in(a, order) + words_in(b, order),
        b.len() < 4 ==> words_in(a + b, order) == words_in(a, order),
{
    let all = a + b;
    let x = words_in(a, order);
    let y = words_in(b, order);
    let z = words_in(all, order);
    assert(z.len() == x.len() + y.len());
    assert forall|i: int| 0 <= i < z.len() implies z[i] == (x + y)[i] by {
        if i < x.len() {
            assert(all[4 * i] == a[4 * i] && all[4 * i + 1] == a[4 * i + 1] && all[4 * i + 2]
                == a[4 * i + 2] && all[4 * i + 3] == a[4 * i + 3]);
        } else {
            let k = i - x.len();
            assert(4 * i == a.len() + 4 * k);
            assert(all[4 * i] == b[4 * k] && all[4 * i + 1] == b[4 * k + 1] && all[4 * i + 2]
                == b[4 * k + 2] && all[4 * i + 3] == b[4 * k + 3]);
        }
    }
    assert(z =~= x + y);
    if b.len() < 4 {
        assert(z =~= x);
    }
}

/// An answer holds words just if its items have 32 bits and there are any. Then
/// the first word is the first of them all.
pub proof fn law_answers_hold_words(reply: PropertyReply, order: ByteOrder)
    requires
        reply.wf(),
    ensures
        reply.format != 32 || reply.value_len == 0 ==> reply.words(order).len() == 0
            && reply.first_word(order) is None,
        reply.format == 32 && reply.value_len != 0 ==> reply.words(order).len()
            == reply.value@.len() / 4 && reply.words(order).len() > 0 && reply.first_word(order)
            == Some(reply.words(order)[0]) && reply.words(order) == words_in(reply.value@, order),
{
}

/// Reading gives the words of the answer, and the first of them.
pub proof fn law_reading_gives_the_words(
    reply: &PropertyReply,
    order: ByteOrder,
    first: Option<u32>,
    all: Vec<u32>,
)
    requires
        reply.wf(),
        call_ensures(read_u32, (reply, order), first),
        call_ensures(read_u32_array, (reply, order), all),
    ensures
        first is Some <==> all@.len() > 0,
        first matches Some(w) ==> all@[0] == w,
        forall|i: int|
            0 <= i < all@.len() ==> #[trigger] all@[i] == word_of(
                reply.value@[4 * i],
                reply.value@[4 * i + 1],
                reply.value@[4 * i + 2],
                reply.value@[4 * i + 3],
                order,
            ),
{
}

} // verus!
