//! The values exchanged with the kernel in a message: the message's
//! description, the buffer that holds its words, and the words that travel in
//! registers.

use crate::fast_messages_sealing::FastMessagesSealed;
use vstd::prelude::*;

verus! {

pub type Word = u64;

/// A capability badge.
pub type Badge = Word;

/// The number of message words that travel in registers.
pub const NUM_FAST_MESSAGE_REGISTERS: usize = 4;

/// The number of message words in the buffer.
pub const NUM_MESSAGE_REGISTERS: usize = 120;

/// The number of capabilities that a message can carry.
pub const NUM_EXTRA_CAPS: usize = 3;

/// The number of bits of the word of a message description that give the
/// message's length.
pub const LENGTH_BITS: u64 = 7;

/// The description of a message, packed in one word. The lowest seven bits
/// give the number of message words.
#[allow(non_camel_case_types)]
#[derive(Debug, Copy, Clone, PartialEq, Eq, Structural)]
pub struct seL4_MessageInfo(pub Word);

impl seL4_MessageInfo {
    /// The number of message words, as the description gives it.
    pub open spec fn length(self) -> Word {
        self.0 & 0x7f
    }

    pub fn from_word(word: Word) -> (r: Self)
        ensures
            r.0 == word,
    {
        seL4_MessageInfo(word)
    }

    pub fn into_word(self) -> (r: Word)
        ensures
            r == self.0,
    {
        self.0
    }

    pub fn get_length(&self) -> (r: Word)
        ensures
            r == self.length(),
            r < 128,
    {
        let word: Word = self.0;
        let r: Word = word & 0x7f;
        assert(r < 128) by (bit_vector)
            requires
                r == word & 0x7f,
        ;
        r
    }

    /// The word to put in register `i`: `msg` where there is one and the
    /// message is long enough to have a word `i`, else zero.
    pub fn msg_helper(&self, msg: Option<Word>, i: u64) -> (r: Word)
        ensures
            r == match msg {
                Some(word) if i < self.length() => word,
                _ => 0,
            },
    {
        match msg {
            Some(word) => if i < self.get_length() {
                word
            } else {
                0
            },
            None => 0,
        }
    }
}

/// The buffer through which a thread exchanges messages with the kernel.
#[allow(non_camel_case_types)]
pub struct seL4_IPCBuffer {
    pub tag: seL4_MessageInfo,
    pub msg: [Word; 120],
    pub user_data: Word,
    pub caps_or_badges: [Word; 3],
    pub receive_cnode: Word,
    pub receive_index: Word,
    pub receive_depth: Word,
}

impl seL4_IPCBuffer {
    pub fn get_mr(&self, i: usize) -> (r: Word)
        requires
            i < NUM_MESSAGE_REGISTERS,
        ensures
            r == self.msg@[i as int],
    {
        self.msg[i]
    }

    pub fn set_mr(&mut self, i: usize, value: Word)
        requires
            i < NUM_MESSAGE_REGISTERS,
        ensures
            final(self).msg@ == old(self).msg@.update(i as int, value),
            final(self).tag == old(self).tag,
            final(self).user_data == old(self).user_data,
            final(self).caps_or_badges == old(self).caps_or_badges,
            final(self).receive_cnode == old(self).receive_cnode,
            final(self).receive_index == old(self).receive_index,
            final(self).receive_depth == old(self).receive_depth,
    {
        self.msg[i] = value;
    }

    pub fn get_cap(&self, i: usize) -> (r: Word)
        requires
            i < NUM_EXTRA_CAPS,
        ensures
            r == self.caps_or_badges@[i as int],
    {
        self.caps_or_badges[i]
    }

    pub fn set_cap(&mut self, i: usize, cptr: Word)
        requires
            i < NUM_EXTRA_CAPS,
        ensures
            final(self).caps_or_badges@ == old(self).caps_or_badges@.update(i as int, cptr),
            final(self).tag == old(self).tag,
            final(self).msg == old(self).msg,
            final(self).user_data == old(self).user_data,
            final(self).receive_cnode == old(self).receive_cnode,
            final(self).receive_index == old(self).receive_index,
            final(self).receive_depth == old(self).receive_depth,
    {
        self.caps_or_badges[i] = cptr;
    }
}

/// The words of a message that travel in registers: those that `words` has,
/// and nothing in the registers after them.
pub open spec fn registers_in(words: Seq<Word>) -> Seq<Option<Word>> {
    Seq::new(
        NUM_FAST_MESSAGE_REGISTERS as nat,
        |i: int| if i < words.len() {
            Some(words[i])
        } else {
            None
        },
    )
}

/// The registers for a message that is sent and answered in place: the words
/// that `words` has, and zero in the registers after them.
pub open spec fn registers_in_out(words: Seq<Word>) -> Seq<Word> {
    Seq::new(
        NUM_FAST_MESSAGE_REGISTERS as nat,
        |i: int| if i < words.len() {
            words[i]
        } else {
            0
        },
    )
}

/// Up to four message words that can travel in registers.
pub trait FastMessages: FastMessagesSealed + Sized {
    /// The words, in order.
    spec fn words(self) -> Seq<Word>;

    fn prepare_in(self) -> (r: [Option<Word>; 4])
        requires
            self.words().len() <= NUM_FAST_MESSAGE_REGISTERS,
        ensures
            r@ == registers_in(self.words()),
    ;

    fn prepare_in_out(self) -> (r: [Word; 4])
        requires
            self.words().len() <= NUM_FAST_MESSAGE_REGISTERS,
        ensures
            r@ == registers_in_out(self.words()),
    ;
}

impl<const N: usize> FastMessages for [Word; N] where [Word; N]: FastMessagesSealed {
    open spec fn words(self) -> Seq<Word> {
        self@
    }

    fn prepare_in(self) -> (r: [Option<Word>; 4]) {
        let mut r: [Option<Word>; 4] = [None, None, None, None];
        let mut i: usize = 0;
        while i < N
            invariant
                N <= 4,
                i <= N,
                r@.len() == 4,
                forall|k: int| 0 <= k < 4 ==> r@[k] == if k < i {
                    Some(self@[k])
                } else {
                    None
                },
            decreases N - i,
        {
            r[i] = Some(self[i]);
            i = i + 1;
        }
        assert(r@ =~= registers_in(self@));
        r
    }

    fn prepare_in_out(self) -> (r: [Word; 4]) {
        let mut r: [Word; 4] = [0, 0, 0, 0];
        let mut i: usize = 0;
        while i < N
            invariant
                N <= 4,
                i <= N,
                r@.len() == 4,
                forall|k: int| 0 <= k < 4 ==> r@[k] == if k < i {
                    self@[k]
                } else {
                    0
                },
            decreases N - i,
        {
            r[i] = self[i];
            i = i + 1;
        }
        assert(r@ =~= registers_in_out(self@));
        r
    }
}

impl FastMessages for &[Word] {
    open spec fn words(self) -> Seq<Word> {
        self@
    }

    fn prepare_in(self) -> (r: [Option<Word>; 4]) {
        let mut r: [Option<Word>; 4] = [None, None, None, None];
        let mut i: usize = 0;
        while i < self.len()
            invariant
                self@.len() <= 4,
                i <= self@.len(),
                r@.len() == 4,
                forall|k: int| 0 <= k < 4 ==> r@[k] == if k < i {
                    Some(self@[k])
                } else {
                    None
                },
            decreases self@.len() - i,
        {
            r[i] = Some(self[i]);
            i = i + 1;
        }
        assert(r@ =~= registers_in(self@));
        r
    }

    fn prepare_in_out(self) -> (r: [Word; 4]) {
        let mut r: [Word; 4] = [0, 0, 0, 0];
        let mut i: usize = 0;
        while i < self.len()
            invariant
                self@.len() <= 4,
                i <= self@.len(),
                r@.len() == 4,
                forall|k: int| 0 <= k < 4 ==> r@[k] == if k < i {
                    self@[k]
                } else {
                    0
                },
            decreases self@.len() - i,
        {
            r[i] = self[i];
            i = i + 1;
        }
        assert(r@ =~= registers_in_out(self@));
        r
    }
}

/// The description of a message.
#[derive(Debug, Copy, Clone, PartialEq, Eq, Structural)]
pub struct MessageInfo(pub seL4_MessageInfo);

impl MessageInfo {
    pub fn from_inner(inner: seL4_MessageInfo) -> (r: Self)
        ensures
            r.0 == inner,
    {
        MessageInfo(inner)
    }

    pub fn into_inner(self) -> (r: seL4_MessageInfo)
        ensures
            r == self.0,
    {
        self.0
    }
}

/// What a receive with register words hands back.
#[derive(Debug, Copy, Clone, PartialEq, Eq)]
pub struct RecvWithMRs {
    pub info: MessageInfo,
    pub badge: Badge,
    pub msg: [Word; 4],
}

/// What a call with register words hands back.
#[derive(Debug, Copy, Clone, PartialEq, Eq)]
pub struct CallWithMRs {
    pub info: MessageInfo,
    pub msg: [Word; 4],
}

} // verus!
