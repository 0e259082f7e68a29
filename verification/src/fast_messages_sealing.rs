//! The kinds of value that can stand for the words of a fast message.

use crate::ipc::Word;
use vstd::prelude::*;

verus! {

pub trait FastMessagesSealed {

}

impl FastMessagesSealed for [Word; 0] {

}

impl FastMessagesSealed for [Word; 1] {

}

impl FastMessagesSealed for [Word; 2] {

}

impl FastMessagesSealed for [Word; 3] {

}

impl FastMessagesSealed for [Word; 4] {

}

impl FastMessagesSealed for &[Word] {

}

} // verus!
