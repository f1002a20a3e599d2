//! What only a call to the outside can show: that the clock was read, that something was drawn at
//! random, or that a key or a signature was refused.
//!
//! No other module sees the definitions. There such a fact comes from the function that made the
//! call alone, and a value that was made up does not have it.
use std::time::SystemTime;

use vstd::prelude::*;

use crate::clock::valid_reading;
use crate::clock::TimestampView;
use crate::idprov::uuid_digits;

verus! {

/// The clock showed this point in time when it was read.
pub closed spec fn clock_showed(t: TimestampView) -> bool {
    valid_reading(t)
}

/// The system clock gave this reading.
pub closed spec fn system_clock_gave(t: SystemTime) -> bool {
    true
}

/// The word was drawn at random from these.
pub closed spec fn word_was_drawn(words: Seq<Seq<char>>, word: Seq<char>) -> bool {
    words.contains(word)
}

/// The digits are those of a UUID that was drawn at random.
pub closed spec fn uuid_was_drawn(digits: Seq<char>) -> bool {
    digits.len() == 32 && uuid_digits(digits)
}

/// The document with a new key was made at random.
pub closed spec fn key_was_made(document: Seq<u8>) -> bool {
    document.len() == 138
}

/// No new key could be made.
pub closed spec fn key_making_failed() -> bool {
    true
}

/// The reader of PKCS#8 documents did not take the document.
pub closed spec fn document_was_refused(document: Seq<u8>) -> bool {
    true
}

/// The reader of raw keys did not take the two keys.
pub closed spec fn raw_keys_were_refused(private: Seq<u8>, public: Seq<u8>) -> bool {
    true
}

/// The key with this public key was asked to sign the message, and made no signature.
pub closed spec fn signing_failed(public: Seq<u8>, message: Seq<u8>) -> bool {
    true
}

} // verus!
