//! What can be wrong with a block or a chain.

use vstd::prelude::*;

verus! {

/// A structural violation found in a block or a chain.
#[derive(Debug, PartialEq)]
pub enum Error {
    /// The chain holds no block at all.
    ChainIsEmpty,
    /// The block at this index carries a hash, given second, that is not
    /// the digest of its content.
    BlockHasInvalidHash(u64, String),
    /// The block at this index names as its predecessor's hash the second
    /// value, where the third was expected.
    BlockHasInvalidPreviusBlockHash(u64, String, String),
    /// The hash of the block at this index does not start with as many
    /// zeros as the difficulty, given second, asks for.
    UnsatisfiedHashDifficulty(u64, usize),
}

/// The mathematical content of an [`Error`].
pub enum Fault {
    /// The chain holds no block.
    ChainIsEmpty,
    /// The block with this index carries `hash`, which is not the digest
    /// of its content.
    InvalidHash { index: nat, hash: Seq<char> },
    /// The block with this index names `actual` as the hash of the block
    /// before it, whose hash is `expected`.
    InvalidPreviousHash { index: nat, actual: Seq<char>, expected: Seq<char> },
    /// The hash of the block with this index does not start with
    /// `difficulty` zeros.
    UnsatisfiedDifficulty { index: nat, difficulty: nat },
}

impl View for Error {
    type V = Fault;

    open spec fn view(&self) -> Fault {
        match self {
            Error::ChainIsEmpty => Fault::ChainIsEmpty,
            Error::BlockHasInvalidHash(index, hash) => Fault::InvalidHash {
                index: *index as nat,
                hash: hash@,
            },
            Error::BlockHasInvalidPreviusBlockHash(index, actual, expected) => {
                Fault::InvalidPreviousHash {
                    index: *index as nat,
                    actual: actual@,
                    expected: expected@,
                }
            },
            Error::UnsatisfiedHashDifficulty(index, difficulty) => Fault::UnsatisfiedDifficulty {
                index: *index as nat,
                difficulty: *difficulty as nat,
            },
        }
    }
}

} // verus!
