//! Random short-token generation over a fixed 62-symbol alphabet.

use vstd::prelude::*;
use rand::Rng;

verus! {

/// The alphabet tokens are drawn from: upper and lower case Latin letters
/// and the ten digits, 62 symbols in all.
pub open spec fn charset() -> Seq<char> {
    "ABCDEFGHIJKLMNOPQRSTUVWXYZabcdefghijklmnopqrstuvwxyz0123456789"@
}

/// Relies on rand: `thread_rng().gen_range(0..bound)` returns a value
/// uniformly distributed in `0..bound` and panics only on an empty range.
#[verifier::external_body]
fn random_index(bound: usize) -> (r: usize)
    requires
        bound > 0,
    ensures
        r < bound,
{
    rand::thread_rng().gen_range(0..bound)
}

/// Produces random tokens of a fixed configured length.
#[derive(Clone, Copy)]
pub struct TokenGenerator {
    pub length: usize,
}

impl TokenGenerator {
    /// A generator for tokens of the default length, 6 symbols.
    pub fn new() -> (g: TokenGenerator)
        ensures
            g.length == 6,
    {
        TokenGenerator { length: 6 }
    }

    /// A generator for tokens of the given length.
    pub fn with_length(length: usize) -> (g: TokenGenerator)
        ensures
            g.length == length,
    {
        TokenGenerator { length }
    }

    /// A fresh random token: `self.length` symbols, each drawn from the
    /// 62-symbol alphabet. Randomness alone does not guarantee uniqueness;
    /// that is enforced at the store boundary.
    pub fn generate(&self) -> (r: String)
        ensures
            r@.len() == self.length,
            forall|i: int| 0 <= i < r@.len() ==> charset().contains(#[trigger] r@[i]),
    {
        let cs = "ABCDEFGHIJKLMNOPQRSTUVWXYZabcdefghijklmnopqrstuvwxyz0123456789";
        proof {
            reveal_strlit("ABCDEFGHIJKLMNOPQRSTUVWXYZabcdefghijklmnopqrstuvwxyz0123456789");
        }
        let mut r = String::new();
        let mut i: usize = 0;
        while i < self.length
            invariant
                i <= self.length,
                r@.len() == i,
                cs@ == charset(),
                cs.is_ascii(),
                cs@.len() == 62,
                forall|j: int| 0 <= j < i ==> charset().contains(#[trigger] r@[j]),
            decreases self.length - i,
        {
            let idx = random_index(62);
            let ch = cs.substring_ascii(idx, idx + 1);
            r.append(ch);
            proof {
                assert(r@[i as int] == charset()[idx as int]);
            }
            i = i + 1;
        }
        r
    }
}

} // verus!
