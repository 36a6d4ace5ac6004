//! Deterministic plugin ids.
//!
//! A plugin id is the lowercase hexadecimal rendering of a 64-bit hash of the
//! plugin's declared name.  The derivation is a pure function of the name, so
//! re-scanning a directory that still declares the same plugin name yields
//! the same id and replaces the existing registry entry instead of creating a
//! duplicate.

use vstd::prelude::*;

verus! {

/// Offset basis of the 64-bit FNV-1a hash.
pub const HASH_BASIS: u64 = 0xcbf29ce484222325;

/// Prime multiplier of the 64-bit FNV-1a hash.
pub const HASH_PRIME: u64 = 0x100000001b3;

/// One hash round: fold the next character into the running state.
pub open spec fn hash_step(h: u64, c: char) -> u64 {
    vstd::wrapping::u64_specs::wrapping_mul(h ^ ((c as u32) as u64), HASH_PRIME)
}

/// The hash of a whole name, folded left to right from the basis.
pub open spec fn hash_chars(s: Seq<char>) -> u64
    decreases s.len(),
{
    if s.len() == 0 {
        HASH_BASIS
    } else {
        hash_step(hash_chars(s.drop_last()), s.last())
    }
}

/// The lowercase hexadecimal digit for a value below 16.
pub open spec fn hex_digit(n: u64) -> char {
    if n == 0 { '0' } else if n == 1 { '1' } else if n == 2 { '2' }
    else if n == 3 { '3' } else if n == 4 { '4' } else if n == 5 { '5' }
    else if n == 6 { '6' } else if n == 7 { '7' } else if n == 8 { '8' }
    else if n == 9 { '9' } else if n == 10 { 'a' } else if n == 11 { 'b' }
    else if n == 12 { 'c' } else if n == 13 { 'd' } else if n == 14 { 'e' }
    else { 'f' }
}

/// Lowercase hexadecimal rendering of a 64-bit value, without leading zeros.
pub open spec fn hex_of(n: u64) -> Seq<char>
    decreases n,
{
    if n < 16 {
        seq![hex_digit(n)]
    } else {
        hex_of(n / 16).push(hex_digit(n % 16))
    }
}

/// What `generate_id` returns for a given name.
pub open spec fn spec_generate_id(name: Seq<char>) -> Seq<char> {
    hex_of(hash_chars(name))
}

/// Appends the hexadecimal digit for `n` (below 16) to `out`.
fn push_hex_digit(out: &mut String, n: u64)
    requires
        n < 16,
    ensures
        final(out)@ == old(out)@.push(hex_digit(n)),
{
    let d: &str = if n == 0 { "0" } else if n == 1 { "1" } else if n == 2 { "2" }
        else if n == 3 { "3" } else if n == 4 { "4" } else if n == 5 { "5" }
        else if n == 6 { "6" } else if n == 7 { "7" } else if n == 8 { "8" }
        else if n == 9 { "9" } else if n == 10 { "a" } else if n == 11 { "b" }
        else if n == 12 { "c" } else if n == 13 { "d" } else if n == 14 { "e" }
        else { "f" };
    proof {
        reveal_strlit("0"); reveal_strlit("1"); reveal_strlit("2"); reveal_strlit("3");
        reveal_strlit("4"); reveal_strlit("5"); reveal_strlit("6"); reveal_strlit("7");
        reveal_strlit("8"); reveal_strlit("9"); reveal_strlit("a"); reveal_strlit("b");
        reveal_strlit("c"); reveal_strlit("d"); reveal_strlit("e"); reveal_strlit("f");
        assert(d@ =~= seq![hex_digit(n)]);
    }
    out.append(d);
    proof {
        assert(out@ =~= old(out)@.push(hex_digit(n)));
    }
}

/// The 64-bit hash of a name's characters.
fn hash_name(name: &str) -> (h: u64)
    ensures
        h == hash_chars(name@),
{
    let n = name.unicode_len();
    let mut h: u64 = HASH_BASIS;
    let mut i: usize = 0;
    while i < n
        invariant
            n == name@.len(),
            i <= n,
            h == hash_chars(name@.subrange(0, i as int)),
        decreases n - i,
    {
        let c = name.get_char(i);
        proof {
            assert(name@.subrange(0, i + 1).drop_last() =~= name@.subrange(0, i as int));
            assert(name@.subrange(0, i + 1).last() == name@[i as int]);
        }
        h = (h ^ ((c as u32) as u64)).wrapping_mul(HASH_PRIME);
        i = i + 1;
    }
    proof {
        assert(name@.subrange(0, n as int) =~= name@);
    }
    h
}

/// Derives the deterministic id of a plugin from its declared name: the
/// lowercase hexadecimal rendering of a 64-bit hash of the name.
pub fn generate_id(name: &str) -> (id: String)
    ensures
        id@ == spec_generate_id(name@),
{
    let h = hash_name(name);
    if h == 0 {
        let zero = "0";
        proof {
            reveal_strlit("0");
            assert(zero@ =~= hex_of(0));
        }
        return zero.to_owned();
    }
    // Collect the hexadecimal digits of `h`, least significant first.
    let mut digits: Vec<u64> = Vec::new();
    let mut rest: u64 = h;
    while rest > 0
        invariant
            forall|k: int| 0 <= k < digits@.len() ==> digits@[k] < 16,
            hex_of(h) == hex_of_digits(rest, digits@),
            rest == 0 ==> digits@.len() > 0,
        decreases rest,
    {
        let d = rest % 16;
        let prev: Ghost<u64> = Ghost(rest);
        let before: Ghost<Seq<u64>> = Ghost(digits@);
        rest = rest / 16;
        digits.push(d);
        proof {
            assert(digits@.drop_last() =~= before@);
            lemma_hex_digits_step(prev@, rest, d, digits@);
        }
    }
    let mut id = String::new();
    let mut i: usize = digits.len();
    proof {
        assert(digits@.subrange(0, i as int) =~= digits@);
        assert(id@ + digit_chars(digits@) =~= digit_chars(digits@));
    }
    while i > 0
        invariant
            forall|k: int| 0 <= k < digits@.len() ==> digits@[k] < 16,
            i <= digits@.len(),
            hex_of(h) == id@ + digit_chars(digits@.subrange(0, i as int)),
        decreases i,
    {
        i = i - 1;
        proof {
            assert(digits@.subrange(0, i + 1).last() == digits@[i as int]);
            assert(digits@.subrange(0, i + 1).drop_last() =~= digits@.subrange(0, i as int));
            assert(digit_chars(digits@.subrange(0, i + 1)) =~=
                seq![hex_digit(digits@[i as int])] + digit_chars(digits@.subrange(0, i as int)));
        }
        push_hex_digit(&mut id, digits[i]);
    }
    proof {
        assert(digit_chars(digits@.subrange(0, 0)) =~= Seq::<char>::empty());
        assert(id@ =~= id@ + digit_chars(digits@.subrange(0, 0)));
    }
    id
}

/// The digits collected so far, rendered most significant first, preceded by
/// the rendering of the not yet decomposed remainder `rest`.
pub open spec fn hex_of_digits(rest: u64, digits: Seq<u64>) -> Seq<char>
    decreases digits.len(),
{
    if digits.len() == 0 {
        hex_of(rest)
    } else if rest == 0 {
        digit_chars(digits)
    } else {
        hex_of(rest) + digit_chars(digits)
    }
}

/// A digit sequence rendered most significant last, reversed into characters.
pub open spec fn digit_chars(digits: Seq<u64>) -> Seq<char>
    decreases digits.len(),
{
    if digits.len() == 0 {
        Seq::empty()
    } else {
        seq![hex_digit(digits.last())] + digit_chars(digits.drop_last())
    }
}

/// Peeling the low digit off the remainder keeps the rendered value intact.
proof fn lemma_hex_digits_step(prev: u64, rest: u64, d: u64, digits: Seq<u64>)
    requires
        d == prev % 16,
        rest == prev / 16,
        digits.len() > 0,
        digits.last() == d,
        digits.len() > 1 ==> prev > 0,
    ensures
        hex_of_digits(rest, digits) == hex_of_digits(prev, digits.drop_last()),
{
    let old_digits = digits.drop_last();
    assert(digit_chars(digits) =~= seq![hex_digit(d)] + digit_chars(old_digits));
    if old_digits.len() == 0 {
        if prev < 16 {
            assert(hex_of(prev) =~= seq![hex_digit(prev)]);
            assert(hex_of_digits(rest, digits) =~= digit_chars(digits));
            assert(digit_chars(digits) =~= seq![hex_digit(d)]);
        } else {
            assert(hex_of(prev) =~= hex_of(rest).push(hex_digit(d)));
            assert(hex_of_digits(rest, digits) =~= hex_of(rest) + digit_chars(digits));
            assert(hex_of(rest) + digit_chars(digits) =~= hex_of(rest).push(hex_digit(d)));
        }
    } else {
        if prev < 16 {
            assert(hex_of_digits(prev, old_digits) =~= hex_of(prev) + digit_chars(old_digits));
            assert(hex_of(prev) =~= seq![hex_digit(prev)]);
            assert(hex_of_digits(rest, digits) =~= digit_chars(digits));
            assert(digit_chars(digits) =~= seq![hex_digit(prev)] + digit_chars(old_digits));
        } else {
            assert(hex_of_digits(prev, old_digits) =~= hex_of(prev) + digit_chars(old_digits));
            assert(hex_of(prev) =~= hex_of(rest).push(hex_digit(d)));
            assert(hex_of_digits(rest, digits) =~= hex_of(rest) + digit_chars(digits));
            assert(hex_of(rest) + (seq![hex_digit(d)] + digit_chars(old_digits)) =~=
                hex_of(rest).push(hex_digit(d)) + digit_chars(old_digits));
        }
    }
}

/// Law: id derivation is deterministic.  Two plugins declaring the same name
/// always receive the same id, so a re-scan of an unchanged manifest replaces
/// the entry registered under that id instead of adding a second one.
pub proof fn lemma_generate_id_deterministic(a: Seq<char>, b: Seq<char>)
    requires
        a == b,
    ensures
        spec_generate_id(a) == spec_generate_id(b),
{
}

} // verus!
