//! Fingerprints of texts: a hash of their bytes, in hexadecimal.

use std::collections::hash_map::DefaultHasher;
use std::hash::Hasher;

use vstd::prelude::*;
use vstd::std_specs::hash::DefaultHasherAdditionalSpecFns;
use vstd::string::*;
use vstd::utf8::encode_utf8;

use crate::cli::texts;
use crate::text::{hex, hex_text};

verus! {

/// What is fed to the hasher for a text: its bytes, then a byte that no text
/// holds.
pub open spec fn text_writes(s: Seq<char>) -> Seq<Seq<u8>> {
    seq![encode_utf8(s), seq![0xffu8]]
}

/// What is fed to the hasher for a number of items: eight bytes, the low one
/// first.
pub open spec fn count_writes(n: nat) -> Seq<Seq<u8>> {
    seq![low_bytes(n, 8)]
}

/// The `width` low bytes of a number, the lowest first.
pub open spec fn low_bytes(n: nat, width: nat) -> Seq<u8>
    decreases width,
{
    if width == 0 {
        Seq::empty()
    } else {
        seq![(n % 256) as u8] + low_bytes(n / 256, (width - 1) as nat)
    }
}

/// What is fed to the hasher for several texts.
pub open spec fn texts_writes(all: Seq<Seq<char>>) -> Seq<Seq<u8>>
    decreases all.len(),
{
    if all.len() == 0 {
        Seq::empty()
    } else {
        texts_writes(all.drop_last()) + text_writes(all.last())
    }
}

/// The sixteen hexadecimal digits of the hash of what was written.
pub open spec fn digest(writes: Seq<Seq<u8>>) -> Seq<char> {
    hex(DefaultHasher::spec_finish(writes) as nat, 16)
}

/// Feeds a text to a hasher.
pub fn write_text(hasher: &mut DefaultHasher, s: &str)
    ensures
        final(hasher)@ == old(hasher)@ + text_writes(s@),
{
    let mut end: Vec<u8> = Vec::new();
    end.push(0xff);
    hasher.write(s.as_bytes());
    hasher.write(end.as_slice());
    assert(end@ =~= seq![0xffu8]);
    assert(hasher@ =~= old(hasher)@ + text_writes(s@));
}

fn low_bytes_of(n: u64, width: usize) -> (bytes: Vec<u8>)
    ensures
        bytes@ == low_bytes(n as nat, width as nat),
    decreases width,
{
    if width == 0 {
        Vec::new()
    } else {
        let mut rest = low_bytes_of(n / 256, width - 1);
        let mut bytes: Vec<u8> = Vec::new();
        bytes.push((n % 256) as u8);
        let ghost first = bytes@;
        bytes.append(&mut rest);
        assert(first =~= seq![(n % 256) as u8]);
        bytes
    }
}

/// Feeds a number of items to a hasher.
pub fn write_count(hasher: &mut DefaultHasher, n: usize)
    ensures
        final(hasher)@ == old(hasher)@ + count_writes(n as nat),
{
    let bytes = low_bytes_of(n as u64, 8);
    hasher.write(bytes.as_slice());
    assert(hasher@ =~= old(hasher)@ + count_writes(n as nat));
}

/// The sixteen hexadecimal digits of the hash of what was written.
pub fn digest_text(hasher: &DefaultHasher) -> (s: String)
    ensures
        s@ == digest(hasher@),
{
    hex_text(hasher.finish(), 16)
}

/// A fresh hasher.
pub fn new_hasher() -> (hasher: DefaultHasher)
    ensures
        hasher@ == Seq::<Seq<u8>>::empty(),
{
    DefaultHasher::new()
}

/// Feeds several texts to a hasher.
pub fn write_texts(hasher: &mut DefaultHasher, all: &[String])
    ensures
        final(hasher)@ == old(hasher)@ + texts_writes(texts(all@)),
{
    let ghost words = texts(all@);
    let mut i: usize = 0;
    assert(words.take(0) =~= Seq::empty());
    assert(hasher@ =~= old(hasher)@ + texts_writes(words.take(0)));
    while i < all.len()
        invariant
            i <= all@.len(),
            words == texts(all@),
            hasher@ == old(hasher)@ + texts_writes(words.take(i as int)),
        decreases all@.len() - i,
    {
        write_text(hasher, all[i].as_str());
        proof {
            assert(words.take(i + 1).drop_last() =~= words.take(i as int));
            assert(words.take(i + 1).last() == all@[i as int]@);
            assert(hasher@ =~= old(hasher)@ + texts_writes(words.take(i + 1)));
        }
        i = i + 1;
    }
    assert(words.take(words.len() as int) =~= words);
}

/// The fingerprint of several texts.
pub fn texts_fingerprint(all: &[String]) -> (hash: String)
    ensures
        hash@ == digest(texts_writes(texts(all@))),
{
    let mut hasher = new_hasher();
    write_texts(&mut hasher, all);
    assert(hasher@ =~= texts_writes(texts(all@)));
    digest_text(&hasher)
}

/// Texts that feed the hasher alike are alike, one by one.
pub proof fn law_hashed_texts_are_told_apart(a: Seq<Seq<char>>, b: Seq<Seq<char>>)
    requires
        texts_writes(a) == texts_writes(b),
    ensures
        a == b,
    decreases a.len(),
{
    lemma_texts_writes_len(a);
    lemma_texts_writes_len(b);
    if a.len() > 0 {
        let wa = texts_writes(a);
        let wb = texts_writes(b);
        let n = wa.len() - 2;
        assert(wa.take(n) =~= texts_writes(a.drop_last()));
        assert(wb.take(n) =~= texts_writes(b.drop_last()));
        law_hashed_texts_are_told_apart(a.drop_last(), b.drop_last());
        assert(wa[n] == encode_utf8(a.last()));
        assert(wb[n] == encode_utf8(b.last()));
        lemma_encoding_tells_apart(a.last(), b.last());
        assert(a =~= a.drop_last().push(a.last()));
        assert(b =~= b.drop_last().push(b.last()));
    } else {
        assert(a =~= b);
    }
}

proof fn lemma_texts_writes_len(a: Seq<Seq<char>>)
    ensures
        texts_writes(a).len() == 2 * a.len(),
    decreases a.len(),
{
    if a.len() > 0 {
        lemma_texts_writes_len(a.drop_last());
    }
}

/// Texts with the same bytes are the same.
pub proof fn lemma_encoding_tells_apart(a: Seq<char>, b: Seq<char>)
    requires
        encode_utf8(a) == encode_utf8(b),
    ensures
        a == b,
{
    vstd::utf8::encode_utf8_decode_utf8(a);
    vstd::utf8::encode_utf8_decode_utf8(b);
}

/// Numbers of items that feed the hasher alike are alike.
pub proof fn lemma_counts_are_told_apart(m: nat, n: nat)
    requires
        m <= u64::MAX,
        n <= u64::MAX,
        count_writes(m) == count_writes(n),
    ensures
        m == n,
{
    assert(count_writes(m)[0] == count_writes(n)[0]);
    lemma_low_bytes(m, n, 8);
    lemma_power_of_256();
}

spec fn power_of_256(width: nat) -> nat
    decreases width,
{
    if width == 0 {
        1
    } else {
        256 * power_of_256((width - 1) as nat)
    }
}

proof fn lemma_power_of_256()
    ensures
        power_of_256(8) == 0x1_0000_0000_0000_0000,
{
    reveal_with_fuel(power_of_256, 9);
}

proof fn lemma_low_bytes(m: nat, n: nat, width: nat)
    requires
        low_bytes(m, width) == low_bytes(n, width),
    ensures
        m < power_of_256(width) && n < power_of_256(width) ==> m == n,
    decreases width,
{
    if width > 0 {
        let a = low_bytes(m, width);
        let b = low_bytes(n, width);
        assert(a[0] == b[0]);
        assert(m % 256 == n % 256);
        assert(a.subrange(1, a.len() as int) =~= low_bytes(m / 256, (width - 1) as nat));
        assert(b.subrange(1, b.len() as int) =~= low_bytes(n / 256, (width - 1) as nat));
        lemma_low_bytes(m / 256, n / 256, (width - 1) as nat);
    }
}

/// Hashes that differ are shown differently, by all their sixteen digits.
pub proof fn law_digests_of_different_hashes_differ(a: Seq<Seq<u8>>, b: Seq<Seq<u8>>)
    ensures
        digest(a).len() == 16,
        digest(a) == digest(b) <==> DefaultHasher::spec_finish(a) == DefaultHasher::spec_finish(b),
{
    crate::text::lemma_hex_len(DefaultHasher::spec_finish(a) as nat, 16);
    if digest(a) == digest(b) {
        crate::text::law_hexadecimal_tells_numbers_apart(
            DefaultHasher::spec_finish(a) as nat,
            DefaultHasher::spec_finish(b) as nat,
        );
    }
}

/// The fingerprints of two lists of texts are the same exactly where the lists are,
/// unless the hash itself collides.
pub proof fn law_fingerprints_of_texts(a: &[String], x: String, b: &[String], y: String)
    requires
        call_ensures(texts_fingerprint, (a,), x),
        call_ensures(texts_fingerprint, (b,), y),
        texts_writes(texts(a@)) != texts_writes(texts(b@)) ==> DefaultHasher::spec_finish(
            texts_writes(texts(a@)),
        ) != DefaultHasher::spec_finish(texts_writes(texts(b@))),
    ensures
        x@ == y@ <==> texts(a@) == texts(b@),
        x@.len() == 16,
{
    law_digests_of_different_hashes_differ(texts_writes(texts(a@)), texts_writes(texts(b@)));
    if texts_writes(texts(a@)) == texts_writes(texts(b@)) {
        law_hashed_texts_are_told_apart(texts(a@), texts(b@));
    }
}

} // verus!
