//! The order in which a parse error lists the tokens that the parser
//! expected.
//!
//! The parser gathers these tokens in a hash set and lists them as the set
//! happens to yield them, so that two parses of one text may list the same
//! tokens in different orders. The pipeline puts them in one order, that of
//! their UTF-8 bytes, and so reports one text always in the same way.

use vstd::prelude::*;
use vstd::relations::{sorted_by, total_ordering};
use vstd::seq_lib::{lemma_sorted_unique, to_multiset_build, to_multiset_insert};
use vstd::utf8::{encode_utf8, encode_utf8_decode_utf8};
use vstd::multiset::Multiset;

verus! {

/// Whether what `a` holds from index `from` on comes before what `b` holds
/// from there on, or is equal to it, in the order of a dictionary.
pub open spec fn bytes_leq_from(a: Seq<u8>, b: Seq<u8>, from: int) -> bool
    decreases a.len() - from,
{
    if from < 0 || from >= a.len() {
        true
    } else if from >= b.len() {
        false
    } else if a[from] != b[from] {
        a[from] < b[from]
    } else {
        bytes_leq_from(a, b, from + 1)
    }
}

/// Whether the text `a` comes before the text `b`, or is equal to it, in the
/// order of their UTF-8 bytes.
pub open spec fn token_leq(a: Seq<char>, b: Seq<char>) -> bool {
    bytes_leq_from(encode_utf8(a), encode_utf8(b), 0)
}

/// [`token_leq`] as a relation.
pub open spec fn token_order() -> spec_fn(Seq<char>, Seq<char>) -> bool {
    |a: Seq<char>, b: Seq<char>| token_leq(a, b)
}

/// The texts of a list of strings.
pub open spec fn texts(strings: Seq<String>) -> Seq<Seq<char>> {
    strings.map_values(|s: String| s@)
}

/// Whether `tokens` is one bag of texts put in order.
pub open spec fn is_ordering_of(tokens: Seq<Seq<char>>, bag: Multiset<Seq<char>>) -> bool {
    tokens.to_multiset() == bag && sorted_by(tokens, token_order())
}

/// The texts of a bag, in order.
pub open spec fn in_order(bag: Multiset<Seq<char>>) -> Seq<Seq<char>> {
    choose|tokens: Seq<Seq<char>>| is_ordering_of(tokens, bag)
}

proof fn lemma_bytes_reflexive(a: Seq<u8>, from: int)
    ensures
        bytes_leq_from(a, a, from),
    decreases a.len() - from,
{
    if 0 <= from < a.len() {
        lemma_bytes_reflexive(a, from + 1);
    }
}

proof fn lemma_bytes_connected(a: Seq<u8>, b: Seq<u8>, from: int)
    ensures
        bytes_leq_from(a, b, from) || bytes_leq_from(b, a, from),
    decreases a.len() - from,
{
    if 0 <= from < a.len() && from < b.len() && a[from] == b[from] {
        lemma_bytes_connected(a, b, from + 1);
    }
}

proof fn lemma_bytes_transitive(a: Seq<u8>, b: Seq<u8>, c: Seq<u8>, from: int)
    requires
        bytes_leq_from(a, b, from),
        bytes_leq_from(b, c, from),
    ensures
        bytes_leq_from(a, c, from),
    decreases a.len() - from,
{
    if 0 <= from < a.len() && a[from] == b[from] && b[from] == c[from] {
        lemma_bytes_transitive(a, b, c, from + 1);
    }
}

proof fn lemma_bytes_antisymmetric(a: Seq<u8>, b: Seq<u8>, from: int)
    requires
        0 <= from,
        bytes_leq_from(a, b, from),
        bytes_leq_from(b, a, from),
    ensures
        a.len() == b.len() || (a.len() <= from && b.len() <= from),
        forall|i: int| from <= i < a.len() && i < b.len() ==> a[i] == b[i],
    decreases a.len() - from,
{
    if from < a.len() && from < b.len() {
        lemma_bytes_antisymmetric(a, b, from + 1);
    }
}

/// The order of the tokens is total: any two texts compare, and two texts
/// that come before each other are one text.
pub proof fn lemma_token_order_is_total()
    ensures
        total_ordering(token_order()),
{
    let order = token_order();
    assert forall|a: Seq<char>| #[trigger] order(a, a) by {
        lemma_bytes_reflexive(encode_utf8(a), 0);
    }
    assert forall|a: Seq<char>, b: Seq<char>| #[trigger] order(a, b) || #[trigger] order(b, a) by {
        lemma_bytes_connected(encode_utf8(a), encode_utf8(b), 0);
    }
    assert forall|a: Seq<char>, b: Seq<char>, c: Seq<char>| #[trigger]
        order(a, b) && #[trigger] order(b, c) implies order(a, c) by {
        lemma_bytes_transitive(encode_utf8(a), encode_utf8(b), encode_utf8(c), 0);
    }
    assert forall|a: Seq<char>, b: Seq<char>| #[trigger]
        order(a, b) && #[trigger] order(b, a) implies a == b by {
        lemma_bytes_antisymmetric(encode_utf8(a), encode_utf8(b), 0);
        assert(encode_utf8(a) =~= encode_utf8(b));
        encode_utf8_decode_utf8(a);
        encode_utf8_decode_utf8(b);
    }
}

/// A bag of texts can be put in order in one way only.
pub proof fn lemma_order_is_unique(tokens: Seq<Seq<char>>, bag: Multiset<Seq<char>>)
    requires
        is_ordering_of(tokens, bag),
    ensures
        tokens == in_order(bag),
{
    let chosen = in_order(bag);
    assert(is_ordering_of(chosen, bag));
    lemma_token_order_is_total();
    lemma_sorted_unique(tokens, chosen, token_order());
}

/// Decides [`token_leq`].
pub fn precedes(a: &str, b: &str) -> (leq: bool)
    ensures
        leq == token_leq(a@, b@),
{
    let left = a.as_bytes();
    let right = b.as_bytes();
    let mut i: usize = 0;
    while i < left.len() && i < right.len()
        invariant
            left@ == encode_utf8(a@),
            right@ == encode_utf8(b@),
            i <= left.len(),
            i <= right.len(),
            token_leq(a@, b@) == bytes_leq_from(left@, right@, i as int),
        decreases left.len() - i,
    {
        if left[i] != right[i] {
            return left[i] < right[i];
        }
        i += 1;
    }
    i >= left.len()
}

/// Puts `tokens` in order.
pub fn sort_tokens(tokens: Vec<String>) -> (sorted: Vec<String>)
    ensures
        texts(sorted@) == in_order(texts(tokens@).to_multiset()),
{
    let ghost given = texts(tokens@);
    let ghost all = tokens@;
    let mut sorted: Vec<String> = Vec::new();
    proof {
        lemma_token_order_is_total();
        assert(given.take(0) =~= Seq::empty());
        assert(texts(sorted@) =~= Seq::empty());
    }
    for token in it: tokens
        invariant
            it.seq() == all,
            given == texts(all),
            total_ordering(token_order()),
            sorted_by(texts(sorted@), token_order()),
            texts(sorted@).to_multiset() == given.take(it.index() as int).to_multiset(),
    {
        let ghost before = texts(sorted@);
        let mut at: usize = 0;
        while at < sorted.len() && precedes(sorted[at].as_str(), token.as_str())
            invariant
                at <= sorted.len(),
                before == texts(sorted@),
                forall|j: int| 0 <= j < at ==> token_leq(#[trigger] before[j], token@),
            decreases sorted.len() - at,
        {
            at += 1;
        }
        sorted.insert(at, token);
        proof {
            let order = token_order();
            let after = texts(sorted@);
            assert(after =~= before.insert(at as int, token@));
            assert forall|i: int, j: int| 0 <= i < j < after.len() implies #[trigger] order(
                after[i],
                after[j],
            ) by {
                if j < at {
                    assert(order(before[i], before[j]));
                } else if j == at {
                    assert(token_leq(before[i], token@));
                } else if i == at {
                    // `token` stands before an entry that does not precede it
                    assert(!token_leq(before[at as int], token@));
                    assert(order(token@, before[at as int]) || order(before[at as int], token@));
                    if j - 1 > at {
                        assert(order(before[at as int], before[j - 1]));
                    }
                    assert(order(token@, before[j - 1]));
                } else if i < at {
                    assert(order(before[i], before[j - 1]));
                } else {
                    assert(order(before[i - 1], before[j - 1]));
                }
            }
            let done = given.take(it.index() as int);
            assert(given[it.index() as int] == token@);
            assert(given.take(it.index() + 1) =~= done.push(token@));
            to_multiset_insert(before, at as int, token@);
            to_multiset_build(done, token@);
        }
    }
    proof {
        assert(given.take(given.len() as int) =~= given);
        lemma_order_is_unique(texts(sorted@), given.to_multiset());
    }
    sorted
}

} // verus!
