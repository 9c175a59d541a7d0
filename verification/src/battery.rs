//! What the rule battery offers besides findings: the examples of its
//! rules, listed rule by rule in the order in which the rules are registered.

use vstd::prelude::*;

verus! {

/// The lists of `per_rule`, one after the other.
pub open spec fn in_rule_order<E>(per_rule: Seq<Vec<E>>) -> Seq<E> {
    per_rule.map_values(|list: Vec<E>| list@).flatten()
}

/// The examples of all rules as one list: those of the first rule first,
/// each rule's examples in the order in which the rule gives them. A battery
/// without rules has no examples.
pub fn examples<E>(per_rule: Vec<Vec<E>>) -> (all: Vec<E>)
    ensures
        all@ == in_rule_order(per_rule@),
{
    let mut all: Vec<E> = Vec::new();
    let ghost lists = per_rule@;
    proof {
        assert(lists.take(0) =~= Seq::empty());
    }
    for list in it: per_rule
        invariant
            it.seq() == lists,
            all@ == in_rule_order(lists.take(it.index() as int)),
    {
        let mut list = list;
        proof {
            let done = lists.take(it.index() as int);
            let views = done.map_values(|list: Vec<E>| list@);
            assert(lists.take(it.index() + 1) =~= done.push(list));
            assert(done.push(list).map_values(|list: Vec<E>| list@) =~= views.push(list@));
            views.lemma_flatten_push(list@);
        }
        all.append(&mut list);
    }
    proof {
        assert(lists.take(lists.len() as int) =~= lists);
    }
    all
}

} // verus!
