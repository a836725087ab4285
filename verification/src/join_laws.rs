//! What holds of every join.

use crate::join::{fulfilled_texts, last_rejection, payload_text};
use crate::promise::Promise;
use vstd::prelude::*;

verus! {

/// True if the member at `i` is rejected and none after it is.
pub open spec fn is_last_rejected(members: Seq<Promise>, i: int) -> bool {
    &&& 0 <= i < members.len()
    &&& members[i].status is Rejected
    &&& forall|j: int| i < j < members.len() ==> !((#[trigger] members[j]).status is Rejected)
}

/// True if the two rows are equally long and agree, member by member, in
/// status and in text.
pub open spec fn same_statuses_and_texts(members: Seq<Promise>, others: Seq<Promise>) -> bool {
    &&& members.len() == others.len()
    &&& forall|i: int|
        #![trigger members[i]]
        #![trigger others[i]]
        0 <= i < members.len() ==> {
            &&& members[i].status == others[i].status
            &&& payload_text(members[i].value) == payload_text(others[i].value)
        }
}

/// The reason of a join is that of the rejected member that stands last, and
/// there is none exactly where no member is rejected.
pub proof fn law_last_rejection_wins(members: Seq<Promise>)
    ensures
        match last_rejection(members) {
            Some(reason) => exists|i: int|
                #![trigger members[i]]
                is_last_rejected(members, i) && reason == payload_text(members[i].value),
            None => forall|i: int|
                0 <= i < members.len() ==> !((#[trigger] members[i]).status is Rejected),
        },
    decreases members.len(),
{
    if members.len() > 0 {
        let n = members.len() - 1;
        let rest = members.drop_last();
        assert(members.last() == members[n]);
        if members[n].status is Rejected {
            assert(is_last_rejected(members, n));
        } else {
            law_last_rejection_wins(rest);
            match last_rejection(rest) {
                Some(reason) => {
                    let i = choose|i: int|
                        #![trigger rest[i]]
                        is_last_rejected(rest, i) && reason == payload_text(rest[i].value);
                    assert(rest[i] == members[i]);
                    assert forall|j: int| i < j < members.len() implies !((
                    #[trigger] members[j]).status is Rejected) by {
                        if j < n {
                            assert(rest[j] == members[j]);
                        }
                    }
                    assert(is_last_rejected(members, i));
                },
                None => {
                    assert forall|i: int| 0 <= i < members.len() implies !((
                    #[trigger] members[i]).status is Rejected) by {
                        if i < n {
                            assert(rest[i] == members[i]);
                        }
                    }
                },
            }
        }
    }
}

/// A join looks at the status and the text of each member and at nothing
/// else: two rows of members that agree in these give the same values and
/// the same reason.
pub proof fn law_join_reads_status_and_text(members: Seq<Promise>, others: Seq<Promise>)
    requires
        same_statuses_and_texts(members, others),
    ensures
        fulfilled_texts(members) == fulfilled_texts(others),
        last_rejection(members) == last_rejection(others),
    decreases members.len(),
{
    if members.len() > 0 {
        let n = members.len() - 1;
        assert(members.last() == members[n]);
        assert(others.last() == others[n]);
        assert(same_statuses_and_texts(members.drop_last(), others.drop_last())) by {
            assert forall|i: int| 0 <= i < n implies #[trigger] members.drop_last()[i]
                == members[i] && #[trigger] others.drop_last()[i] == others[i] by {}
        }
        law_join_reads_status_and_text(members.drop_last(), others.drop_last());
    }
}

/// An absent payload joins as the empty string: a member without a payload
/// can be exchanged for one that holds `""` in its place, and the join
/// stays what it was.
pub proof fn law_absent_payload_is_empty_text(members: Seq<Promise>, i: int, nothing: String)
    requires
        0 <= i < members.len(),
        members[i].value is None,
        nothing@.len() == 0,
    ensures
        ({
            let filled = Promise {
                value: Some(nothing),
                status: members[i].status,
                handlers: members[i].handlers,
            };
            &&& fulfilled_texts(members.update(i, filled)) == fulfilled_texts(members)
            &&& last_rejection(members.update(i, filled)) == last_rejection(members)
        }),
{
    let filled = Promise {
        value: Some(nothing),
        status: members[i].status,
        handlers: members[i].handlers,
    };
    assert(payload_text(filled.value) =~= payload_text(members[i].value));
    law_join_reads_status_and_text(members.update(i, filled), members);
}

} // verus!
