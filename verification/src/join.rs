//! Joining promises into one.

use crate::promise::Promise;
use crate::status::Status;
use vstd::prelude::*;

verus! {

/// The text that a payload stands for: its characters, or nothing where the
/// payload is absent.
pub open spec fn payload_text(payload: Option<String>) -> Seq<char> {
    match payload {
        Some(text) => text@,
        None => Seq::empty(),
    }
}

/// The texts of `parts` as they are.
pub open spec fn texts(parts: Seq<String>) -> Seq<Seq<char>> {
    parts.map_values(|part: String| part@)
}

/// `parts` in order, with `separator` between each two neighbours.
pub open spec fn joined(parts: Seq<Seq<char>>, separator: Seq<char>) -> Seq<char>
    decreases parts.len(),
{
    if parts.len() == 0 {
        Seq::empty()
    } else if parts.len() == 1 {
        parts[0]
    } else {
        joined(parts.drop_last(), separator) + separator + parts.last()
    }
}

/// The texts of the fulfilled members, in the order of `members`.
pub open spec fn fulfilled_texts(members: Seq<Promise>) -> Seq<Seq<char>>
    decreases members.len(),
{
    if members.len() == 0 {
        Seq::empty()
    } else if members.last().status is Fulfilled {
        fulfilled_texts(members.drop_last()).push(payload_text(members.last().value))
    } else {
        fulfilled_texts(members.drop_last())
    }
}

/// The reason of the last rejected member, if any member is rejected.
pub open spec fn last_rejection(members: Seq<Promise>) -> Option<Seq<char>>
    decreases members.len(),
{
    if members.len() == 0 {
        None
    } else if members.last().status is Rejected {
        Some(payload_text(members.last().value))
    } else {
        last_rejection(members.drop_last())
    }
}

/// Concatenates `parts`, with `separator` between each two neighbours.
pub fn join_texts(parts: &Vec<String>, separator: &str) -> (whole: String)
    ensures
        whole@ == joined(texts(parts@), separator@),
{
    let mut whole = String::new();
    let mut i: usize = 0;
    while i < parts.len()
        invariant
            i <= parts.len(),
            whole@ == joined(texts(parts@.take(i as int)), separator@),
        decreases parts.len() - i,
    {
        if i > 0 {
            whole.append(separator);
        }
        whole.append(parts[i].as_str());
        proof {
            let done = texts(parts@.take(i + 1));
            assert(done.drop_last() == texts(parts@.take(i as int)));
            assert(done.last() == parts@[i as int]@);
        }
        i += 1;
    }
    proof {
        assert(parts@.take(i as int) == parts@);
    }
    whole
}

impl Promise {
    /// Joins `promises` with `;` between the values.
    pub fn all(promises: Vec<Promise>) -> (joint: Promise)
        ensures
            joint.wf(),
            joint.handlers is None,
            match last_rejection(promises@) {
                Some(reason) => {
                    &&& joint.status is Rejected
                    &&& joint.value matches Some(text)
                    &&& text@ == reason
                },
                None => {
                    &&& joint.status is Fulfilled
                    &&& joint.value matches Some(text)
                    &&& text@ == joined(fulfilled_texts(promises@), seq![';'])
                },
            },
    {
        proof {
            reveal_strlit(";");
            assert(";"@ == seq![';']);
        }
        Promise::all_ex(promises, ";")
    }

    /// Joins `promises` into one settled promise.
    ///
    /// Every member is looked at, in order. If any is rejected, so is the
    /// result, with the reason of the last rejected member. Otherwise the
    /// result is fulfilled with the values of the fulfilled members, in
    /// order, `delimeter` between each two. An absent payload counts as the
    /// empty string; a member that is still pending adds nothing either way.
    pub fn all_ex(promises: Vec<Promise>, delimeter: &str) -> (joint: Promise)
        ensures
            joint.wf(),
            joint.handlers is None,
            match last_rejection(promises@) {
                Some(reason) => {
                    &&& joint.status is Rejected
                    &&& joint.value matches Some(text)
                    &&& text@ == reason
                },
                None => {
                    &&& joint.status is Fulfilled
                    &&& joint.value matches Some(text)
                    &&& text@ == joined(fulfilled_texts(promises@), delimeter@)
                },
            },
    {
        let mut rejected = false;
        let mut resolved_result: Vec<String> = Vec::new();
        let mut reject_reason = String::new();
        let mut i: usize = 0;
        while i < promises.len()
            invariant
                i <= promises.len(),
                texts(resolved_result@) == fulfilled_texts(promises@.take(i as int)),
                rejected <==> last_rejection(promises@.take(i as int)) is Some,
                rejected ==> last_rejection(promises@.take(i as int)) == Some(reject_reason@),
            decreases promises.len() - i,
        {
            let value = promises[i].value.clone().unwrap_or(String::new());
            proof {
                let seen = promises@.take(i + 1);
                assert(seen.drop_last() == promises@.take(i as int));
                assert(seen.last() == promises@[i as int]);
                assert(value@ == payload_text(promises@[i as int].value));
            }
            match promises[i].status {
                Status::Fulfilled => {
                    let ghost before = resolved_result@;
                    resolved_result.push(value);
                    assert(texts(resolved_result@) == texts(before).push(value@));
                },
                Status::Rejected => {
                    rejected = true;
                    reject_reason = value;
                },
                Status::Pending => {},
            }
            i += 1;
        }
        proof {
            assert(promises@.take(i as int) == promises@);
        }
        if rejected {
            Promise::reject(Some(reject_reason))
        } else {
            Promise::resolve(Some(join_texts(&resolved_result, delimeter)))
        }
    }
}

} // verus!
