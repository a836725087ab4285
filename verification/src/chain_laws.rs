//! What holds of every queue of handlers, whatever the transforms do.

use crate::chain::chain_yields;
use crate::handler::Handler;
use vstd::prelude::*;

verus! {

/// The entries of `queue` that belong to the path `on_fulfillment`, in order.
pub open spec fn on_path(queue: Seq<Handler>, on_fulfillment: bool) -> Seq<Handler> {
    queue.filter(|entry: Handler| entry.resolve == on_fulfillment)
}

/// True if no entry of `queue` belongs to the path `on_fulfillment`.
pub open spec fn off_path(queue: Seq<Handler>, on_fulfillment: bool) -> bool {
    forall|i: int| 0 <= i < queue.len() ==> (#[trigger] queue[i]).resolve != on_fulfillment
}

/// True if `second` can make `end` of a payload that `first` can make of
/// `start`.
pub open spec fn yields_in_two(
    first: Seq<Handler>,
    second: Seq<Handler>,
    on_fulfillment: bool,
    start: Option<String>,
    end: Option<String>,
) -> bool {
    exists|mid: Option<String>|
        #![trigger chain_yields(first, on_fulfillment, start, mid)]
        chain_yields(first, on_fulfillment, start, mid) && chain_yields(
            second,
            on_fulfillment,
            mid,
            end,
        )
}

/// True if `end` can come about in four steps: `before` makes a payload of
/// `start`, `first` receives it and returns another, `second` receives that
/// one and returns a third, and `after` makes `end` of the third.
pub open spec fn yields_through(
    before: Seq<Handler>,
    first: Handler,
    second: Handler,
    after: Seq<Handler>,
    on_fulfillment: bool,
    start: Option<String>,
    end: Option<String>,
) -> bool {
    exists|received: Option<String>, passed: Option<String>, returned: Option<String>|
        #![trigger first.handler.relates(received, passed), second.handler.relates(passed, returned)]
        {
            &&& chain_yields(before, on_fulfillment, start, received)
            &&& first.handler.relates(received, passed)
            &&& second.handler.relates(passed, returned)
            &&& chain_yields(after, on_fulfillment, returned, end)
        }
}

proof fn lemma_chain_split(
    first: Seq<Handler>,
    second: Seq<Handler>,
    on_fulfillment: bool,
    start: Option<String>,
    end: Option<String>,
) -> (mid: Option<String>)
    requires
        chain_yields(first + second, on_fulfillment, start, end),
    ensures
        chain_yields(first, on_fulfillment, start, mid),
        chain_yields(second, on_fulfillment, mid, end),
    decreases second.len(),
{
    let whole = first + second;
    if second.len() == 0 {
        assert(whole == first);
        end
    } else {
        assert(whole.drop_last() == first + second.drop_last());
        assert(whole.last() == second.last());
        if second.last().resolve == on_fulfillment {
            let seen = choose|seen: Option<String>|
                chain_yields(whole.drop_last(), on_fulfillment, start, seen)
                    && #[trigger] whole.last().handler.relates(seen, end);
            lemma_chain_split(first, second.drop_last(), on_fulfillment, start, seen)
        } else {
            lemma_chain_split(first, second.drop_last(), on_fulfillment, start, end)
        }
    }
}

proof fn lemma_chain_glue(
    first: Seq<Handler>,
    second: Seq<Handler>,
    on_fulfillment: bool,
    start: Option<String>,
    mid: Option<String>,
    end: Option<String>,
)
    requires
        chain_yields(first, on_fulfillment, start, mid),
        chain_yields(second, on_fulfillment, mid, end),
    ensures
        chain_yields(first + second, on_fulfillment, start, end),
    decreases second.len(),
{
    let whole = first + second;
    if second.len() == 0 {
        assert(whole == first);
    } else {
        assert(whole.drop_last() == first + second.drop_last());
        assert(whole.last() == second.last());
        if second.last().resolve == on_fulfillment {
            let seen = choose|seen: Option<String>|
                chain_yields(second.drop_last(), on_fulfillment, mid, seen)
                    && #[trigger] second.last().handler.relates(seen, end);
            lemma_chain_glue(first, second.drop_last(), on_fulfillment, start, mid, seen);
            assert(whole.last().handler.relates(seen, end));
        } else {
            lemma_chain_glue(first, second.drop_last(), on_fulfillment, start, mid, end);
        }
    }
}

/// A queue in two parts runs as the first part followed by the second: what
/// the first part leaves behind is what the second part starts from.
///
/// So handlers that join a queue before the settlement give what they would
/// give if they were run afterwards on the payload that the queue had left.
pub proof fn law_chain_composes(
    first: Seq<Handler>,
    second: Seq<Handler>,
    on_fulfillment: bool,
    start: Option<String>,
    end: Option<String>,
)
    ensures
        chain_yields(first + second, on_fulfillment, start, end) <==> yields_in_two(
            first,
            second,
            on_fulfillment,
            start,
            end,
        ),
{
    if chain_yields(first + second, on_fulfillment, start, end) {
        let mid = lemma_chain_split(first, second, on_fulfillment, start, end);
        assert(chain_yields(first, on_fulfillment, start, mid));
    }
    if yields_in_two(first, second, on_fulfillment, start, end) {
        let mid = choose|mid: Option<String>|
            #![trigger chain_yields(first, on_fulfillment, start, mid)]
            chain_yields(first, on_fulfillment, start, mid) && chain_yields(
                second,
                on_fulfillment,
                mid,
                end,
            );
        lemma_chain_glue(first, second, on_fulfillment, start, mid, end);
    }
}

/// A queue of one entry of the path gives what that entry's transform gives.
pub proof fn law_single_entry(
    entry: Handler,
    on_fulfillment: bool,
    start: Option<String>,
    end: Option<String>,
)
    requires
        entry.resolve == on_fulfillment,
    ensures
        chain_yields(seq![entry], on_fulfillment, start, end) <==> entry.handler.relates(
            start,
            end,
        ),
{
    let queue = seq![entry];
    assert(queue.drop_last().len() == 0);
    assert(queue.last() == entry);
    assert(chain_yields(queue.drop_last(), on_fulfillment, start, start));
    if chain_yields(queue, on_fulfillment, start, end) {
        let seen = choose|seen: Option<String>|
            chain_yields(queue.drop_last(), on_fulfillment, start, seen)
                && #[trigger] queue.last().handler.relates(seen, end);
        assert(seen == start);
    }
}

/// Entries of the other path change nothing: a queue that holds none of the
/// path hands the payload on as it came.
pub proof fn law_other_path_is_passed_over(
    queue: Seq<Handler>,
    on_fulfillment: bool,
    start: Option<String>,
    end: Option<String>,
)
    requires
        off_path(queue, on_fulfillment),
    ensures
        chain_yields(queue, on_fulfillment, start, end) <==> end == start,
    decreases queue.len(),
{
    if queue.len() > 0 {
        let rest = queue.drop_last();
        assert(queue.last() == queue[queue.len() - 1]);
        assert forall|i: int| 0 <= i < rest.len() implies (#[trigger] rest[i]).resolve
            != on_fulfillment by {
            assert(rest[i] == queue[i]);
        }
        law_other_path_is_passed_over(rest, on_fulfillment, start, end);
    }
}

/// A settlement runs the handlers of its own path and no others: the queue
/// gives what it would give with every entry of the other path taken out.
pub proof fn law_paths_are_isolated(
    queue: Seq<Handler>,
    on_fulfillment: bool,
    start: Option<String>,
    end: Option<String>,
)
    ensures
        chain_yields(queue, on_fulfillment, start, end) <==> chain_yields(
            on_path(queue, on_fulfillment),
            on_fulfillment,
            start,
            end,
        ),
    decreases queue.len(),
{
    reveal(Seq::filter);
    if queue.len() > 0 {
        let rest = queue.drop_last();
        let kept = on_path(queue, on_fulfillment);
        let kept_rest = on_path(rest, on_fulfillment);
        if queue.last().resolve == on_fulfillment {
            assert(kept.drop_last() == kept_rest);
            assert(kept.last() == queue.last());
            assert forall|seen: Option<String>|
                chain_yields(rest, on_fulfillment, start, seen) == chain_yields(
                    kept_rest,
                    on_fulfillment,
                    start,
                    seen,
                ) by {
                law_paths_are_isolated(rest, on_fulfillment, start, seen);
            }
            if chain_yields(queue, on_fulfillment, start, end) {
                let seen = choose|seen: Option<String>|
                    chain_yields(rest, on_fulfillment, start, seen)
                        && #[trigger] queue.last().handler.relates(seen, end);
                assert(kept.last().handler.relates(seen, end));
            }
            if chain_yields(kept, on_fulfillment, start, end) {
                let seen = choose|seen: Option<String>|
                    chain_yields(kept_rest, on_fulfillment, start, seen)
                        && #[trigger] kept.last().handler.relates(seen, end);
                assert(queue.last().handler.relates(seen, end));
            }
        } else {
            law_paths_are_isolated(rest, on_fulfillment, start, end);
        }
    }
}

/// Handlers run in the order of their registration, and each sees what its
/// predecessor on the path returned. Where `first` and `second` are
/// neighbours on the path, with nothing but entries of the other path
/// `between` them, the payload that `second` receives is the one that
/// `first` returned.
pub proof fn law_order_preserved(
    before: Seq<Handler>,
    first: Handler,
    between: Seq<Handler>,
    second: Handler,
    after: Seq<Handler>,
    on_fulfillment: bool,
    start: Option<String>,
    end: Option<String>,
)
    requires
        first.resolve == on_fulfillment,
        second.resolve == on_fulfillment,
        off_path(between, on_fulfillment),
    ensures
        chain_yields(
            before + seq![first] + between + seq![second] + after,
            on_fulfillment,
            start,
            end,
        ) <==> yields_through(before, first, second, after, on_fulfillment, start, end),
{
    let upto_first = before + seq![first];
    let upto_between = upto_first + between;
    let upto_second = upto_between + seq![second];
    let whole = upto_second + after;
    if chain_yields(whole, on_fulfillment, start, end) {
        let returned = lemma_chain_split(upto_second, after, on_fulfillment, start, end);
        let held = lemma_chain_split(upto_between, seq![second], on_fulfillment, start, returned);
        law_single_entry(second, on_fulfillment, held, returned);
        let passed = lemma_chain_split(upto_first, between, on_fulfillment, start, held);
        law_other_path_is_passed_over(between, on_fulfillment, passed, held);
        let received = lemma_chain_split(before, seq![first], on_fulfillment, start, passed);
        law_single_entry(first, on_fulfillment, received, passed);
        assert(first.handler.relates(received, passed) && second.handler.relates(passed, returned));
    }
    if yields_through(before, first, second, after, on_fulfillment, start, end) {
        let (received, passed, returned) = choose|
            received: Option<String>,
            passed: Option<String>,
            returned: Option<String>,
        |
            #![trigger first.handler.relates(received, passed), second.handler.relates(passed, returned)]
            {
                &&& chain_yields(before, on_fulfillment, start, received)
                &&& first.handler.relates(received, passed)
                &&& second.handler.relates(passed, returned)
                &&& chain_yields(after, on_fulfillment, returned, end)
            };
        law_single_entry(first, on_fulfillment, received, passed);
        lemma_chain_glue(before, seq![first], on_fulfillment, start, received, passed);
        law_other_path_is_passed_over(between, on_fulfillment, passed, passed);
        lemma_chain_glue(upto_first, between, on_fulfillment, start, passed, passed);
        law_single_entry(second, on_fulfillment, passed, returned);
        lemma_chain_glue(upto_between, seq![second], on_fulfillment, start, passed, returned);
        lemma_chain_glue(upto_second, after, on_fulfillment, start, returned, end);
    }
}

/// It makes no difference whether a pair of handlers is registered before
/// the settlement or after it. Waiting alone in the queue, the pair gives at
/// the settlement exactly what the handler of the path gives when it is
/// applied at once to a promise that was settled with the same payload.
pub proof fn law_immediate_apply_equivalence<F1, F2>(
    queue: Seq<Handler>,
    on_fulfilled: F1,
    on_rejected: F2,
    start: Option<String>,
    end: Option<String>,
) where
    F1: Fn(Option<String>) -> Option<String>,
    F2: Fn(Option<String>) -> Option<String>,

    requires
        queue.len() == 2,
        queue[0].wraps(true, on_fulfilled),
        queue[1].wraps(false, on_rejected),
    ensures
        chain_yields(queue, true, start, end) <==> call_ensures(on_fulfilled, (start,), end),
        chain_yields(queue, false, start, end) <==> call_ensures(on_rejected, (start,), end),
{
    let head = seq![queue[0]];
    assert(queue.drop_last() == head);
    assert(queue.last() == queue[1]);
    law_single_entry(queue[0], true, start, end);
    assert forall|mid: Option<String>|
        chain_yields(head, false, start, mid) == (mid == start) by {
        law_other_path_is_passed_over(head, false, start, mid);
    }
    if chain_yields(queue, false, start, end) {
        let seen = choose|seen: Option<String>|
            chain_yields(head, false, start, seen) && #[trigger] queue[1].handler.relates(
                seen,
                end,
            );
        assert(seen == start);
    }
    if call_ensures(on_rejected, (start,), end) {
        assert(chain_yields(head, false, start, start));
        assert(queue[1].handler.relates(start, end));
    }
}

/// A handler registered by `catch` is idle on the path of fulfillments and
/// runs on the path of rejections, when it waits in the queue as when it is
/// applied at once.
pub proof fn law_catch_only_on_rejection<F>(
    queue: Seq<Handler>,
    on_rejected: F,
    start: Option<String>,
    end: Option<String>,
) where F: Fn(Option<String>) -> Option<String>
    requires
        queue.len() == 1,
        queue[0].wraps(false, on_rejected),
    ensures
        chain_yields(queue, true, start, end) <==> end == start,
        chain_yields(queue, false, start, end) <==> call_ensures(on_rejected, (start,), end),
{
    assert(queue == seq![queue[0]]);
    law_other_path_is_passed_over(queue, true, start, end);
    law_single_entry(queue[0], false, start, end);
}

} // verus!
