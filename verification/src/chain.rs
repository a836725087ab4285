//! Running a payload through a queue of handlers.

use crate::handler::Handler;
use vstd::prelude::*;

verus! {

/// True if `end` is a payload that `queue` can leave behind when `start` is
/// sent down the path `on_fulfillment`.
///
/// The entries are taken in the order of the queue. One of the other path is
/// passed over; one of this path receives what its predecessor on the path
/// gave, or `start` if it has none.
pub open spec fn chain_yields(
    queue: Seq<Handler>,
    on_fulfillment: bool,
    start: Option<String>,
    end: Option<String>,
) -> bool
    decreases queue.len(),
{
    if queue.len() == 0 {
        end == start
    } else if queue.last().resolve == on_fulfillment {
        exists|mid: Option<String>|
            chain_yields(queue.drop_last(), on_fulfillment, start, mid)
                && #[trigger] queue.last().handler.relates(mid, end)
    } else {
        chain_yields(queue.drop_last(), on_fulfillment, start, end)
    }
}

/// True if every entry of `queue` on the path `on_fulfillment` can be run on
/// every payload.
pub open spec fn chain_runs(queue: Seq<Handler>, on_fulfillment: bool) -> bool {
    forall|i: int|
        #![trigger queue[i]]
        0 <= i < queue.len() && queue[i].resolve == on_fulfillment ==> queue[i].total()
}

/// Sends `start` down one path of `queue` and returns what comes out.
pub fn run_chain(queue: Vec<Handler>, on_fulfillment: bool, start: Option<String>) -> (end: Option<
    String,
>)
    requires
        chain_runs(queue@, on_fulfillment),
    ensures
        chain_yields(queue@, on_fulfillment, start, end),
{
    let mut current = start;
    let mut i: usize = 0;
    while i < queue.len()
        invariant
            i <= queue.len(),
            chain_runs(queue@, on_fulfillment),
            chain_yields(queue@.take(i as int), on_fulfillment, start, current),
        decreases queue.len() - i,
    {
        let ghost before = current;
        if queue[i].resolve == on_fulfillment {
            current = queue[i].handler.apply(current);
        }
        proof {
            let done = queue@.take(i + 1);
            assert(done.drop_last() == queue@.take(i as int));
            assert(done.last() == queue@[i as int]);
            assert(chain_yields(done.drop_last(), on_fulfillment, start, before));
            if done.last().resolve == on_fulfillment {
                assert(done.last().handler.relates(before, current));
            }
        }
        i += 1;
    }
    proof {
        assert(queue@.take(i as int) == queue@);
    }
    current
}

} // verus!
