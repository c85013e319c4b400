use vstd::prelude::*;

use crate::store::Store;

verus! {

/// A row recording that a user subscribed to one scheduled test.
#[derive(Clone, Copy, Debug)]
pub struct TestSubscription {
    pub id: i32,
    pub uuid: u128,
    pub user_id: i32,
    pub test_paper_id: i32,
    pub test_schedule_id: i32,
}

/// Matches the subscription rows of one user.
pub open spec fn by_sub_user(user_id: i32) -> spec_fn(TestSubscription) -> bool {
    |s: TestSubscription| s.user_id == user_id
}

impl TestSubscription {
    /// Gets all subscriptions of one user, in insertion order.
    pub fn find_all_for_user(user_id: i32, store: &Store) -> (r: Vec<TestSubscription>)
        ensures
            r@ == store.test_subscriptions@.filter(by_sub_user(user_id)),
    {
        let n = store.test_subscriptions.len();
        let mut out: Vec<TestSubscription> = Vec::new();
        let mut i: usize = 0;
        while i < n
            invariant
                n == store.test_subscriptions@.len(),
                0 <= i <= n,
                out@ == store.test_subscriptions@.take(i as int).filter(by_sub_user(user_id)),
            decreases n - i,
        {
            proof {
                reveal(Seq::filter);
                assert(store.test_subscriptions@.take(i + 1).drop_last()
                    =~= store.test_subscriptions@.take(i as int));
                assert(store.test_subscriptions@.take(i + 1).last()
                    == store.test_subscriptions@[i as int]);
            }
            if store.test_subscriptions[i].user_id == user_id {
                out.push(store.test_subscriptions[i]);
            }
            i = i + 1;
        }
        proof {
            assert(store.test_subscriptions@.take(n as int) =~= store.test_subscriptions@);
        }
        out
    }
}

} // verus!
