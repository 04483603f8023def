//! The notification store: notifications raised by panels, in arrival order.

use vstd::prelude::*;

verus! {

/// A notification raised by a panel of a workspace.
#[derive(Clone, Debug)]
pub struct Notification {
    pub workspace_id: u128,
    pub panel_id: u128,
    pub title: String,
    pub read: bool,
}

/// `n` with its read flag set when it belongs to the given workspace.
pub open spec fn read_if_in(n: Notification, workspace_id: u128) -> Notification {
    if n.workspace_id == workspace_id {
        Notification { read: true, ..n }
    } else {
        n
    }
}

/// All notifications, oldest first.
pub struct NotificationStore {
    pub notifications: Vec<Notification>,
}

impl NotificationStore {
    /// An empty store.
    pub fn new() -> (s: NotificationStore)
        ensures
            s.notifications@.len() == 0,
    {
        NotificationStore { notifications: Vec::new() }
    }

    /// Marks every notification of the given workspace as read.
    pub fn mark_workspace_read(&mut self, workspace_id: u128)
        ensures
            final(self).notifications@ == old(self).notifications@.map_values(
                |n: Notification| read_if_in(n, workspace_id),
            ),
    {
        let n = self.notifications.len();
        let mut i: usize = 0;
        while i < n
            invariant
                n == self.notifications@.len(),
                n == old(self).notifications@.len(),
                i <= n,
                forall|j: int|
                    0 <= j < i ==> #[trigger] self.notifications@[j] == read_if_in(
                        old(self).notifications@[j],
                        workspace_id,
                    ),
                forall|j: int|
                    i <= j < n ==> #[trigger] self.notifications@[j] == old(self).notifications@[j],
            decreases n - i,
        {
            if self.notifications[i].workspace_id == workspace_id {
                self.notifications[i].read = true;
            }
            i += 1;
        }
        assert(self.notifications@ =~= old(self).notifications@.map_values(
            |n: Notification| read_if_in(n, workspace_id),
        ));
    }
}

} // verus!
