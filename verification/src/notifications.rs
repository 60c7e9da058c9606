//! The notification stack: a few short messages, newest first.

use vstd::prelude::*;

verus! {

/// How many notifications are shown at once.
pub const MAX_VISIBLE_NOTIFICATIONS: usize = 4;

/// How long an informational or success notification stays, in milliseconds.
pub const DEFAULT_NOTIFICATION_MILLIS: u64 = 3400;

/// How long an error notification stays, in milliseconds.
pub const ERROR_NOTIFICATION_MILLIS: u64 = 5600;

/// A notification's kind.
#[derive(Clone, Copy, Debug, PartialEq, Eq, Structural)]
pub enum NotificationLevel {
    Info,
    Success,
    Error,
}

/// A shown notification.
#[derive(Debug, PartialEq, Eq)]
pub struct NotificationEntry {
    pub id: u64,
    pub message: String,
    pub level: NotificationLevel,
}

impl Clone for NotificationEntry {
    fn clone(&self) -> (r: Self)
        ensures
            r == *self,
    {
        NotificationEntry { id: self.id, message: self.message.clone(), level: self.level }
    }
}

/// The identifier after `id`, wrapping around.
pub open spec fn next_notification_id(id: u64) -> u64 {
    if id == u64::MAX { 0 } else { (id + 1) as u64 }
}

/// The entries after `entry` is shown: it comes first, the oldest past the
/// limit go.
pub open spec fn shown_entries(entries: Seq<NotificationEntry>, entry: NotificationEntry) -> Seq<NotificationEntry> {
    let all = seq![entry] + entries;
    if all.len() <= MAX_VISIBLE_NOTIFICATIONS { all } else { all.take(MAX_VISIBLE_NOTIFICATIONS as int) }
}

/// Entries other than the one of the id.
pub open spec fn not_id(id: u64) -> spec_fn(NotificationEntry) -> bool {
    |e: NotificationEntry| e.id != id
}

/// How long a notification of the level stays, in milliseconds.
pub fn notification_duration_millis(level: NotificationLevel) -> (r: u64)
    ensures
        r == (if level == NotificationLevel::Error { ERROR_NOTIFICATION_MILLIS } else { DEFAULT_NOTIFICATION_MILLIS }),
{
    match level {
        NotificationLevel::Info | NotificationLevel::Success => DEFAULT_NOTIFICATION_MILLIS,
        NotificationLevel::Error => ERROR_NOTIFICATION_MILLIS,
    }
}

/// The notifications on screen and the last identifier given out.
pub struct NotificationCenter {
    next_id: u64,
    entries: Vec<NotificationEntry>,
}

impl NotificationCenter {
    #[verifier::type_invariant]
    spec fn within_limit(self) -> bool {
        self.entries@.len() <= MAX_VISIBLE_NOTIFICATIONS
    }

    /// The last identifier given out.
    pub closed spec fn last_id(self) -> u64 {
        self.next_id
    }

    /// The notifications on screen, newest first.
    pub closed spec fn entries(self) -> Seq<NotificationEntry> {
        self.entries@
    }

    /// No notification yet.
    pub fn new() -> (r: Self)
        ensures
            r.last_id() == 0,
            r.entries() == Seq::<NotificationEntry>::empty(),
    {
        NotificationCenter { next_id: 0, entries: Vec::new() }
    }

    /// Shows a message under the next identifier, newest first; the oldest
    /// entries past the limit go.
    pub fn show(&mut self, message: String, level: NotificationLevel) -> (r: NotificationEntry)
        ensures
            r == (NotificationEntry { id: next_notification_id(old(self).last_id()), message, level }),
            final(self).last_id() == r.id,
            final(self).entries() == shown_entries(old(self).entries(), r),
            final(self).entries().len() <= MAX_VISIBLE_NOTIFICATIONS,
    {
        proof { use_type_invariant(&*self); }
        let id = self.next_id.wrapping_add(1);
        let entry = NotificationEntry { id, message, level };
        let shown = entry.clone();
        let mut entries = Vec::new();
        std::mem::swap(&mut entries, &mut self.entries);
        let ghost before = entries@;
        entries.insert(0, shown);
        proof {
            assert(entries@ =~= seq![entry] + before);
        }
        entries.truncate(MAX_VISIBLE_NOTIFICATIONS);
        self.entries = entries;
        self.next_id = id;
        entry
    }

    /// Removes the notification of the id; whether there was one.
    pub fn dismiss(&mut self, id: u64) -> (r: bool)
        ensures
            final(self).entries() == old(self).entries().filter(not_id(id)),
            r == (exists|i: int| 0 <= i < old(self).entries().len() && (#[trigger] old(self).entries()[i]).id == id),
            final(self).last_id() == old(self).last_id(),
            final(self).entries().len() <= MAX_VISIBLE_NOTIFICATIONS,
    {
        proof { use_type_invariant(&*self); }
        let ghost orig = self.entries@;
        let ghost pred = not_id(id);
        let mut kept: Vec<NotificationEntry> = Vec::new();
        let mut found = false;
        let n = self.entries.len();
        for i in 0..n
            invariant
                n == orig.len(),
                orig == self.entries@,
                pred == not_id(id),
                kept@ == orig.take(i as int).filter(pred),
                found == (exists|j: int| 0 <= j < i && (#[trigger] orig[j]).id == id),
        {
            proof {
                assert(orig.take(i as int + 1).drop_last() =~= orig.take(i as int));
                reveal(Seq::filter);
            }
            let e = &self.entries[i];
            if e.id != id {
                kept.push(e.clone());
            } else {
                found = true;
            }
        }
        proof {
            assert(orig.take(n as int) =~= orig);
            orig.lemma_filter_len(pred);
        }
        self.entries = kept;
        found
    }

    /// The notifications on screen, newest first.
    pub fn items(&self) -> (r: &[NotificationEntry])
        ensures
            r@ == self.entries(),
    {
        self.entries.as_slice()
    }
}

} // verus!
