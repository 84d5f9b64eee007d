//! The redirect table: a snapshot of redirect entries that is replaced as a
//! whole when a reload succeeds and kept as it is when one fails.
use crate::text::{chars_of, same_ignoring_case, same_text_ignoring_case, str_eq};
use vstd::prelude::*;

verus! {

/// Seconds after which a loaded redirect table is re-read, unless the
/// settings say otherwise.
pub const DEFAULT_REDIRECTS_TTL: u64 = 1800;

/// The text that switches the permanence of a redirect off.
pub const NOT_PERMANENT: &'static str = "false";

/// What a redirect entry says.
pub ghost struct EntryView {
    pub source_path: Seq<char>,
    pub destination: Seq<char>,
    pub permanent: bool,
}

/// One redirect: requests for `source_path`, in any case of its letters, are
/// sent on to `destination`.
#[derive(Debug, PartialEq, Eq)]
pub struct RedirectEntry {
    pub source_path: String,
    pub destination: String,
    pub permanent: bool,
}

impl View for RedirectEntry {
    type V = EntryView;

    open spec fn view(&self) -> EntryView {
        EntryView {
            source_path: self.source_path@,
            destination: self.destination@,
            permanent: self.permanent,
        }
    }
}

/// The views of `entries`, in order.
pub open spec fn entry_views(entries: Seq<RedirectEntry>) -> Seq<EntryView> {
    Seq::new(entries.len(), |k: int| entries[k]@)
}

/// The permanence that a section's flag text stands for: a redirect is
/// permanent unless the flag is there and reads `false`.
pub open spec fn permanence(flag: Option<Seq<char>>) -> bool {
    flag != Some(NOT_PERMANENT@)
}

/// Where a request for `path` is sent by the first of `entries` whose source
/// path is `path` up to the case of letters, with that entry's permanence;
/// `None` where no entry matches.
pub open spec fn find(entries: Seq<EntryView>, path: Seq<char>) -> Option<(Seq<char>, bool)>
    decreases entries.len(),
{
    if entries.len() == 0 {
        None
    } else if same_ignoring_case(entries[0].source_path, path) {
        Some((entries[0].destination, entries[0].permanent))
    } else {
        find(entries.skip(1), path)
    }
}

/// What a redirect table holds: the entries of the last load that
/// succeeded, when that was, and how long it stays fresh.
pub ghost struct TableView {
    pub entries: Seq<EntryView>,
    pub last_load: u64,
    pub ttl: u64,
}

/// Whether the table is older at `now` than its time to live allows. A clock
/// that reads less than at the last load makes no table stale.
pub open spec fn stale(table: TableView, now: u64) -> bool {
    now - table.last_load > table.ttl
}

/// The table after a reload at `now`: a load that succeeded replaces every
/// entry and restarts the clock; one that failed changes nothing.
pub open spec fn reloaded(table: TableView, loaded: Option<Seq<EntryView>>, now: u64) -> TableView {
    match loaded {
        Some(entries) => TableView { entries, last_load: now, ttl: table.ttl },
        None => table,
    }
}

/// The table after it was refreshed at `now`: reloaded if it was stale, and
/// as it was otherwise.
pub open spec fn refreshed(
    table: TableView,
    loaded: Option<Seq<EntryView>>,
    now: u64,
) -> TableView {
    if stale(table, now) {
        reloaded(table, loaded, now)
    } else {
        table
    }
}

/// The views of the loaded entries, if there are any.
pub open spec fn loaded_views(loaded: Option<Vec<RedirectEntry>>) -> Option<Seq<EntryView>> {
    match loaded {
        Some(entries) => Some(entry_views(entries@)),
        None => None,
    }
}

impl RedirectEntry {
    /// The entry for one section of a redirect document: the section's name
    /// is the source path, and `flag` is the text of its permanence flag
    /// where it has one.
    pub fn from_section(source_path: &str, destination: &str, flag: Option<&str>) -> (entry:
        RedirectEntry)
        ensures
            entry@ == (EntryView {
                source_path: source_path@,
                destination: destination@,
                permanent: permanence(
                    match flag {
                        Some(text) => Some(text@),
                        None => None,
                    },
                ),
            }),
    {
        let permanent = match flag {
            Some(text) => !str_eq(text, NOT_PERMANENT),
            None => true,
        };
        RedirectEntry {
            source_path: source_path.to_owned(),
            destination: destination.to_owned(),
            permanent,
        }
    }

    /// The entry for one section of a redirect document, if the section
    /// names a destination; a section without one redirects nothing.
    pub fn try_from_section(
        source_path: &str,
        destination: Option<&str>,
        flag: Option<&str>,
    ) -> (entry: Option<RedirectEntry>)
        ensures
            match (entry, destination) {
                (Some(e), Some(target)) => e@ == (EntryView {
                    source_path: source_path@,
                    destination: target@,
                    permanent: permanence(
                        match flag {
                            Some(text) => Some(text@),
                            None => None,
                        },
                    ),
                }),
                (None, None) => true,
                _ => false,
            },
    {
        match destination {
            Some(target) => Some(Self::from_section(source_path, target, flag)),
            None => None,
        }
    }
}

/// A snapshot of redirect entries with the time of its load.
#[derive(Debug)]
pub struct RedirectTable {
    entries: Vec<RedirectEntry>,
    last_load: u64,
    ttl: u64,
}

impl View for RedirectTable {
    type V = TableView;

    closed spec fn view(&self) -> TableView {
        TableView {
            entries: entry_views(self.entries@),
            last_load: self.last_load,
            ttl: self.ttl,
        }
    }
}

impl RedirectTable {
    /// An empty table that counts as loaded at `now`.
    pub fn new(ttl: u64, now: u64) -> (table: RedirectTable)
        ensures
            table@ == (TableView { entries: Seq::empty(), last_load: now, ttl }),
    {
        let table = RedirectTable { entries: Vec::new(), last_load: now, ttl };
        assert(entry_views(table.entries@) =~= Seq::empty());
        table
    }

    /// Whether the table is due for a reload at `now`.
    pub fn is_stale(&self, now: u64) -> (due: bool)
        ensures
            due == stale(self@, now),
    {
        now > self.last_load && now - self.last_load > self.ttl
    }

    /// Takes in the outcome of a reload at `now`: the entries that were
    /// loaded, or `None` where the source could not be read or understood.
    pub fn reload(&mut self, loaded: Option<Vec<RedirectEntry>>, now: u64)
        ensures
            final(self)@ == reloaded(old(self)@, loaded_views(loaded), now),
    {
        match loaded {
            Some(entries) => {
                self.entries = entries;
                self.last_load = now;
            },
            None => {},
        }
    }

    /// Refreshes the table at `now`: a stale table takes in the outcome of
    /// the reload, a fresh one ignores it.
    pub fn refresh(&mut self, loaded: Option<Vec<RedirectEntry>>, now: u64)
        ensures
            final(self)@ == refreshed(old(self)@, loaded_views(loaded), now),
    {
        if self.is_stale(now) {
            self.reload(loaded, now);
        }
    }

    /// Where a request for `path` is sent, and whether for good.
    pub fn lookup(&self, path: &str) -> (target: Option<(String, bool)>)
        ensures
            match target {
                Some((destination, permanent)) => find(self@.entries, path@) == Some(
                    (destination@, permanent),
                ),
                None => find(self@.entries, path@) is None,
            },
    {
        let wanted = chars_of(path);
        let ghost all = entry_views(self.entries@);
        let mut i: usize = 0;
        assert(all.skip(0) =~= all);
        while i < self.entries.len()
            invariant
                i <= self.entries.len(),
                wanted@ == path@,
                all == entry_views(self.entries@),
                find(all, path@) == find(all.skip(i as int), path@),
            decreases self.entries.len() - i,
        {
            let entry = &self.entries[i];
            let source = chars_of(entry.source_path.as_str());
            proof {
                assert(all.skip(i as int)[0] == entry@);
                assert(all.skip(i as int).skip(1) =~= all.skip(i + 1));
            }
            if same_text_ignoring_case(&source, &wanted) {
                return Some((entry.destination.clone(), entry.permanent));
            }
            i += 1;
        }
        None
    }
}

/// A reload that fails leaves every lookup as it was: the entries that were
/// there stay, and answer as before.
pub proof fn law_failed_reload_keeps_entries(table: TableView, now: u64, path: Seq<char>)
    ensures
        reloaded(table, None, now) == table,
        refreshed(table, None, now) == table,
        find(refreshed(table, None, now).entries, path) == find(table.entries, path),
{
}

/// A reload that succeeds replaces every entry: lookups are answered from
/// the loaded entries alone, so a source path that none of them matches is
/// no longer redirected, whatever the table held before.
pub proof fn law_successful_reload_replaces_entries(
    table: TableView,
    entries: Seq<EntryView>,
    now: u64,
    path: Seq<char>,
)
    ensures
        reloaded(table, Some(entries), now).entries == entries,
        reloaded(table, Some(entries), now).last_load == now,
        find(reloaded(table, Some(entries), now).entries, path) == find(entries, path),
        stale(table, now) ==> find(refreshed(table, Some(entries), now).entries, path) == find(
            entries,
            path,
        ),
        (forall|k: int| 0 <= k < entries.len() ==> !same_ignoring_case(
            (#[trigger] entries[k]).source_path,
            path,
        )) ==> find(reloaded(table, Some(entries), now).entries, path) is None,
{
    if forall|k: int| 0 <= k < entries.len() ==> !same_ignoring_case(
        (#[trigger] entries[k]).source_path,
        path,
    ) {
        lemma_find_none(entries, path);
    }
}

/// A path that no entry matches is not redirected.
pub proof fn lemma_find_none(entries: Seq<EntryView>, path: Seq<char>)
    requires
        forall|k: int| 0 <= k < entries.len() ==> !same_ignoring_case(
            (#[trigger] entries[k]).source_path,
            path,
        ),
    ensures
        find(entries, path) is None,
    decreases entries.len(),
{
    if entries.len() > 0 {
        let rest = entries.skip(1);
        assert forall|k: int| 0 <= k < rest.len() implies !same_ignoring_case(
            (#[trigger] rest[k]).source_path,
            path,
        ) by {
            assert(rest[k] == entries[k + 1]);
        }
        lemma_find_none(rest, path);
    }
}

} // verus!
