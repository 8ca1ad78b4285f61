//! Bookkeeping of the file-system watches of a notification stream: which
//! kinds of watcher events become file events, what is watched for a
//! directory or a file, and which file events each watch asks for.
use vstd::prelude::*;

use crate::path_key::{law_path_key_trailing_separator, path_key, spec_path_key};
use crate::paths::{join_path, joined_path};

verus! {

/// A change to a watched file or directory.
#[derive(Clone, Copy, Debug, PartialEq, Eq, Hash, Structural)]
pub enum FileEvent {
    Modified,
    Deleted,
    Created,
}

/// The kinds of watcher events that the stream tells apart.
#[derive(Clone, Copy, Debug, PartialEq, Eq, Structural)]
pub enum WatchEventKind {
    /// A file opened for writing was closed.
    CloseWrite,
    /// A file was created.
    CreateFile,
    /// A directory was created.
    CreateFolder,
    /// A file was removed.
    RemoveFile,
    /// A directory was removed.
    RemoveFolder,
    /// Any other event.
    Other,
}

/// How far a watch reaches.
#[derive(Clone, Copy, Debug, PartialEq, Eq, Structural)]
pub enum WatchMode {
    /// The directory and everything below it.
    Recursive,
    /// The path alone.
    NonRecursive,
}

/// The file event that a kind of watcher event stands for, if any.
pub open spec fn spec_file_event(kind: WatchEventKind) -> Option<FileEvent> {
    match kind {
        WatchEventKind::CloseWrite => Some(FileEvent::Modified),
        WatchEventKind::CreateFile => Some(FileEvent::Created),
        WatchEventKind::CreateFolder => Some(FileEvent::Created),
        WatchEventKind::RemoveFile => Some(FileEvent::Deleted),
        WatchEventKind::RemoveFolder => Some(FileEvent::Deleted),
        WatchEventKind::Other => None,
    }
}

/// The file event that a kind of watcher event stands for, if any.
pub fn file_event_for(kind: WatchEventKind) -> (res: Option<FileEvent>)
    ensures
        res == spec_file_event(kind),
{
    match kind {
        WatchEventKind::CloseWrite => Some(FileEvent::Modified),
        WatchEventKind::CreateFile => Some(FileEvent::Created),
        WatchEventKind::CreateFolder => Some(FileEvent::Created),
        WatchEventKind::RemoveFile => Some(FileEvent::Deleted),
        WatchEventKind::RemoveFolder => Some(FileEvent::Deleted),
        WatchEventKind::Other => None,
    }
}

/// The notifications that one watcher event gives: each of its paths, in
/// order, with the file event of its kind; none for a kind that stands for
/// no file event.
pub open spec fn spec_notifications<P>(kind: WatchEventKind, paths: Seq<P>) -> Seq<(P, FileEvent)> {
    match spec_file_event(kind) {
        None => Seq::empty(),
        Some(event) => paths.map_values(|p: P| (p, event)),
    }
}

/// A file that was closed after writing is reported modified, a created file
/// or directory created, a removed file or directory deleted; other events
/// are not reported. Every path of the event is reported, in order, with
/// that file event, which is the one that `file_event_for` gives the kind.
pub proof fn law_notifications_report_each_path<P>(kind: WatchEventKind, paths: Seq<P>)
    ensures
        kind == WatchEventKind::CloseWrite ==> spec_file_event(kind) == Some(FileEvent::Modified),
        kind == WatchEventKind::CreateFile ==> spec_file_event(kind) == Some(FileEvent::Created),
        kind == WatchEventKind::CreateFolder ==> spec_file_event(kind) == Some(FileEvent::Created),
        kind == WatchEventKind::RemoveFile ==> spec_file_event(kind) == Some(FileEvent::Deleted),
        kind == WatchEventKind::RemoveFolder ==> spec_file_event(kind) == Some(FileEvent::Deleted),
        kind == WatchEventKind::Other ==> spec_file_event(kind) is None,
        kind == WatchEventKind::Other ==> spec_notifications(kind, paths).len() == 0,
        kind != WatchEventKind::Other ==> spec_notifications(kind, paths).len() == paths.len(),
        kind != WatchEventKind::Other ==> forall|i: int|
            0 <= i < paths.len() ==> #[trigger] spec_notifications(kind, paths)[i] == (
                paths[i],
                spec_file_event(kind).unwrap(),
            ),
        kind == WatchEventKind::CloseWrite ==> forall|i: int|
            0 <= i < paths.len() ==> #[trigger] spec_notifications(kind, paths)[i] == (
                paths[i],
                FileEvent::Modified,
            ),
{
}

/// The notifications that one watcher event gives.
pub fn notifications<P>(kind: WatchEventKind, paths: Vec<P>) -> (res: Vec<(P, FileEvent)>)
    ensures
        res@ == spec_notifications(kind, paths@),
{
    let mut out: Vec<(P, FileEvent)> = Vec::new();
    match file_event_for(kind) {
        None => {},
        Some(event) => {
            let ghost all = paths@;
            let mut rest = paths;
            while rest.len() > 0
                invariant
                    out@.len() + rest@.len() == all.len(),
                    rest@ == all.skip(out@.len() as int),
                    out@ == all.take(out@.len() as int).map_values(|p: P| (p, event)),
                decreases rest@.len(),
            {
                let p = rest.remove(0);
                proof {
                    assert(all.take(out@.len() + 1int) =~= all.take(out@.len() as int).push(p));
                }
                out.push((p, event));
                proof {
                    assert(rest@ =~= all.skip(out@.len() as int));
                    assert(out@ =~= all.take(out@.len() as int).map_values(|p: P| (p, event)));
                }
            }
            assert(all.take(all.len() as int) =~= all);
        },
    }
    out
}

/// What to hand the watcher for a directory and an optional file in it: the
/// file's path, watched alone, or the directory, watched with everything
/// below it.
pub fn watch_target(dir_path: &str, file: &Option<String>) -> (res: (String, WatchMode))
    ensures
        match file {
            Some(name) => res.0@ == joined_path(dir_path@, name@) && res.1 == WatchMode::NonRecursive,
            None => res.0@ == dir_path@ && res.1 == WatchMode::Recursive,
        },
{
    match file {
        Some(name) => (join_path(dir_path, name.as_str()), WatchMode::NonRecursive),
        None => (String::from_str(dir_path), WatchMode::Recursive),
    }
}

/// One watch: a directory, the file in it or `None` for the whole directory,
/// and the file events asked for.
pub struct WatchEntry {
    pub dir: String,
    pub file: Option<String>,
    pub events: Vec<FileEvent>,
}

/// An optional file name as a value of the model.
pub open spec fn file_key(file: Option<String>) -> Option<Seq<char>> {
    match file {
        Some(name) => Some(name@),
        None => None,
    }
}

/// The key of a watch: its directory and its optional file.
pub open spec fn entry_key(entry: WatchEntry) -> (Seq<char>, Option<Seq<char>>) {
    (entry.dir@, file_key(entry.file))
}

/// Whether some entry has this key.
pub open spec fn has_key(entries: Seq<WatchEntry>, key: (Seq<char>, Option<Seq<char>>)) -> bool {
    exists|i: int| 0 <= i < entries.len() && #[trigger] entry_key(entries[i]) == key
}

/// The file events that the entries with this key ask for.
pub open spec fn events_of(entries: Seq<WatchEntry>, key: (Seq<char>, Option<Seq<char>>)) -> Set<FileEvent> {
    Set::new(
        |event: FileEvent|
            exists|i: int|
                0 <= i < entries.len() && #[trigger] entry_key(entries[i]) == key
                    && entries[i].events@.contains(event),
    )
}

/// The file events asked for under a key of a map of watches, empty when the
/// key is not watched.
pub open spec fn watched_events(
    m: Map<(Seq<char>, Option<Seq<char>>), Set<FileEvent>>,
    key: (Seq<char>, Option<Seq<char>>),
) -> Set<FileEvent> {
    if m.contains_key(key) {
        m[key]
    } else {
        Set::empty()
    }
}

/// The map of watches after `key` is watched for `events` on top of what it
/// was watched for already.
pub open spec fn spec_record(
    m: Map<(Seq<char>, Option<Seq<char>>), Set<FileEvent>>,
    key: (Seq<char>, Option<Seq<char>>),
    events: Seq<FileEvent>,
) -> Map<(Seq<char>, Option<Seq<char>>), Set<FileEvent>> {
    m.insert(key, watched_events(m, key).union(events.to_set()))
}

/// Recording the same watch twice leaves the watches as recording it once.
pub proof fn law_record_idempotent(
    m: Map<(Seq<char>, Option<Seq<char>>), Set<FileEvent>>,
    key: (Seq<char>, Option<Seq<char>>),
    events: Seq<FileEvent>,
)
    ensures
        spec_record(spec_record(m, key, events), key, events) == spec_record(m, key, events),
{
    let once = spec_record(m, key, events);
    assert(watched_events(once, key).union(events.to_set()) =~= watched_events(once, key));
    assert(spec_record(once, key, events) =~= once);
}

/// The order in which watches are recorded does not matter.
pub proof fn law_record_commutes(
    m: Map<(Seq<char>, Option<Seq<char>>), Set<FileEvent>>,
    key1: (Seq<char>, Option<Seq<char>>),
    events1: Seq<FileEvent>,
    key2: (Seq<char>, Option<Seq<char>>),
    events2: Seq<FileEvent>,
)
    ensures
        spec_record(spec_record(m, key1, events1), key2, events2)
            == spec_record(spec_record(m, key2, events2), key1, events1),
{
    let a = spec_record(spec_record(m, key1, events1), key2, events2);
    let b = spec_record(spec_record(m, key2, events2), key1, events1);
    if key1 == key2 {
        assert(watched_events(m, key1).union(events1.to_set()).union(events2.to_set())
            =~= watched_events(m, key1).union(events2.to_set()).union(events1.to_set()));
    }
    assert(a =~= b);
}

/// Recording a watch keeps every watch and every event that was recorded
/// before, and adds the recorded events under the recorded key.
pub proof fn law_record_keeps(
    m: Map<(Seq<char>, Option<Seq<char>>), Set<FileEvent>>,
    key: (Seq<char>, Option<Seq<char>>),
    events: Seq<FileEvent>,
    other: (Seq<char>, Option<Seq<char>>),
)
    ensures
        watched_events(m, other).subset_of(watched_events(spec_record(m, key, events), other)),
        events.to_set().subset_of(watched_events(spec_record(m, key, events), key)),
        m.contains_key(other) ==> spec_record(m, key, events).contains_key(other),
        other != key ==> watched_events(spec_record(m, key, events), other) == watched_events(m, other),
{
}

/// Recording a directory under two spellings that differ by a trailing `/`
/// records one watch, which asks for the events of both.
pub proof fn law_record_merges_spellings(
    m: Map<(Seq<char>, Option<Seq<char>>), Set<FileEvent>>,
    dir: Seq<char>,
    file: Option<Seq<char>>,
    events1: Seq<FileEvent>,
    events2: Seq<FileEvent>,
)
    requires
        dir.len() > 0,
    ensures
        spec_record(
            spec_record(m, (spec_path_key(dir), file), events1),
            (spec_path_key(dir + seq!['/']), file),
            events2,
        ) == spec_record(m, (spec_path_key(dir), file), events1 + events2),
{
    law_path_key_trailing_separator(dir);
    let key = (spec_path_key(dir), file);
    let once = spec_record(m, key, events1);
    assert((events1 + events2).to_set() =~= events1.to_set().union(events2.to_set())) by {
        assert forall|e: FileEvent| (events1 + events2).contains(e) <==> (events1.contains(e) || events2.contains(e)) by {
            if (events1 + events2).contains(e) {
                let i = choose|i: int| 0 <= i < (events1 + events2).len() && (events1 + events2)[i] == e;
                if i >= events1.len() {
                    assert(events2[i - events1.len()] == e);
                }
            }
            if events1.contains(e) {
                let i = choose|i: int| 0 <= i < events1.len() && events1[i] == e;
                assert((events1 + events2)[i] == e);
            }
            if events2.contains(e) {
                let i = choose|i: int| 0 <= i < events2.len() && events2[i] == e;
                assert((events1 + events2)[events1.len() + i] == e);
            }
        }
    }
    assert(watched_events(once, key).union(events2.to_set())
        =~= watched_events(m, key).union((events1 + events2).to_set()));
    assert(spec_record(once, key, events2) =~= spec_record(m, key, events1 + events2));
}

/// The watches of a notification stream. Its view maps the key of each
/// watched directory (see `spec_path_key`: spellings of one directory share
/// it) and the optional file in it to the set of file events asked for.
pub struct WatchMetadata {
    entries: Vec<WatchEntry>,
}

impl WatchMetadata {
    /// No two entries share a key, and no entry lists an event twice.
    #[verifier::type_invariant]
    closed spec fn well_formed(self) -> bool {
        &&& forall|i: int, j: int|
            0 <= i < j < self.entries@.len() ==> entry_key(#[trigger] self.entries@[i])
                != entry_key(#[trigger] self.entries@[j])
        &&& forall|i: int| 0 <= i < self.entries@.len() ==> (#[trigger] self.entries@[i]).events@.no_duplicates()
    }
}

/// The map that a list of watches stands for.
pub open spec fn entries_map(entries: Seq<WatchEntry>) -> Map<(Seq<char>, Option<Seq<char>>), Set<FileEvent>> {
    Map::new(
        |key: (Seq<char>, Option<Seq<char>>)| has_key(entries, key),
        |key: (Seq<char>, Option<Seq<char>>)| events_of(entries, key),
    )
}

impl View for WatchMetadata {
    type V = Map<(Seq<char>, Option<Seq<char>>), Set<FileEvent>>;

    closed spec fn view(&self) -> Self::V {
        entries_map(self.entries@)
    }
}

/// Replacing the entry with `key` by one that asks for more events adds those
/// events under `key` and changes nothing else.
proof fn lemma_map_after_update(
    before: Seq<WatchEntry>,
    i: int,
    entry: WatchEntry,
    key: (Seq<char>, Option<Seq<char>>),
    events: Seq<FileEvent>,
)
    requires
        0 <= i < before.len(),
        entry_key(before[i]) == key,
        entry_key(entry) == key,
        forall|e: FileEvent| #[trigger] entry.events@.contains(e) <==> (before[i].events@.contains(e) || events.contains(e)),
    ensures
        entries_map(before.update(i, entry)) == entries_map(before).insert(
            key,
            watched_events(entries_map(before), key).union(events.to_set()),
        ),
{
    let after = before.update(i, entry);
    let old_map = entries_map(before);
    let new_map = entries_map(after);
    let expected = old_map.insert(key, watched_events(old_map, key).union(events.to_set()));
    assert(has_key(before, key)) by {
        assert(entry_key(before[i]) == key);
    }
    assert forall|k: (Seq<char>, Option<Seq<char>>)| #[trigger] new_map.contains_key(k) <==> expected.contains_key(k) by {
        if has_key(before, k) && k != key {
            let j = choose|j: int| 0 <= j < before.len() && #[trigger] entry_key(before[j]) == k;
            assert(entry_key(after[j]) == k);
        }
        if has_key(after, k) && k != key {
            let j = choose|j: int| 0 <= j < after.len() && #[trigger] entry_key(after[j]) == k;
            assert(entry_key(before[j]) == k);
        }
        if k == key {
            assert(entry_key(after[i]) == k);
        }
    }
    assert forall|k: (Seq<char>, Option<Seq<char>>)| new_map.contains_key(k) implies #[trigger] new_map[k] == expected[k] by {
        assert forall|e: FileEvent| #[trigger] events_of(after, k).contains(e) <==> expected[k].contains(e) by {
            if events_of(after, k).contains(e) {
                let j = choose|j: int|
                    0 <= j < after.len() && #[trigger] entry_key(after[j]) == k && after[j].events@.contains(e);
                if j != i {
                    assert(entry_key(before[j]) == k && before[j].events@.contains(e));
                } else if before[i].events@.contains(e) {
                    assert(entry_key(before[i]) == k);
                } else {
                    assert(events.contains(e));
                }
            }
            if expected[k].contains(e) {
                if k == key && events.contains(e) {
                    assert(entry_key(after[i]) == k && after[i].events@.contains(e));
                } else {
                    let j = choose|j: int|
                        0 <= j < before.len() && #[trigger] entry_key(before[j]) == k && before[j].events@.contains(e);
                    if j == i {
                        assert(entry_key(after[i]) == k && after[i].events@.contains(e));
                    } else {
                        assert(entry_key(after[j]) == k && after[j].events@.contains(e));
                    }
                }
            }
        }
        assert(events_of(after, k) =~= expected[k]);
    }
    assert(new_map =~= expected);
}

/// Adding an entry under a key that no entry has maps that key to the
/// entry's events and changes nothing else.
proof fn lemma_map_after_push(
    before: Seq<WatchEntry>,
    entry: WatchEntry,
    key: (Seq<char>, Option<Seq<char>>),
    events: Seq<FileEvent>,
)
    requires
        !has_key(before, key),
        entry_key(entry) == key,
        forall|e: FileEvent| #[trigger] entry.events@.contains(e) <==> events.contains(e),
    ensures
        entries_map(before.push(entry)) == entries_map(before).insert(
            key,
            watched_events(entries_map(before), key).union(events.to_set()),
        ),
{
    let after = before.push(entry);
    let old_map = entries_map(before);
    let new_map = entries_map(after);
    let expected = old_map.insert(key, watched_events(old_map, key).union(events.to_set()));
    let n = before.len() as int;
    assert(!old_map.contains_key(key));
    assert forall|k: (Seq<char>, Option<Seq<char>>)| #[trigger] new_map.contains_key(k) <==> expected.contains_key(k) by {
        if has_key(before, k) {
            let j = choose|j: int| 0 <= j < before.len() && #[trigger] entry_key(before[j]) == k;
            assert(entry_key(after[j]) == k);
        }
        if has_key(after, k) && k != key {
            let j = choose|j: int| 0 <= j < after.len() && #[trigger] entry_key(after[j]) == k;
            assert(entry_key(before[j]) == k);
        }
        if k == key {
            assert(entry_key(after[n]) == k);
        }
    }
    assert forall|k: (Seq<char>, Option<Seq<char>>)| new_map.contains_key(k) implies #[trigger] new_map[k] == expected[k] by {
        assert forall|e: FileEvent| #[trigger] events_of(after, k).contains(e) <==> expected[k].contains(e) by {
            if events_of(after, k).contains(e) {
                let j = choose|j: int|
                    0 <= j < after.len() && #[trigger] entry_key(after[j]) == k && after[j].events@.contains(e);
                if j < n {
                    assert(entry_key(before[j]) == k && before[j].events@.contains(e));
                }
            }
            if expected[k].contains(e) {
                if k == key {
                    assert(entry_key(after[n]) == k && after[n].events@.contains(e));
                } else {
                    let j = choose|j: int|
                        0 <= j < before.len() && #[trigger] entry_key(before[j]) == k && before[j].events@.contains(e);
                    assert(entry_key(after[j]) == k && after[j].events@.contains(e));
                }
            }
        }
        assert(events_of(after, k) =~= expected[k]);
    }
    assert(new_map =~= expected);
}

/// Whether two optional file names are the same.
fn same_file(a: &Option<String>, b: &Option<String>) -> (res: bool)
    ensures
        res == (file_key(*a) == file_key(*b)),
{
    match (a, b) {
        (None, None) => true,
        (Some(x), Some(y)) => *x == *y,
        _ => false,
    }
}

/// Whether `list` holds `event`.
fn holds_event(list: &Vec<FileEvent>, event: FileEvent) -> (res: bool)
    ensures
        res == list@.contains(event),
{
    let mut k: usize = 0;
    while k < list.len()
        invariant
            k <= list@.len(),
            forall|w: int| 0 <= w < k ==> list@[w] != event,
        decreases list@.len() - k,
    {
        if list[k] == event {
            assert(list@[k as int] == event);
            return true;
        }
        k = k + 1;
    }
    false
}

/// Adds the events that `events` holds and `list` does not, keeping `list`
/// free of repeats.
fn add_events(list: &mut Vec<FileEvent>, events: &[FileEvent])
    requires
        old(list)@.no_duplicates(),
    ensures
        final(list)@.no_duplicates(),
        forall|e: FileEvent| #[trigger] final(list)@.contains(e) <==> (old(list)@.contains(e) || events@.contains(e)),
{
    let mut j: usize = 0;
    while j < events.len()
        invariant
            j <= events@.len(),
            list@.no_duplicates(),
            forall|e: FileEvent| #[trigger] list@.contains(e) <==> (old(list)@.contains(e) || events@.take(j as int).contains(e)),
        decreases events@.len() - j,
    {
        let e = events[j];
        let ghost listed = list@;
        if !holds_event(list, e) {
            list.push(e);
        }
        proof {
            let prev = events@.take(j as int);
            let next = events@.take(j + 1int);
            assert(next =~= prev.push(e));
            assert forall|x: FileEvent| #[trigger] list@.contains(x) <==> (listed.contains(x) || x == e) by {
                if list@.contains(x) && x != e {
                    let w = choose|w: int| 0 <= w < list@.len() && #[trigger] list@[w] == x;
                    assert(listed[w] == x);
                }
                if listed.contains(x) {
                    let w = choose|w: int| 0 <= w < listed.len() && #[trigger] listed[w] == x;
                    assert(list@[w] == x);
                }
                if x == e && !listed.contains(e) {
                    assert(list@[listed.len() as int] == e);
                }
            }
            assert forall|x: FileEvent| #[trigger] next.contains(x) <==> (prev.contains(x) || x == e) by {
                if next.contains(x) && x != e {
                    let w = choose|w: int| 0 <= w < next.len() && #[trigger] next[w] == x;
                    assert(prev[w] == x);
                }
                if prev.contains(x) {
                    let w = choose|w: int| 0 <= w < prev.len() && #[trigger] prev[w] == x;
                    assert(next[w] == x);
                }
                if x == e {
                    assert(next[j as int] == e);
                }
            }
        }
        j = j + 1;
    }
    assert(events@.take(events@.len() as int) =~= events@);
}

impl WatchMetadata {
    /// No watches.
    pub fn new() -> (res: WatchMetadata)
        ensures
            res@ == Map::<(Seq<char>, Option<Seq<char>>), Set<FileEvent>>::empty(),
    {
        let res = WatchMetadata { entries: Vec::new() };
        assert(res@ =~= Map::<(Seq<char>, Option<Seq<char>>), Set<FileEvent>>::empty());
        res
    }

    /// The file events that `dir_path`, or the file `file` in it, is watched
    /// for, each once; none when it is not watched.
    pub fn events_for(&self, dir_path: &str, file: &Option<String>) -> (res: Vec<FileEvent>)
        ensures
            res@.to_set() == watched_events(self@, (spec_path_key(dir_path@), file_key(*file))),
            res@.no_duplicates(),
    {
        proof {
            use_type_invariant(self);
        }
        let ghost key = (spec_path_key(dir_path@), file_key(*file));
        let dir = path_key(dir_path);
        let mut i: usize = 0;
        while i < self.entries.len()
            invariant
                i <= self.entries@.len(),
                dir@ == spec_path_key(dir_path@),
                key == (spec_path_key(dir_path@), file_key(*file)),
                forall|j: int| 0 <= j < i ==> entry_key(#[trigger] self.entries@[j]) != key,
            decreases self.entries@.len() - i,
        {
            if self.entries[i].dir == dir && same_file(&self.entries[i].file, file) {
                let events = &self.entries[i].events;
                let mut out: Vec<FileEvent> = Vec::new();
                let mut k: usize = 0;
                while k < events.len()
                    invariant
                        k <= events@.len(),
                        out@ == events@.take(k as int),
                    decreases events@.len() - k,
                {
                    out.push(events[k]);
                    assert(events@.take(k + 1int) =~= events@.take(k as int).push(events@[k as int]));
                    k = k + 1;
                }
                proof {
                    use_type_invariant(self);
                    assert(events@.take(events@.len() as int) =~= events@);
                    let ghost at = i as int;
                    assert(entry_key(self.entries@[at]) == key);
                    assert(has_key(self.entries@, key));
                    assert forall|e: FileEvent| #[trigger] events_of(self.entries@, key).contains(e) <==> out@.contains(e) by {
                        if events_of(self.entries@, key).contains(e) {
                            let j = choose|j: int|
                                0 <= j < self.entries@.len() && #[trigger] entry_key(self.entries@[j]) == key
                                    && self.entries@[j].events@.contains(e);
                            if j != at {
                                if j < at {
                                    assert(entry_key(self.entries@[j]) != entry_key(self.entries@[at]));
                                } else {
                                    assert(entry_key(self.entries@[at]) != entry_key(self.entries@[j]));
                                }
                            }
                        }
                    }
                    assert(out@.to_set() =~= watched_events(self@, key));
                }
                return out;
            }
            i = i + 1;
        }
        proof {
            assert(!has_key(self.entries@, key));
            assert(Seq::<FileEvent>::empty().to_set() =~= watched_events(self@, key));
        }
        Vec::new()
    }

    /// Records that `dir_path`, or the file `file` in it, is watched for
    /// `events`, on top of what it was watched for already.
    pub fn record(&mut self, dir_path: &str, file: Option<String>, events: &[FileEvent])
        ensures
            final(self)@ == spec_record(old(self)@, (spec_path_key(dir_path@), file_key(file)), events@),
    {
        proof {
            use_type_invariant(&*self);
        }
        let ghost key = (spec_path_key(dir_path@), file_key(file));
        let mut entries: Vec<WatchEntry> = Vec::new();
        std::mem::swap(&mut entries, &mut self.entries);
        let ghost before = entries@;
        let dir = path_key(dir_path);
        let mut i: usize = 0;
        let mut found = false;
        while i < entries.len() && !found
            invariant
                i <= entries@.len(),
                entries@ == before,
                dir@ == spec_path_key(dir_path@),
                key == (spec_path_key(dir_path@), file_key(file)),
                found ==> i < entries@.len() && entry_key(entries@[i as int]) == key,
                !found ==> forall|j: int| 0 <= j < i ==> entry_key(#[trigger] entries@[j]) != key,
            decreases entries@.len() - i + (if found { 0int } else { 1int }),
        {
            if entries[i].dir == dir && same_file(&entries[i].file, &file) {
                found = true;
            } else {
                i = i + 1;
            }
        }
        if found {
            let mut entry = entries.remove(i);
            add_events(&mut entry.events, events);
            let ghost updated = entry;
            entries.insert(i, entry);
            proof {
                assert(entries@ =~= before.update(i as int, updated));
                lemma_map_after_update(before, i as int, updated, key, events@);
                assert forall|a: int, b: int| 0 <= a < b < entries@.len() implies entry_key(#[trigger] entries@[a])
                    != entry_key(#[trigger] entries@[b]) by {
                    assert(entry_key(entries@[a]) == entry_key(before[a]));
                    assert(entry_key(entries@[b]) == entry_key(before[b]));
                }
            }
        } else {
            let mut list: Vec<FileEvent> = Vec::new();
            add_events(&mut list, events);
            let entry = WatchEntry { dir, file, events: list };
            let ghost added = entry;
            entries.push(entry);
            proof {
                assert(!has_key(before, key));
                lemma_map_after_push(before, added, key, events@);
            }
        }
        self.entries = entries;
    }
}

} // verus!
