//! Taking in what a directory scan reports. Messages of an older scan are
//! dropped; found files get their thumbnail from the cache when they have
//! none, files without a cached row are queued to be persisted in batches,
//! new file extensions are switched on, and the found files join the result
//! list, which never lists a path twice.
use vstd::prelude::*;
use crate::keyed::KeyedList;
use crate::metadata::FoundFile;
use crate::records::{ext_switch, insert_sorted, lookup_switch, strictly_sorted};
use crate::text::{ascii_lower_seq, from_char_range, str_eq, to_ascii_lowercase, to_chars, views};

verus! {

/// Queued rows are persisted once this many have gathered during a batch.
pub const THUMB_BATCH: usize = 100;

/// After this many messages of the current scan a drain stops.
pub const DRAIN_LIMIT: usize = 1200;

/// `i` is the index of the last `.` of `name`.
pub open spec fn last_dot(name: Seq<char>, i: int) -> bool {
    0 <= i < name.len() && name[i] == '.' && forall|j: int| i < j < name.len() ==> name[j] != '.'
}

/// The extension of a file name (`Path::extension`): the text after its
/// last `.`, none when there is no `.` or the only one starts the name.
pub open spec fn file_extension(name: Seq<char>) -> Option<Seq<char>> {
    if exists|i: int| last_dot(name, i) {
        let i = choose|i: int| last_dot(name, i);
        if i == 0 {
            None
        } else {
            Some(name.subrange(i + 1, name.len() as int))
        }
    } else {
        None
    }
}

/// The extension of a found file, lowercased.
pub open spec fn item_ext(item: FoundFile) -> Option<Seq<char>> {
    match file_extension(item.file_name@) {
        Some(e) => Some(ascii_lower_seq(e)),
        None => None,
    }
}

pub fn extension_of(name: &str) -> (r: Option<String>)
    ensures
        match r {
            Some(e) => file_extension(name@) == Some(e@),
            None => file_extension(name@) is None,
        },
{
    let v = to_chars(name);
    let mut i = v.len();
    while i > 0 && v[i - 1] != '.'
        invariant
            i <= v@.len(),
            v@ == name@,
            forall|j: int| i <= j < v@.len() ==> v@[j] != '.',
        decreases i,
    {
        i = i - 1;
    }
    if i == 0 {
        assert(!exists|k: int| last_dot(name@, k)) by {
            if exists|k: int| last_dot(name@, k) {
                let k = choose|k: int| last_dot(name@, k);
                assert(name@[k] != '.');
            }
        }
        None
    } else {
        let d = i - 1;
        assert(last_dot(name@, d as int));
        assert(forall|k: int| last_dot(name@, k) ==> k == d) by {
            assert forall|k: int| last_dot(name@, k) implies k == d by {
                if k < d {
                    assert(name@[d as int] != '.');
                } else if k > d {
                    assert(name@[k] != '.');
                }
            }
        }
        if d == 0 {
            None
        } else {
            Some(from_char_range(&v, i, v.len()))
        }
    }
}

/// A found file after the cache was consulted: a file without a thumbnail
/// takes the one of its cached row, if it has a row.
pub open spec fn cached_fill(item: FoundFile, cache: Map<Seq<char>, Option<String>>) -> FoundFile {
    if cache.contains_key(item.path@) && item.thumb_data is None {
        FoundFile { thumb_data: cache[item.path@], ..item }
    } else {
        item
    }
}

/// The rows queued for persistence after the files `items` of a batch,
/// starting from `pending`, and the groups of rows persisted meanwhile: a
/// file without a cached row is queued, and the queue is persisted each
/// time it reaches [`THUMB_BATCH`] rows.
pub open spec fn batch_fold(
    pending: Seq<FoundFile>,
    items: Seq<FoundFile>,
    cache: Map<Seq<char>, Option<String>>,
) -> (Seq<FoundFile>, Seq<Seq<FoundFile>>)
    decreases items.len(),
{
    if items.len() == 0 {
        (pending, seq![])
    } else {
        let it = items[0];
        let p1 = if cache.contains_key(it.path@) {
            pending
        } else {
            pending.push(it)
        };
        let rest = items.subrange(1, items.len() as int);
        if p1.len() >= THUMB_BATCH {
            let r = batch_fold(seq![], rest, cache);
            (r.0, seq![p1] + r.1)
        } else {
            batch_fold(p1, rest, cache)
        }
    }
}

/// One of `items` has extension `e`.
pub open spec fn introduced(items: Seq<FoundFile>, e: Seq<char>) -> bool {
    exists|k: int| 0 <= k < items.len() && #[trigger] item_ext(items[k]) == Some(e)
}

/// What a scan reports.
pub enum ScanMsg {
    Found(FoundFile),
    FoundBatch(Vec<FoundFile>),
    UpdateThumb { path: String, thumb: String },
    Progress { scanned: usize, total: usize },
    Error(String),
    Done,
}

/// A report tagged with the scan it belongs to.
pub struct ScanEnvelope {
    pub scan_id: u64,
    pub msg: ScanMsg,
}

/// What persists across drains: the rows waiting to be persisted, the
/// extensions seen (sorted, each once) with their switches, and the status
/// of the scan.
pub struct ScanFeed {
    pub pending: Vec<FoundFile>,
    pub known_exts: Vec<String>,
    pub ext_switches: Vec<(String, bool)>,
    pub scanning: bool,
    pub finished: bool,
    pub error: Option<String>,
}

/// What one drain gathers before the result list is updated.
pub struct ScanCycle {
    pub active_gen: u64,
    pub processed: usize,
    pub new_items: Vec<FoundFile>,
    pub thumb_updates: Vec<(String, String)>,
    pub latest_progress: Option<(usize, usize)>,
}

impl ScanCycle {
    /// A drain of the scan `active_gen`.
    pub fn new(active_gen: u64) -> (r: Self)
        ensures
            r.active_gen == active_gen,
            r.processed == 0,
            r.new_items@.len() == 0,
            r.thumb_updates@.len() == 0,
            r.latest_progress is None,
    {
        ScanCycle {
            active_gen,
            processed: 0,
            new_items: Vec::new(),
            thumb_updates: Vec::new(),
            latest_progress: None,
        }
    }
}

impl ScanFeed {
    /// The extensions are listed sorted, each once.
    pub open spec fn wf(&self) -> bool {
        strictly_sorted(views(self.known_exts@))
    }

    /// A feed for a scan that is running, with the extensions known so far
    /// (listed sorted, each once) and their switches.
    pub fn new(known_exts: Vec<String>, ext_switches: Vec<(String, bool)>) -> (r: Self)
        requires
            strictly_sorted(views(known_exts@)),
        ensures
            r.wf(),
            r.pending@.len() == 0,
            r.known_exts == known_exts,
            r.ext_switches == ext_switches,
            r.scanning,
            !r.finished,
            r.error is None,
    {
        ScanFeed { pending: Vec::new(), known_exts, ext_switches, scanning: true, finished: false, error: None }
    }

    /// Notes extension `ext`: an extension not seen before is listed and,
    /// unless a switch for it exists, switched on.
    pub fn discover_extension(&mut self, ext: &str)
        requires
            old(self).wf(),
        ensures
            final(self).wf(),
            forall|x: Seq<char>|
                #[trigger] views(final(self).known_exts@).contains(x) <==> (views(
                    old(self).known_exts@,
                ).contains(x) || x == ext@),
            if views(old(self).known_exts@).contains(ext@) || ext_switch(old(self).ext_switches@, ext@) is Some {
                final(self).ext_switches@ == old(self).ext_switches@
            } else {
                &&& final(self).ext_switches@.len() == old(self).ext_switches@.len() + 1
                &&& final(self).ext_switches@.drop_last() == old(self).ext_switches@
                &&& final(self).ext_switches@.last().0@ == ext@
                &&& final(self).ext_switches@.last().1
            },
            final(self).pending == old(self).pending,
            final(self).scanning == old(self).scanning,
            final(self).finished == old(self).finished,
            final(self).error == old(self).error,
    {
        let known = contains_str(&self.known_exts, ext);
        if !known {
            let e = ext.to_owned();
            insert_sorted(&mut self.known_exts, &e);
            if lookup_switch(&self.ext_switches, ext).is_none() {
                self.ext_switches.push((e, true));
            }
        }
    }
}

/// The extensions listed in `known2` and switched in `sw2` are those of
/// `known` and `sw` after the files `items` were taken in: every extension
/// of theirs is listed, and one that was neither listed nor switched
/// before is switched on.
pub open spec fn exts_absorbed(
    known: Seq<Seq<char>>,
    sw: Seq<(String, bool)>,
    items: Seq<FoundFile>,
    known2: Seq<Seq<char>>,
    sw2: Seq<(String, bool)>,
) -> bool {
    &&& forall|x: Seq<char>| #[trigger] known2.contains(x) <==> (known.contains(x) || introduced(items, x))
    &&& forall|x: Seq<char>|
        #[trigger] ext_switch(sw2, x) == (if ext_switch(sw, x) is Some {
            ext_switch(sw, x)
        } else if introduced(items, x) && !known.contains(x) {
            Some(true)
        } else {
            None
        })
}

proof fn lemma_exts_chain(
    k0: Seq<Seq<char>>,
    s0: Seq<(String, bool)>,
    a: Seq<FoundFile>,
    k1: Seq<Seq<char>>,
    s1: Seq<(String, bool)>,
    b: Seq<FoundFile>,
    k2: Seq<Seq<char>>,
    s2: Seq<(String, bool)>,
)
    requires
        exts_absorbed(k0, s0, a, k1, s1),
        exts_absorbed(k1, s1, b, k2, s2),
    ensures
        exts_absorbed(k0, s0, a + b, k2, s2),
{
    assert forall|x: Seq<char>| introduced(a + b, x) <==> (introduced(a, x) || introduced(b, x)) by {
        if introduced(a + b, x) {
            let k = choose|k: int| 0 <= k < (a + b).len() && #[trigger] item_ext((a + b)[k]) == Some(x);
            if k < a.len() {
                assert(item_ext(a[k]) == Some(x));
            } else {
                assert(item_ext(b[k - a.len()]) == Some(x));
            }
        }
        if introduced(a, x) {
            let k = choose|k: int| 0 <= k < a.len() && #[trigger] item_ext(a[k]) == Some(x);
            assert(item_ext((a + b)[k]) == Some(x));
        }
        if introduced(b, x) {
            let k = choose|k: int| 0 <= k < b.len() && #[trigger] item_ext(b[k]) == Some(x);
            assert(item_ext((a + b)[k + a.len()]) == Some(x));
        }
    }
    assert forall|x: Seq<char>| #[trigger] k2.contains(x) <==> (k0.contains(x) || introduced(a + b, x)) by {
        assert(k1.contains(x) <==> (k0.contains(x) || introduced(a, x)));
    }
    assert forall|x: Seq<char>|
        #[trigger] ext_switch(s2, x) == (if ext_switch(s0, x) is Some {
            ext_switch(s0, x)
        } else if introduced(a + b, x) && !k0.contains(x) {
            Some(true)
        } else {
            None
        }) by {
        assert(k1.contains(x) <==> (k0.contains(x) || introduced(a, x)));
        assert(ext_switch(s1, x) == (if ext_switch(s0, x) is Some {
            ext_switch(s0, x)
        } else if introduced(a, x) && !k0.contains(x) {
            Some(true)
        } else {
            None
        }));
    }
}

/// Looking an extension up after an entry was appended: earlier entries
/// win.
pub proof fn lemma_switch_push(s: Seq<(String, bool)>, e: (String, bool), x: Seq<char>)
    ensures
        ext_switch(s.push(e), x) == (if ext_switch(s, x) is Some {
            ext_switch(s, x)
        } else if e.0@ == x {
            Some(e.1)
        } else {
            None
        }),
    decreases s.len(),
{
    if s.len() > 0 {
        assert(s.push(e)[0] == s[0]);
        assert(s.push(e).drop_first() =~= s.drop_first().push(e));
        lemma_switch_push(s.drop_first(), e, x);
    } else {
        assert(s.push(e)[0] == e);
        assert(s.push(e).drop_first() =~= Seq::<(String, bool)>::empty());
        assert(ext_switch(Seq::<(String, bool)>::empty(), x) is None);
    }
}

impl ScanFeed {
    /// Takes in one found file: its extension is noted, it takes its cached
    /// thumbnail when it has none, it is queued for persistence when it has
    /// no cached row, and it joins the files found in this drain.
    pub fn take_item(&mut self, cycle: &mut ScanCycle, item: FoundFile, cache: &KeyedList<Option<String>>)
        requires
            old(self).wf(),
        ensures
            final(self).wf(),
            exts_absorbed(
                views(old(self).known_exts@),
                old(self).ext_switches@,
                seq![item],
                views(final(self).known_exts@),
                final(self).ext_switches@,
            ),
            final(self).pending@ == (if cache@.contains_key(item.path@) {
                old(self).pending@
            } else {
                old(self).pending@.push(item)
            }),
            final(cycle).new_items@ == old(cycle).new_items@.push(cached_fill(item, cache@)),
            final(cycle).active_gen == old(cycle).active_gen,
            final(cycle).processed == old(cycle).processed,
            final(cycle).thumb_updates == old(cycle).thumb_updates,
            final(cycle).latest_progress == old(cycle).latest_progress,
            final(self).scanning == old(self).scanning,
            final(self).finished == old(self).finished,
            final(self).error == old(self).error,
    {
        let ghost k0 = views(self.known_exts@);
        let ghost s0 = self.ext_switches@;
        match extension_of(item.file_name.as_str()) {
            Some(e) => {
                let lower = to_ascii_lowercase(e.as_str());
                self.discover_extension(lower.as_str());
                proof {
                    assert(item_ext(item) == Some(lower@));
                    assert(seq![item][0] == item);
                    assert forall|x: Seq<char>| introduced(seq![item], x) <==> x == lower@ by {
                        if introduced(seq![item], x) {
                            let k = choose|k: int| 0 <= k < 1 && #[trigger] item_ext(seq![item][k]) == Some(x);
                            assert(k == 0);
                        }
                        if x == lower@ {
                            assert(item_ext(seq![item][0]) == Some(x));
                        }
                    }
                    assert forall|x: Seq<char>|
                        #[trigger] ext_switch(self.ext_switches@, x) == (if ext_switch(s0, x) is Some {
                            ext_switch(s0, x)
                        } else if introduced(seq![item], x) && !k0.contains(x) {
                            Some(true)
                        } else {
                            None
                        }) by {
                        if !(k0.contains(lower@) || ext_switch(s0, lower@) is Some) {
                            assert(self.ext_switches@ =~= s0.push(self.ext_switches@.last()));
                            lemma_switch_push(s0, self.ext_switches@.last(), x);
                        }
                    }
                }
            },
            None => {
                proof {
                    assert(item_ext(item) is None);
                    assert forall|x: Seq<char>| !introduced(seq![item], x) by {
                        if introduced(seq![item], x) {
                            let k = choose|k: int| 0 <= k < 1 && #[trigger] item_ext(seq![item][k]) == Some(x);
                            assert(seq![item][k] == item);
                        }
                    }
                }
            },
        }
        let mut it = item;
        match cache.get(it.path.as_str()) {
            Some(row) => {
                if it.thumb_data.is_none() {
                    it.thumb_data = crate::text::copy_opt(row);
                }
            },
            None => {
                self.pending.push(it.duplicate());
            },
        }
        cycle.new_items.push(it);
    }
}

/// The groups of rows as sequences.
pub open spec fn flush_views(v: Seq<Vec<FoundFile>>) -> Seq<Seq<FoundFile>> {
    v.map_values(|x: Vec<FoundFile>| x@)
}

/// The found files after the cache was consulted for each.
pub open spec fn filled_all(items: Seq<FoundFile>, cache: Map<Seq<char>, Option<String>>) -> Seq<FoundFile> {
    items.map_values(|it: FoundFile| cached_fill(it, cache))
}

impl ScanFeed {
    /// Takes in a batch of found files, in order, persisting the queued rows
    /// each time [`THUMB_BATCH`] of them have gathered; returns the groups
    /// to persist.
    pub fn take_batch(&mut self, cycle: &mut ScanCycle, batch: Vec<FoundFile>, cache: &KeyedList<Option<String>>) -> (flushes: Vec<Vec<FoundFile>>)
        requires
            old(self).wf(),
        ensures
            final(self).wf(),
            exts_absorbed(
                views(old(self).known_exts@),
                old(self).ext_switches@,
                batch@,
                views(final(self).known_exts@),
                final(self).ext_switches@,
            ),
            (final(self).pending@, flush_views(flushes@)) == batch_fold(old(self).pending@, batch@, cache@),
            final(cycle).new_items@ == old(cycle).new_items@ + filled_all(batch@, cache@),
            final(cycle).active_gen == old(cycle).active_gen,
            final(cycle).processed == old(cycle).processed,
            final(cycle).thumb_updates == old(cycle).thumb_updates,
            final(cycle).latest_progress == old(cycle).latest_progress,
            final(self).scanning == old(self).scanning,
            final(self).finished == old(self).finished,
            final(self).error == old(self).error,
    {
        let ghost k0 = views(self.known_exts@);
        let ghost s0 = self.ext_switches@;
        let ghost p0 = self.pending@;
        let ghost n0 = cycle.new_items@;
        let mut flushes: Vec<Vec<FoundFile>> = Vec::new();
        let mut k: usize = 0;
        proof {
            assert(batch@.skip(0) =~= batch@);
            assert(batch@.take(0) =~= Seq::<FoundFile>::empty());
            assert forall|x: Seq<char>| !introduced(Seq::<FoundFile>::empty(), x) by {}
            assert(flush_views(flushes@) =~= Seq::<Seq<FoundFile>>::empty());
            assert(filled_all(batch@.take(0), cache@) =~= Seq::<FoundFile>::empty());
        }
        while k < batch.len()
            invariant
                k <= batch@.len(),
                self.wf(),
                exts_absorbed(k0, s0, batch@.take(k as int), views(self.known_exts@), self.ext_switches@),
                batch_fold(p0, batch@, cache@) == (
                    batch_fold(self.pending@, batch@.skip(k as int), cache@).0,
                    flush_views(flushes@) + batch_fold(self.pending@, batch@.skip(k as int), cache@).1,
                ),
                cycle.new_items@ == n0 + filled_all(batch@.take(k as int), cache@),
                cycle.active_gen == old(cycle).active_gen,
                cycle.processed == old(cycle).processed,
                cycle.thumb_updates == old(cycle).thumb_updates,
                cycle.latest_progress == old(cycle).latest_progress,
                self.scanning == old(self).scanning,
                self.finished == old(self).finished,
                self.error == old(self).error,
            decreases batch@.len() - k,
        {
            let ghost k1 = views(self.known_exts@);
            let ghost s1 = self.ext_switches@;
            let ghost pend = self.pending@;
            let ghost fl = flush_views(flushes@);
            let ghost rest = batch@.skip(k as int);
            let item = batch[k].duplicate();
            self.take_item(cycle, item, cache);
            proof {
                lemma_exts_chain(
                    k0,
                    s0,
                    batch@.take(k as int),
                    k1,
                    s1,
                    seq![batch@[k as int]],
                    views(self.known_exts@),
                    self.ext_switches@,
                );
                assert(batch@.take(k as int) + seq![batch@[k as int]] =~= batch@.take(k + 1));
                assert(filled_all(batch@.take(k + 1), cache@) =~= filled_all(batch@.take(k as int), cache@).push(
                    cached_fill(batch@[k as int], cache@),
                ));
                assert(rest[0] == batch@[k as int]);
                assert(rest.subrange(1, rest.len() as int) =~= batch@.skip(k + 1));
            }
            if self.pending.len() >= THUMB_BATCH {
                let mut full: Vec<FoundFile> = Vec::new();
                std::mem::swap(&mut full, &mut self.pending);
                let ghost fullv = full@;
                flushes.push(full);
                proof {
                    assert(self.pending@ =~= Seq::<FoundFile>::empty());
                    assert(flush_views(flushes@) =~= fl.push(fullv));
                    let r = batch_fold(Seq::<FoundFile>::empty(), batch@.skip(k + 1), cache@);
                    assert(fl + (seq![fullv] + r.1) =~= fl.push(fullv) + r.1);
                }
            }
            k = k + 1;
        }
        proof {
            assert(batch@.take(batch@.len() as int) =~= batch@);
            assert(batch@.skip(batch@.len() as int) =~= Seq::<FoundFile>::empty());
            assert(flush_views(flushes@) + Seq::<Seq<FoundFile>>::empty() =~= flush_views(flushes@));
        }
        flushes
    }
}

impl ScanCycle {
    /// The drain has taken in as many messages as it may.
    pub fn is_full(&self) -> (r: bool)
        ensures
            r == (self.processed > DRAIN_LIMIT),
    {
        self.processed > DRAIN_LIMIT
    }
}

impl ScanFeed {
    /// Takes in one report during a drain of scan `cycle.active_gen`, when
    /// the current scan is `generation_now`; returns the groups of rows to
    /// persist. Reports of another scan change nothing.
    pub fn absorb(
        &mut self,
        cycle: &mut ScanCycle,
        env: ScanEnvelope,
        generation_now: u64,
        cache: &KeyedList<Option<String>>,
    ) -> (flushes: Vec<Vec<FoundFile>>)
        requires
            old(self).wf(),
            old(cycle).processed <= DRAIN_LIMIT,
        ensures
            final(self).wf(),
            final(cycle).active_gen == old(cycle).active_gen,
            env.scan_id != old(cycle).active_gen ==> {
                &&& *final(self) == *old(self)
                &&& *final(cycle) == *old(cycle)
                &&& flushes@.len() == 0
            },
            env.scan_id == old(cycle).active_gen ==> final(cycle).processed == old(cycle).processed + 1,
            env.scan_id == old(cycle).active_gen ==> match env.msg {
                ScanMsg::Found(item) => {
                    &&& exts_absorbed(
                        views(old(self).known_exts@),
                        old(self).ext_switches@,
                        seq![item],
                        views(final(self).known_exts@),
                        final(self).ext_switches@,
                    )
                    &&& final(self).pending@ == (if cache@.contains_key(item.path@) {
                        old(self).pending@
                    } else {
                        old(self).pending@.push(item)
                    })
                    &&& final(cycle).new_items@ == old(cycle).new_items@.push(cached_fill(item, cache@))
                    &&& flushes@.len() == 0
                    &&& final(cycle).thumb_updates == old(cycle).thumb_updates
                    &&& final(cycle).latest_progress == old(cycle).latest_progress
                    &&& final(self).scanning == old(self).scanning
                    &&& final(self).finished == old(self).finished
                    &&& final(self).error == old(self).error
                },
                ScanMsg::FoundBatch(batch) => {
                    &&& exts_absorbed(
                        views(old(self).known_exts@),
                        old(self).ext_switches@,
                        batch@,
                        views(final(self).known_exts@),
                        final(self).ext_switches@,
                    )
                    &&& (final(self).pending@, flush_views(flushes@)) == batch_fold(
                        old(self).pending@,
                        batch@,
                        cache@,
                    )
                    &&& final(cycle).new_items@ == old(cycle).new_items@ + filled_all(batch@, cache@)
                    &&& final(cycle).thumb_updates == old(cycle).thumb_updates
                    &&& final(cycle).latest_progress == old(cycle).latest_progress
                    &&& final(self).scanning == old(self).scanning
                    &&& final(self).finished == old(self).finished
                    &&& final(self).error == old(self).error
                },
                ScanMsg::UpdateThumb { path, thumb } => {
                    &&& *final(self) == *old(self)
                    &&& final(cycle).thumb_updates@ == old(cycle).thumb_updates@.push((path, thumb))
                    &&& final(cycle).new_items == old(cycle).new_items
                    &&& final(cycle).latest_progress == old(cycle).latest_progress
                    &&& flushes@.len() == 0
                },
                ScanMsg::Progress { scanned, total } => {
                    &&& *final(self) == *old(self)
                    &&& final(cycle).latest_progress == Some((scanned, total))
                    &&& final(cycle).new_items == old(cycle).new_items
                    &&& final(cycle).thumb_updates == old(cycle).thumb_updates
                    &&& flushes@.len() == 0
                },
                ScanMsg::Error(e) => {
                    &&& final(self).error == Some(e)
                    &&& !final(self).scanning
                    &&& final(self).finished == old(self).finished
                    &&& final(self).pending == old(self).pending
                    &&& final(self).known_exts == old(self).known_exts
                    &&& final(self).ext_switches == old(self).ext_switches
                    &&& final(cycle).new_items == old(cycle).new_items
                    &&& final(cycle).thumb_updates == old(cycle).thumb_updates
                    &&& final(cycle).latest_progress == old(cycle).latest_progress
                    &&& flushes@.len() == 0
                },
                ScanMsg::Done => {
                    &&& final(self).scanning == (old(self).scanning && generation_now != old(cycle).active_gen)
                    &&& final(self).finished == (old(self).finished || generation_now == old(cycle).active_gen)
                    &&& final(self).error == old(self).error
                    &&& final(self).pending@.len() == 0
                    &&& flush_views(flushes@) == (if old(self).pending@.len() == 0 {
                        Seq::<Seq<FoundFile>>::empty()
                    } else {
                        seq![old(self).pending@]
                    })
                    &&& final(self).known_exts == old(self).known_exts
                    &&& final(self).ext_switches == old(self).ext_switches
                    &&& final(cycle).new_items == old(cycle).new_items
                    &&& final(cycle).thumb_updates == old(cycle).thumb_updates
                    &&& final(cycle).latest_progress == old(cycle).latest_progress
                },
            },
    {
        let mut flushes: Vec<Vec<FoundFile>> = Vec::new();
        if env.scan_id != cycle.active_gen {
            return flushes;
        }
        match env.msg {
            ScanMsg::Found(item) => {
                self.take_item(cycle, item, cache);
            },
            ScanMsg::FoundBatch(batch) => {
                flushes = self.take_batch(cycle, batch, cache);
            },
            ScanMsg::UpdateThumb { path, thumb } => {
                cycle.thumb_updates.push((path, thumb));
            },
            ScanMsg::Progress { scanned, total } => {
                cycle.latest_progress = Some((scanned, total));
            },
            ScanMsg::Error(e) => {
                self.error = Some(e);
                self.scanning = false;
            },
            ScanMsg::Done => {
                if generation_now == cycle.active_gen {
                    self.scanning = false;
                    self.finished = true;
                }
                if self.pending.len() > 0 {
                    let mut full: Vec<FoundFile> = Vec::new();
                    std::mem::swap(&mut full, &mut self.pending);
                    flushes.push(full);
                }
                proof {
                    assert(flush_views(flushes@) =~= (if old(self).pending@.len() == 0 {
                        Seq::<Seq<FoundFile>>::empty()
                    } else {
                        seq![old(self).pending@]
                    }));
                }
            },
        }
        cycle.processed = cycle.processed + 1;
        flushes
    }
}

/// `i` is the first position of a file with path `p`.
pub open spec fn path_index(items: Seq<FoundFile>, p: Seq<char>, i: int) -> bool {
    0 <= i < items.len() && items[i].path@ == p && forall|j: int| 0 <= j < i ==> items[j].path@ != p
}

/// Some file has path `p`.
pub open spec fn has_path(items: Seq<FoundFile>, p: Seq<char>) -> bool {
    exists|i: int| 0 <= i < items.len() && items[i].path@ == p
}

/// No path is listed twice.
pub open spec fn paths_unique(items: Seq<FoundFile>) -> bool {
    forall|i: int, j: int| 0 <= i < j < items.len() ==> items[i].path@ != items[j].path@
}

/// The list after a found file joins it: a new path is appended; for a
/// listed one, the listed file takes the cached thumbnail if it has none.
pub open spec fn merge_one(
    items: Seq<FoundFile>,
    it: FoundFile,
    cache: Map<Seq<char>, Option<String>>,
) -> Seq<FoundFile> {
    if !has_path(items, it.path@) {
        items.push(it)
    } else {
        let i = choose|i: int| path_index(items, it.path@, i);
        if cache.contains_key(it.path@) && items[i].thumb_data is None {
            items.update(i, FoundFile { thumb_data: cache[it.path@], ..items[i] })
        } else {
            items
        }
    }
}

/// The list after the found files `news` joined it, in order.
pub open spec fn merge_all(
    items: Seq<FoundFile>,
    news: Seq<FoundFile>,
    cache: Map<Seq<char>, Option<String>>,
) -> Seq<FoundFile>
    decreases news.len(),
{
    if news.len() == 0 {
        items
    } else {
        merge_all(merge_one(items, news[0], cache), news.subrange(1, news.len() as int), cache)
    }
}

/// The list after the first file with path `p` got thumbnail `t`.
pub open spec fn update_thumb(items: Seq<FoundFile>, p: Seq<char>, t: String) -> Seq<FoundFile> {
    if has_path(items, p) {
        let i = choose|i: int| path_index(items, p, i);
        items.update(i, FoundFile { thumb_data: Some(t), ..items[i] })
    } else {
        items
    }
}

/// The list after the thumbnail updates `ups`, in order.
pub open spec fn update_all(items: Seq<FoundFile>, ups: Seq<(String, String)>) -> Seq<FoundFile>
    decreases ups.len(),
{
    if ups.len() == 0 {
        items
    } else {
        update_all(update_thumb(items, ups[0].0@, ups[0].1), ups.subrange(1, ups.len() as int))
    }
}

proof fn lemma_first_index(items: Seq<FoundFile>, p: Seq<char>)
    requires
        has_path(items, p),
    ensures
        exists|i: int| path_index(items, p, i),
    decreases items.len(),
{
    let k = choose|k: int| 0 <= k < items.len() && items[k].path@ == p;
    if items[0].path@ == p {
        assert(path_index(items, p, 0));
    } else {
        let rest = items.subrange(1, items.len() as int);
        assert(rest[k - 1] == items[k]);
        lemma_first_index(rest, p);
        let i = choose|i: int| path_index(rest, p, i);
        assert forall|j: int| 0 <= j < i + 1 implies items[j].path@ != p by {
            if j > 0 {
                assert(items[j] == rest[j - 1]);
            }
        }
        assert(path_index(items, p, i + 1));
    }
}

proof fn lemma_index_unique(items: Seq<FoundFile>, p: Seq<char>, i: int, j: int)
    requires
        path_index(items, p, i),
        path_index(items, p, j),
    ensures
        i == j,
{
}

/// A file joining a list whose paths are unique leaves them unique, keeps
/// every listed path at its place, and lists the file's path.
proof fn lemma_merge_one(items: Seq<FoundFile>, it: FoundFile, cache: Map<Seq<char>, Option<String>>)
    requires
        paths_unique(items),
    ensures
        paths_unique(merge_one(items, it, cache)),
        has_path(merge_one(items, it, cache), it.path@),
        merge_one(items, it, cache).len() >= items.len(),
        forall|i: int| 0 <= i < items.len() ==> (#[trigger] merge_one(items, it, cache)[i]).path@ == items[i].path@,
{
    let m = merge_one(items, it, cache);
    if !has_path(items, it.path@) {
        assert(m[items.len() as int].path@ == it.path@);
        assert forall|i: int, j: int| 0 <= i < j < m.len() implies m[i].path@ != m[j].path@ by {
            if j == items.len() {
                assert(m[i] == items[i]);
            } else {
                assert(m[i] == items[i] && m[j] == items[j]);
            }
        }
    } else {
        lemma_first_index(items, it.path@);
        let i = choose|i: int| path_index(items, it.path@, i);
        assert(m[i].path@ == it.path@);
        assert forall|a: int, b: int| 0 <= a < b < m.len() implies m[a].path@ != m[b].path@ by {
            assert(m[a].path@ == items[a].path@ && m[b].path@ == items[b].path@);
        }
    }
}

/// Found files joining a list whose paths are unique leave them unique,
/// keep every listed path, and list the path of each of them.
pub proof fn lemma_merge_keeps_paths_unique(
    items: Seq<FoundFile>,
    news: Seq<FoundFile>,
    cache: Map<Seq<char>, Option<String>>,
)
    requires
        paths_unique(items),
    ensures
        paths_unique(merge_all(items, news, cache)),
        forall|k: int| 0 <= k < news.len() ==> has_path(merge_all(items, news, cache), (#[trigger] news[k]).path@),
        forall|p: Seq<char>| has_path(items, p) ==> #[trigger] has_path(merge_all(items, news, cache), p),
    decreases news.len(),
{
    if news.len() > 0 {
        let m1 = merge_one(items, news[0], cache);
        let rest = news.subrange(1, news.len() as int);
        lemma_merge_one(items, news[0], cache);
        lemma_merge_keeps_paths_unique(m1, rest, cache);
        let r = merge_all(items, news, cache);
        assert forall|p: Seq<char>| has_path(items, p) implies #[trigger] has_path(r, p) by {
            let i = choose|i: int| 0 <= i < items.len() && items[i].path@ == p;
            assert(m1[i].path@ == p);
            assert(has_path(m1, p));
        }
        assert forall|k: int| 0 <= k < news.len() implies has_path(r, (#[trigger] news[k]).path@) by {
            if k == 0 {
            } else {
                assert(rest[k - 1] == news[k]);
            }
        }
    }
}

/// Thumbnail updates change no path.
pub proof fn lemma_updates_keep_paths(items: Seq<FoundFile>, ups: Seq<(String, String)>)
    ensures
        update_all(items, ups).len() == items.len(),
        forall|i: int| 0 <= i < items.len() ==> (#[trigger] update_all(items, ups)[i]).path@ == items[i].path@,
    decreases ups.len(),
{
    if ups.len() > 0 {
        if has_path(items, ups[0].0@) {
            lemma_first_index(items, ups[0].0@);
        }
        let u1 = update_thumb(items, ups[0].0@, ups[0].1);
        assert(u1.len() == items.len());
        lemma_updates_keep_paths(u1, ups.subrange(1, ups.len() as int));
        assert forall|i: int| 0 <= i < items.len() implies u1[i].path@ == items[i].path@ by {}
        assert forall|i: int| 0 <= i < items.len() implies (#[trigger] update_all(items, ups)[i]).path@
            == items[i].path@ by {
            assert(update_all(items, ups)[i].path@ == u1[i].path@);
        }
    }
}

/// The results of a scan: the files found, each path once.
pub struct ScanResults {
    pub items: Vec<FoundFile>,
}

fn find_path(items: &Vec<FoundFile>, p: &str) -> (r: Option<usize>)
    ensures
        match r {
            Some(i) => path_index(items@, p@, i as int),
            None => !has_path(items@, p@),
        },
{
    let mut i: usize = 0;
    while i < items.len()
        invariant
            i <= items@.len(),
            forall|j: int| 0 <= j < i ==> items@[j].path@ != p@,
        decreases items@.len() - i,
    {
        if str_eq(items[i].path.as_str(), p) {
            return Some(i);
        }
        i = i + 1;
    }
    None
}

impl ScanResults {
    /// Empty results.
    pub fn new() -> (r: Self)
        ensures
            r.items@.len() == 0,
    {
        ScanResults { items: Vec::new() }
    }

    /// Lets a found file join the results.
    pub fn merge_item(&mut self, it: &FoundFile, cache: &KeyedList<Option<String>>)
        ensures
            final(self).items@ == merge_one(old(self).items@, *it, cache@),
    {
        match find_path(&self.items, it.path.as_str()) {
            None => {
                self.items.push(it.duplicate());
            },
            Some(i) => {
                proof {
                    assert(has_path(old(self).items@, it.path@));
                    lemma_first_index(old(self).items@, it.path@);
                    let c = choose|c: int| path_index(old(self).items@, it.path@, c);
                    lemma_index_unique(old(self).items@, it.path@, c, i as int);
                }
                match cache.get(it.path.as_str()) {
                    Some(row) => {
                        if self.items[i].thumb_data.is_none() {
                            let mut f = self.items[i].duplicate();
                            f.thumb_data = crate::text::copy_opt(row);
                            self.items.set(i, f);
                        }
                    },
                    None => {},
                }
            },
        }
    }

    /// Gives the first file with path `p` the thumbnail `t`.
    pub fn update_thumbnail(&mut self, p: &str, t: &String)
        ensures
            final(self).items@ == update_thumb(old(self).items@, p@, *t),
    {
        match find_path(&self.items, p) {
            None => {},
            Some(i) => {
                proof {
                    assert(has_path(old(self).items@, p@));
                    lemma_first_index(old(self).items@, p@);
                    let c = choose|c: int| path_index(old(self).items@, p@, c);
                    lemma_index_unique(old(self).items@, p@, c, i as int);
                }
                let mut f = self.items[i].duplicate();
                f.thumb_data = Some(t.clone());
                self.items.set(i, f);
            },
        }
    }

    /// Ends a drain: the files found join the results, then the thumbnail
    /// updates apply; returns the latest progress to show.
    pub fn finish_cycle(&mut self, cycle: &ScanCycle, cache: &KeyedList<Option<String>>) -> (r: Option<(usize, usize)>)
        ensures
            final(self).items@ == update_all(
                merge_all(old(self).items@, cycle.new_items@, cache@),
                cycle.thumb_updates@,
            ),
            r == cycle.latest_progress,
            paths_unique(old(self).items@) ==> paths_unique(final(self).items@),
    {
        let mut k: usize = 0;
        assert(cycle.new_items@.skip(0) =~= cycle.new_items@);
        while k < cycle.new_items.len()
            invariant
                k <= cycle.new_items@.len(),
                merge_all(old(self).items@, cycle.new_items@, cache@) == merge_all(
                    self.items@,
                    cycle.new_items@.skip(k as int),
                    cache@,
                ),
            decreases cycle.new_items@.len() - k,
        {
            let ghost rest = cycle.new_items@.skip(k as int);
            assert(rest[0] == cycle.new_items@[k as int]);
            assert(rest.subrange(1, rest.len() as int) =~= cycle.new_items@.skip(k + 1));
            self.merge_item(&cycle.new_items[k], cache);
            k = k + 1;
        }
        let ghost merged = self.items@;
        assert(cycle.new_items@.skip(k as int).len() == 0);
        let mut u: usize = 0;
        assert(cycle.thumb_updates@.skip(0) =~= cycle.thumb_updates@);
        while u < cycle.thumb_updates.len()
            invariant
                u <= cycle.thumb_updates@.len(),
                update_all(merged, cycle.thumb_updates@) == update_all(
                    self.items@,
                    cycle.thumb_updates@.skip(u as int),
                ),
            decreases cycle.thumb_updates@.len() - u,
        {
            let ghost rest = cycle.thumb_updates@.skip(u as int);
            assert(rest[0] == cycle.thumb_updates@[u as int]);
            assert(rest.subrange(1, rest.len() as int) =~= cycle.thumb_updates@.skip(u + 1));
            self.update_thumbnail(cycle.thumb_updates[u].0.as_str(), &cycle.thumb_updates[u].1);
            u = u + 1;
        }
        assert(cycle.thumb_updates@.skip(u as int).len() == 0);
        proof {
            if paths_unique(old(self).items@) {
                lemma_merge_keeps_paths_unique(old(self).items@, cycle.new_items@, cache@);
                lemma_updates_keep_paths(merged, cycle.thumb_updates@);
                let f = self.items@;
                assert forall|i: int, j: int| 0 <= i < j < f.len() implies f[i].path@ != f[j].path@ by {
                    assert(f[i].path@ == merged[i].path@);
                    assert(f[j].path@ == merged[j].path@);
                }
            }
        }
        cycle.latest_progress
    }
}

fn contains_str(v: &Vec<String>, s: &str) -> (r: bool)
    ensures
        r == views(v@).contains(s@),
{
    let mut i: usize = 0;
    while i < v.len()
        invariant
            i <= v.len(),
            forall|j: int| 0 <= j < i ==> v@[j]@ != s@,
        decreases v.len() - i,
    {
        if str_eq(v[i].as_str(), s) {
            assert(views(v@)[i as int] == s@);
            return true;
        }
        i = i + 1;
    }
    assert forall|j: int| 0 <= j < views(v@).len() implies views(v@)[j] != s@ by {}
    false
}

} // verus!
