//! Which Windows sources are opened, in which order, and what is reported about
//! them.
//!
//! Opening a source is slow, so each tick opens at most one; the kinds of sources
//! take turns in being first.

use vstd::prelude::*;
use vstd::string::*;

use crate::engine_event;
use crate::engine_event::{send, EngineEvent};
use crate::id_map;
use crate::id_map::IdMap;
use crate::keyed_map::{KeyedMap, MapKey};
use crate::portal_captures;
use crate::portal_captures::elapsed_ns;
use crate::project;
use crate::project::Source;
use crate::text::same_text;

verus! {

/// What failed about a source.
#[derive(Clone, Copy, Debug, PartialEq, Eq, Structural)]
pub enum FailureKind {
    MediaOpen,
    MediaRead,
    Image,
    Display,
    Window,
}

/// A kind of failure of one source.
#[derive(Clone, Copy, Debug, PartialEq, Eq, Structural)]
pub struct FailureKey {
    pub source_id: u128,
    pub kind: FailureKind,
}

impl View for FailureKey {
    type V = FailureKey;

    open spec fn view(&self) -> FailureKey {
        *self
    }
}

impl MapKey for FailureKey {
    fn same_key(&self, other: &Self) -> (r: bool) {
        *self == *other
    }
}

/// The failures that were reported and not yet overcome.
pub struct FailureLog {
    entries: KeyedMap<FailureKey, String>,
}

impl View for FailureLog {
    type V = Map<FailureKey, Seq<char>>;

    closed spec fn view(&self) -> Map<FailureKey, Seq<char>> {
        self.entries@.map_values(|reason: String| reason@)
    }
}

/// Whether a failure is news: it was not the last one of its kind to be reported.
pub open spec fn is_news(log: Map<FailureKey, Seq<char>>, key: FailureKey, reason: Seq<char>) -> bool {
    !(log.dom().contains(key) && log[key] == reason)
}

/// The log after a failure.
pub open spec fn noted(
    log: Map<FailureKey, Seq<char>>,
    key: FailureKey,
    reason: Seq<char>,
) -> Map<FailureKey, Seq<char>> {
    if is_news(log, key, reason) {
        log.insert(key, reason)
    } else {
        log
    }
}

impl FailureLog {
    /// Each kind of failure of a source is listed once.
    pub closed spec fn wf(self) -> bool {
        self.entries.wf()
    }

    /// No failures yet.
    pub fn new() -> (r: Self)
        ensures
            r.wf(),
            r@ == Map::<FailureKey, Seq<char>>::empty(),
    {
        let r = FailureLog { entries: KeyedMap::new() };
        assert(r@ =~= Map::empty());
        r
    }

    /// Notes a failure; true where it is to be reported.
    pub fn should_report_failure(&mut self, source_id: u128, kind: FailureKind, reason: &str) -> (r:
        bool)
        requires
            old(self).wf(),
        ensures
            final(self).wf(),
            r == is_news(old(self)@, FailureKey { source_id, kind }, reason@),
            final(self)@ == noted(old(self)@, FailureKey { source_id, kind }, reason@),
    {
        let key = FailureKey { source_id, kind };
        let known = match self.entries.get(&key) {
            Some(last) => same_text(last.as_str(), reason),
            None => false,
        };
        if known {
            return false;
        }
        self.entries.insert(key, reason.to_owned());
        assert(self@ =~= old(self)@.insert(key, reason@));
        true
    }

    /// Forgets a failure: the next one of its kind is reported again.
    pub fn forget(&mut self, source_id: u128, kind: FailureKind)
        requires
            old(self).wf(),
        ensures
            final(self).wf(),
            final(self)@ == old(self)@.remove(FailureKey { source_id, kind }),
    {
        let key = FailureKey { source_id, kind };
        self.entries.remove(&key);
        assert(self@ =~= old(self)@.remove(key));
    }

    /// Forgets every failure.
    pub fn clear(&mut self)
        ensures
            final(self).wf(),
            final(self)@ == Map::<FailureKey, Seq<char>>::empty(),
    {
        self.entries.clear();
        assert(self@ =~= Map::empty());
    }
}

/// The same failure twice in a row is reported once; another reason, or the same
/// one after the failure was overcome, is reported again.
pub proof fn law_repeated_failure_is_silent(
    log: Map<FailureKey, Seq<char>>,
    key: FailureKey,
    first: Seq<char>,
    second: Seq<char>,
)
    ensures
        is_news(noted(log, key, first), key, second) <==> first != second,
        is_news(noted(log, key, first).remove(key), key, first),
{
}

/// A kind of sources that is synchronised together.
#[derive(Clone, Copy, Debug, PartialEq, Eq, Structural)]
pub enum SyncPass {
    Window,
    Display,
    Images,
    Media,
}

/// The passes of the first tick.
pub open spec fn base_order() -> Seq<SyncPass> {
    seq![SyncPass::Window, SyncPass::Display, SyncPass::Images, SyncPass::Media]
}

/// The passes of a tick: each tick begins one pass later than the one before.
pub open spec fn passes_of(tick: u32) -> Seq<SyncPass> {
    Seq::new(4, |i: int| base_order()[(tick as int + i) % 4])
}

/// The passes of a tick, in order.
pub fn sync_passes(tick: u32) -> (r: [SyncPass; 4])
    ensures
        r@ == passes_of(tick),
{
    let rotation: u32 = tick % 4;
    let r: [SyncPass; 4] = if rotation == 0 {
        [SyncPass::Window, SyncPass::Display, SyncPass::Images, SyncPass::Media]
    } else if rotation == 1 {
        [SyncPass::Display, SyncPass::Images, SyncPass::Media, SyncPass::Window]
    } else if rotation == 2 {
        [SyncPass::Images, SyncPass::Media, SyncPass::Window, SyncPass::Display]
    } else {
        [SyncPass::Media, SyncPass::Window, SyncPass::Display, SyncPass::Images]
    };
    assert(r@ =~= passes_of(tick)) by {
        let t = tick as int;
        assert((t + 0) % 4 == rotation);
        assert((t + 1) % 4 == (rotation + 1) % 4);
        assert((t + 2) % 4 == (rotation + 2) % 4);
        assert((t + 3) % 4 == (rotation + 3) % 4);
    }
    r
}

/// The tick after a tick; the counter wraps around.
pub open spec fn next_tick(tick: u32) -> u32 {
    ((tick + 1) % 0x1_0000_0000) as u32
}

/// Counting begins with the windows; then come the displays, the images and the media,
/// and each tick begins one further on.
pub proof fn law_passes_rotate(tick: u32)
    ensures
        tick % 4 == 0 ==> passes_of(tick) == seq![
            SyncPass::Window,
            SyncPass::Display,
            SyncPass::Images,
            SyncPass::Media,
        ],
        tick < u32::MAX ==> passes_of((tick + 1) as u32) == seq![
            passes_of(tick)[1],
            passes_of(tick)[2],
            passes_of(tick)[3],
            passes_of(tick)[0],
        ],
{
    let t = tick as int;
    assert((t + 1) % 4 == (t % 4 + 1) % 4);
    assert((t + 2) % 4 == (t % 4 + 2) % 4);
    assert((t + 3) % 4 == (t % 4 + 3) % 4);
    assert((t + 4) % 4 == t % 4);
    if t % 4 == 0 {
        assert(passes_of(tick) =~= seq![
            SyncPass::Window,
            SyncPass::Display,
            SyncPass::Images,
            SyncPass::Media,
        ]);
    }
    if tick < u32::MAX {
        let next = passes_of((tick + 1) as u32);
        assert(next[0] == base_order()[(t + 1) % 4]);
        assert(next[1] == base_order()[(t + 2) % 4]);
        assert(next[2] == base_order()[(t + 3) % 4]);
        assert(next[3] == base_order()[(t + 4) % 4]);
        assert(next =~= seq![
            passes_of(tick)[1],
            passes_of(tick)[2],
            passes_of(tick)[3],
            passes_of(tick)[0],
        ]);
    }
}

/// Every tick runs every pass once, and among four ticks in a row each pass is the
/// first one once.
pub proof fn law_passes_take_turns(tick: u32, pass: SyncPass)
    ensures
        passes_of(tick).no_duplicates(),
        passes_of(tick).contains(pass),
        ({
            let second = next_tick(tick);
            let third = next_tick(second);
            let fourth = next_tick(third);
            seq![
                passes_of(tick)[0],
                passes_of(second)[0],
                passes_of(third)[0],
                passes_of(fourth)[0],
            ] == passes_of(tick)
        }),
{
    let t = tick as int;
    let place: int = match pass {
        SyncPass::Window => 0,
        SyncPass::Display => 1,
        SyncPass::Images => 2,
        SyncPass::Media => 3,
    };
    let i = (place - t) % 4;
    assert((t + i) % 4 == place);
    assert(passes_of(tick)[i] == pass);
    let second = next_tick(tick);
    let third = next_tick(second);
    let fourth = next_tick(third);
    assert(second as int % 4 == (t + 1) % 4);
    assert(third as int % 4 == (t + 2) % 4);
    assert(fourth as int % 4 == (t + 3) % 4);
    assert(seq![
        passes_of(tick)[0],
        passes_of(second)[0],
        passes_of(third)[0],
        passes_of(fourth)[0],
    ] =~= passes_of(tick));
}

/// When sources are synchronised: once a second, and at once after the device was
/// rebuilt.
pub struct SyncClock {
    last: Option<u64>,
    tick: u32,
}

/// Nanoseconds between two ticks.
pub const SYNC_INTERVAL_NS: u64 = 1_000_000_000;

/// Whether a tick is due.
pub open spec fn is_due(clock: SyncClock, now: u64) -> bool {
    clock.last_run() is None || portal_captures::elapsed(now, clock.last_run()->0)
        >= SYNC_INTERVAL_NS
}

impl SyncClock {
    /// When the last tick ran; none where one is due at once.
    pub closed spec fn last_run(self) -> Option<u64> {
        self.last
    }

    /// The number of ticks so far, modulo 2^32.
    pub closed spec fn ticks(self) -> u32 {
        self.tick
    }

    /// The first tick is due at once.
    pub fn new() -> (r: Self)
        ensures
            r.last_run() is None,
            r.ticks() == 0,
    {
        SyncClock { last: None, tick: 0 }
    }

    /// Whether a tick is due.
    pub fn due(&self, now: u64) -> (r: bool)
        ensures
            r == is_due(*self, now),
    {
        match self.last {
            Some(last) => elapsed_ns(now, last) >= SYNC_INTERVAL_NS,
            None => true,
        }
    }

    /// Begins a tick and gives its passes in order.
    pub fn begin(&mut self) -> (r: [SyncPass; 4])
        ensures
            r@ == passes_of(old(self).ticks()),
            final(self).ticks() == next_tick(old(self).ticks()),
            final(self).last_run() == old(self).last_run(),
    {
        let passes = sync_passes(self.tick);
        self.tick = self.tick.wrapping_add(1);
        passes
    }

    /// Ends a tick.
    pub fn done(&mut self, now: u64)
        ensures
            final(self).last_run() == Some(now),
            final(self).ticks() == old(self).ticks(),
    {
        self.last = Some(now);
    }

    /// Makes a tick due at once.
    pub fn force(&mut self)
        ensures
            final(self).last_run() is None,
            final(self).ticks() == old(self).ticks(),
    {
        self.last = None;
    }
}

/// What a pass wants of a source: nothing, the source itself, or the source with a
/// file.
pub open spec fn wish_of(source: Source, pass: SyncPass) -> Option<Option<Seq<char>>> {
    match (source, pass) {
        (Source::Window { .. }, SyncPass::Window) => Some(None),
        (Source::Display { .. }, SyncPass::Display) => Some(None),
        (Source::Image { path, .. }, SyncPass::Images) => Some(Some(path@)),
        (Source::Media(media), SyncPass::Media) => Some(Some(media.path@)),
        _ => None,
    }
}

/// The sources that a pass wants, each with its file.
pub open spec fn wanted_of(sources: Seq<Source>, pass: SyncPass) -> Map<u128, Option<Seq<char>>>
    decreases sources.len(),
{
    if sources.len() == 0 {
        Map::empty()
    } else {
        let before = wanted_of(sources.drop_last(), pass);
        match wish_of(sources.last(), pass) {
            Some(path) => before.insert(project::id_of(sources.last()), path),
            None => before,
        }
    }
}

/// The ids of the sources that a pass wants, in the order of the project.
pub open spec fn wanted_order(sources: Seq<Source>, pass: SyncPass) -> Seq<u128>
    decreases sources.len(),
{
    if sources.len() == 0 {
        Seq::empty()
    } else {
        let before = wanted_order(sources.drop_last(), pass);
        let id = project::id_of(sources.last());
        if wish_of(sources.last(), pass) is Some && !wanted_of(
            sources.drop_last(),
            pass,
        ).dom().contains(id) {
            before.push(id)
        } else {
            before
        }
    }
}

/// What a list of wanted files says.
pub open spec fn paths_view(wanted: Map<u128, Option<String>>) -> Map<u128, Option<Seq<char>>> {
    wanted.map_values(|path: Option<String>| engine_event::text_view(path))
}

fn wish(source: &Source, pass: SyncPass) -> (r: Option<Option<String>>)
    ensures
        match r {
            Some(path) => wish_of(*source, pass) == Some(engine_event::text_view(path)),
            None => wish_of(*source, pass) is None,
        },
{
    match (source, pass) {
        (Source::Window { .. }, SyncPass::Window) => Some(None),
        (Source::Display { .. }, SyncPass::Display) => Some(None),
        (Source::Image { path, .. }, SyncPass::Images) => Some(Some(path.clone())),
        (Source::Media(media), SyncPass::Media) => Some(Some(media.path.clone())),
        _ => None,
    }
}

/// The sources that a pass wants.
pub fn wanted(sources: &Vec<Source>, pass: SyncPass) -> (r: IdMap<Option<String>>)
    ensures
        r.wf(),
        paths_view(r@) == wanted_of(sources@, pass),
        r.order() == wanted_order(sources@, pass),
{
    let mut r: IdMap<Option<String>> = IdMap::new();
    let mut i: usize = 0;
    proof {
        assert(paths_view(r@) =~= wanted_of(sources@.take(0), pass));
    }
    while i < sources.len()
        invariant
            i <= sources@.len(),
            r.wf(),
            paths_view(r@) == wanted_of(sources@.take(i as int), pass),
            r.order() == wanted_order(sources@.take(i as int), pass),
        decreases sources@.len() - i,
    {
        let ghost before = r@;
        proof {
            assert(sources@.take(i + 1).drop_last() =~= sources@.take(i as int));
            assert(before.dom() =~= paths_view(before).dom());
        }
        match wish(&sources[i], pass) {
            Some(path) => {
                let id: u128 = sources[i].id();
                r.insert(id, path);
                assert(paths_view(r@) =~= paths_view(before).insert(
                    id,
                    engine_event::text_view(path),
                ));
            },
            None => {},
        }
        i += 1;
    }
    assert(sources@.take(i as int) =~= sources@);
    r
}

/// Whether an entry survives: it stays as it was where the pass wants the source,
/// and is gone otherwise.
pub open spec fn retained_at<V>(
    before: Map<u128, V>,
    after: Map<u128, V>,
    wanted: Set<u128>,
    id: u128,
) -> bool {
    if wanted.contains(id) {
        id_map::agree(before, after, id)
    } else {
        !after.dom().contains(id)
    }
}

/// Drops the entries of sources that a pass no longer wants.
pub fn retain_wanted<V>(table: &mut IdMap<V>, wanted: &IdMap<Option<String>>)
    requires
        old(table).wf(),
        wanted.wf(),
    ensures
        final(table).wf(),
        forall|id: u128| #[trigger]
            retained_at(old(table)@, final(table)@, wanted@.dom(), id),
{
    let ghost before = table@;
    let keys = table.keys();
    proof {
        table.lemma_order();
    }
    let ghost order = keys@;
    let mut i: usize = 0;
    while i < keys.len()
        invariant
            i <= keys@.len(),
            keys@ == order,
            order.no_duplicates(),
            table.wf(),
            wanted.wf(),
            forall|id: u128| order.contains(id) <==> #[trigger] before.dom().contains(id),
            forall|id: u128| #[trigger]
                id_map::agree(before, table@, id) || (order.take(i as int).contains(id)
                    && !wanted@.dom().contains(id) && !table@.dom().contains(id)),
            forall|j: int|
                0 <= j < i && !wanted@.dom().contains(#[trigger] order[j])
                    ==> !table@.dom().contains(order[j]),
        decreases keys@.len() - i,
    {
        let id: u128 = keys[i];
        let ghost prior = table@;
        if !wanted.contains(id) {
            table.remove(id);
        }
        proof {
            assert forall|k: u128| #[trigger]
                id_map::agree(before, table@, k) || (order.take(i + 1).contains(k)
                    && !wanted@.dom().contains(k) && !table@.dom().contains(k)) by {
                assert(id_map::agree(before, prior, k) || order.take(i as int).contains(k));
                if order.take(i as int).contains(k) {
                    let j = order.take(i as int).index_of(k);
                    assert(order.take(i + 1)[j] == k);
                }
                if k == id {
                    assert(order.take(i + 1)[i as int] == k);
                }
            }
        }
        i += 1;
    }
    proof {
        assert forall|id: u128| #[trigger]
            retained_at(before, table@, wanted@.dom(), id) by {
            assert(id_map::agree(before, table@, id) || !wanted@.dom().contains(id));
            if !wanted@.dom().contains(id) {
                if before.dom().contains(id) {
                    assert(order.contains(id));
                    let j = order.index_of(id);
                    assert(order[j] == id);
                    assert(0 <= j < i);
                    assert(!wanted@.dom().contains(order[j]));
                    assert(!table@.dom().contains(id));
                } else {
                    assert(id_map::agree(before, table@, id) || !table@.dom().contains(id));
                }
                assert(!table@.dom().contains(id));
            }
        }
    }
}

/// An open source with the file that it was opened from.
pub struct Loaded<T> {
    pub path: Option<String>,
    pub value: T,
}

/// Whether a source is open with the wanted file.
pub open spec fn is_current<T>(
    table: Map<u128, Loaded<T>>,
    id: u128,
    path: Option<Seq<char>>,
) -> bool {
    table.dom().contains(id) && engine_event::text_view(table[id].path) == path
}

/// `i` is the place of the first wanted source that is not open with its file.
pub open spec fn is_first_missing<T>(
    table: Map<u128, Loaded<T>>,
    order: Seq<u128>,
    wanted: Map<u128, Option<Seq<char>>>,
    i: int,
) -> bool {
    &&& 0 <= i < order.len()
    &&& !is_current(table, order[i], wanted[order[i]])
    &&& forall|j: int|
        0 <= j < i ==> is_current(table, #[trigger] order[j], wanted[order[j]])
}

/// Whether every wanted source is open with its file.
pub open spec fn all_current<T>(
    table: Map<u128, Loaded<T>>,
    order: Seq<u128>,
    wanted: Map<u128, Option<Seq<char>>>,
) -> bool {
    forall|j: int|
        0 <= j < order.len() ==> is_current(table, #[trigger] order[j], wanted[order[j]])
}

fn same_path(a: &Option<String>, b: &Option<String>) -> (r: bool)
    ensures
        r == (engine_event::text_view(*a) == engine_event::text_view(*b)),
{
    match (a, b) {
        (Some(a), Some(b)) => same_text(a.as_str(), b.as_str()),
        (None, None) => true,
        _ => false,
    }
}

/// Where the search of a tick begins: one place further after every round of four
/// ticks, so that a source that cannot be opened does not keep the others waiting.
pub open spec fn search_start(tick: u32, count: nat) -> int {
    if count == 0 {
        0
    } else {
        (tick as int / 4) % (count as int)
    }
}

/// The wanted sources in the order in which a tick looks at them.
pub open spec fn search_order(order: Seq<u128>, tick: u32) -> Seq<u128> {
    order.skip(search_start(tick, order.len())) + order.take(search_start(tick, order.len()))
}

/// The source that a pass opens in this tick: the first missing one from the tick's
/// place on, as long as nothing else was opened in the tick.
pub fn next_creation<T>(
    table: &IdMap<Loaded<T>>,
    wanted: &IdMap<Option<String>>,
    creations: u32,
    tick: u32,
) -> (r: Option<u128>)
    requires
        table.wf(),
        wanted.wf(),
    ensures
        match r {
            Some(id) => {
                &&& creations == 0
                &&& exists|i: int| #[trigger]
                    is_first_missing(
                        table@,
                        search_order(wanted.order(), tick),
                        paths_view(wanted@),
                        i,
                    ) && id == search_order(wanted.order(), tick)[i]
            },
            None => creations > 0 || all_current(table@, wanted.order(), paths_view(wanted@)),
        },
{
    if creations > 0 {
        return None;
    }
    let keys = wanted.keys();
    let count: usize = keys.len();
    if count == 0 {
        return None;
    }
    let start: usize = (tick as u64 / 4 % count as u64) as usize;
    let ghost order = search_order(wanted.order(), tick);
    let mut i: usize = 0;
    proof {
        wanted.lemma_order();
        assert(start == search_start(tick, count as nat));
        assert(order.len() == count);
    }
    while i < count
        invariant
            i <= count,
            count == keys@.len(),
            start < count,
            start == search_start(tick, count as nat),
            keys@ == wanted.order(),
            order == search_order(wanted.order(), tick),
            order.len() == count,
            table.wf(),
            wanted.wf(),
            creations == 0,
            forall|j: int|
                0 <= j < keys@.len() ==> wanted@.dom().contains(#[trigger] wanted.order()[j]),
            forall|j: int|
                0 <= j < i ==> is_current(
                    table@,
                    #[trigger] order[j],
                    paths_view(wanted@)[order[j]],
                ),
        decreases count - i,
    {
        let at: usize = if i < count - start {
            start + i
        } else {
            i - (count - start)
        };
        let id: u128 = keys[at];
        assert(order[i as int] == id);
        let current = match (table.get(id), wanted.get(id)) {
            (Some(loaded), Some(path)) => same_path(&loaded.path, path),
            _ => false,
        };
        if !current {
            assert(wanted@.dom().contains(wanted.order()[at as int]));
            assert(is_first_missing(table@, order, paths_view(wanted@), i as int));
            return Some(id);
        }
        assert(wanted@.dom().contains(wanted.order()[at as int]));
        i += 1;
    }
    proof {
        let all = wanted.order();
        assert forall|j: int| 0 <= j < all.len() implies is_current(
            table@,
            #[trigger] all[j],
            paths_view(wanted@)[all[j]],
        ) by {
            let k = if j >= start {
                j - start
            } else {
                j + (count - start)
            };
            assert(order[k] == all[j]);
        }
    }
    None
}

/// The sources are looked at once a second; before the first time they are due at once.
pub proof fn law_sources_are_looked_at_every_second(clock: SyncClock, now: u64)
    ensures
        clock.last_run() is None ==> is_due(clock, now),
        clock.last_run() matches Some(last) ==> (is_due(clock, now) <==> now >= last
            + 1_000_000_000),
{
}

/// Each pass looks after one kind of source: windows, displays, images and media, the
/// last two by their files.
pub proof fn law_each_pass_has_its_sources(source: Source, pass: SyncPass)
    ensures
        match source {
            Source::Window { .. } => wish_of(source, pass) is Some <==> pass == SyncPass::Window,
            Source::Display { .. } => wish_of(source, pass) is Some <==> pass == SyncPass::Display,
            Source::Image { path, .. } => {
                &&& wish_of(source, pass) is Some <==> pass == SyncPass::Images
                &&& wish_of(source, SyncPass::Images) == Some(Some(path@))
            },
            Source::Media(media) => {
                &&& wish_of(source, pass) is Some <==> pass == SyncPass::Media
                &&& wish_of(source, SyncPass::Media) == Some(Some(media.path@))
            },
            Source::Text(_) => wish_of(source, pass) is None,
            Source::ApplicationAudio { .. } => wish_of(source, pass) is None,
        },
{
}

/// Every source of a pass's kind is wanted, with its file; of several with one id the
/// last decides.
pub proof fn law_every_source_of_the_kind_is_wanted(sources: Seq<Source>, pass: SyncPass, i: int)
    requires
        0 <= i < sources.len(),
        wish_of(sources[i], pass) is Some,
        forall|j: int|
            i < j < sources.len() && project::id_of(#[trigger] sources[j]) == project::id_of(
                sources[i],
            ) ==> wish_of(sources[j], pass) is None,
    ensures
        ({
            let wanted = wanted_of(sources, pass);
            let id = project::id_of(sources[i]);
            wanted.dom().contains(id) && Some(wanted[id]) == wish_of(sources[i], pass)
        }),
    decreases sources.len(),
{
    if i < sources.len() - 1 {
        let last = sources[sources.len() - 1];
        assert(project::id_of(last) == project::id_of(sources[i]) ==> wish_of(last, pass) is None);
        let before = sources.drop_last();
        assert forall|j: int|
            i < j < before.len() && project::id_of(#[trigger] before[j]) == project::id_of(
                before[i],
            ) implies wish_of(before[j], pass) is None by {
            assert(before[j] == sources[j]);
        }
        law_every_source_of_the_kind_is_wanted(before, pass, i);
    }
}

/// Nothing is wanted that no source of the kind has.
pub proof fn law_only_sources_of_the_kind_are_wanted(sources: Seq<Source>, pass: SyncPass, id: u128)
    requires
        forall|j: int|
            0 <= j < sources.len() && project::id_of(#[trigger] sources[j]) == id ==> wish_of(
                sources[j],
                pass,
            ) is None,
    ensures
        !wanted_of(sources, pass).dom().contains(id),
        !wanted_order(sources, pass).contains(id),
    decreases sources.len(),
{
    if sources.len() > 0 {
        let before = sources.drop_last();
        assert(sources.last() == sources[sources.len() - 1]);
        assert forall|j: int|
            0 <= j < before.len() && project::id_of(#[trigger] before[j]) == id implies wish_of(
            before[j],
            pass,
        ) is None by {
            assert(before[j] == sources[j]);
        }
        law_only_sources_of_the_kind_are_wanted(before, pass, id);
        let earlier = wanted_order(before, pass);
        let all = wanted_order(sources, pass);
        if all.contains(id) {
            let k = choose|k: int| 0 <= k < all.len() && all[k] == id;
            if k < earlier.len() {
                assert(earlier[k] == id);
            }
        }
    }
}

/// What is wanted is looked at in the order of the sources, each id once.
pub proof fn law_wanted_sources_are_listed_once(sources: Seq<Source>, pass: SyncPass)
    ensures
        wanted_order(sources, pass).no_duplicates(),
        forall|id: u128| #[trigger]
            wanted_of(sources, pass).dom().contains(id) <==> wanted_order(sources, pass).contains(
                id,
            ),
    decreases sources.len(),
{
    if sources.len() > 0 {
        law_wanted_sources_are_listed_once(sources.drop_last(), pass);
        let before = wanted_order(sources.drop_last(), pass);
        let all = wanted_order(sources, pass);
        let last = project::id_of(sources.last());
        assert forall|id: u128| #[trigger]
            wanted_of(sources, pass).dom().contains(id) <==> all.contains(id) by {
            if before.contains(id) {
                let k = choose|k: int| 0 <= k < before.len() && before[k] == id;
                assert(all[k] == id);
            }
            if all.contains(id) {
                let k = choose|k: int| 0 <= k < all.len() && all[k] == id;
                if k < before.len() {
                    assert(before[k] == id);
                }
            }
            if all.len() > before.len() {
                assert(all[all.len() - 1] == last);
            }
            assert(wanted_of(sources.drop_last(), pass).dom().contains(id) <==> before.contains(
                id,
            ));
        }
        assert(wanted_of(sources.drop_last(), pass).dom().contains(last) <==> before.contains(
            last,
        ));
    }
}

/// A source is opened anew exactly where it is not open, or open on another file.
pub proof fn law_source_is_current_on_its_file<T>(
    table: Map<u128, Loaded<T>>,
    id: u128,
    path: Option<Seq<char>>,
)
    ensures
        !table.dom().contains(id) ==> !is_current(table, id, path),
        table.dom().contains(id) ==> (is_current(table, id, path) <==> (match table[id].path {
            Some(open) => path == Some(open@),
            None => path is None,
        })),
{
}

/// A failure is told under the kind of its pass: of media as not supported, of anything
/// else as not available, each with its reason.
pub proof fn law_failure_is_told_by_its_kind(pass: SyncPass, id: u128, reason: Seq<char>)
    ensures
        failure_event(pass, id, reason) == (engine_event::EventView::UnsupportedMedia {
            source_id: id,
            reason,
        }) <==> pass == SyncPass::Media,
        failure_event(pass, id, reason) == (engine_event::EventView::SourceUnavailable {
            source_id: id,
            reason,
        }) <==> pass != SyncPass::Media,
        failure_kind(SyncPass::Window) == FailureKind::Window,
        failure_kind(SyncPass::Display) == FailureKind::Display,
        failure_kind(SyncPass::Images) == FailureKind::Image,
        failure_kind(SyncPass::Media) == FailureKind::MediaOpen,
{
}

/// The log has the last reason of each failure: after it was noted the same reason is no
/// news, any other is, and no other failure is touched.
pub proof fn law_log_has_the_last_reason(
    log: Map<FailureKey, Seq<char>>,
    key: FailureKey,
    reason: Seq<char>,
    other: Seq<char>,
    elsewhere: FailureKey,
)
    ensures
        noted(log, key, reason).dom().contains(key) && noted(log, key, reason)[key] == reason,
        !is_news(noted(log, key, reason), key, reason),
        other != reason ==> is_news(noted(log, key, reason), key, other),
        !log.dom().contains(key) ==> is_news(log, key, reason),
        elsewhere != key ==> (noted(log, key, reason).dom().contains(elsewhere)
            <==> log.dom().contains(elsewhere)) && noted(log, key, reason)[elsewhere]
            == log[elsewhere],
{
}

/// No source waits for ever behind one that cannot be opened: among as many rounds of
/// four ticks as there are wanted sources, each missing one is the first that is looked
/// at, and then it is the one that is opened.
pub proof fn law_every_missing_source_has_its_turn<T>(
    table: Map<u128, Loaded<T>>,
    order: Seq<u128>,
    wanted: Map<u128, Option<Seq<char>>>,
    k: int,
    tick: u32,
    i: int,
)
    requires
        0 <= k < order.len(),
        !is_current(table, order[k], wanted[order[k]]),
        search_start(tick, order.len()) == k,
        is_first_missing(table, search_order(order, tick), wanted, i),
    ensures
        search_order(order, tick)[i] == order[k],
{
    assert(search_order(order, tick)[0] == order[k]);
}

/// The place where the search begins moves on by one with every round of four ticks.
pub proof fn law_search_moves_on(tick: u32, count: nat)
    requires
        count > 0,
        tick <= u32::MAX - 4,
    ensures
        search_start((tick + 4) as u32, count) == (search_start(tick, count) + 1) % (count as int),
{
    let round = tick as int / 4;
    assert((tick + 4) / 4 == round + 1);
    vstd::arithmetic::div_mod::lemma_add_mod_noop(round, 1, count as int);
    vstd::arithmetic::div_mod::lemma_mod_twice(round, count as int);
    vstd::arithmetic::div_mod::lemma_add_mod_noop(round % (count as int), 1, count as int);
}

/// The failure that a pass reports.
pub open spec fn failure_kind(pass: SyncPass) -> FailureKind {
    match pass {
        SyncPass::Window => FailureKind::Window,
        SyncPass::Display => FailureKind::Display,
        SyncPass::Images => FailureKind::Image,
        SyncPass::Media => FailureKind::MediaOpen,
    }
}

/// What is told when a source could not be opened.
pub open spec fn failure_event(pass: SyncPass, source_id: u128, reason: Seq<char>) ->
    engine_event::EventView {
    if pass == SyncPass::Media {
        engine_event::EventView::UnsupportedMedia { source_id, reason }
    } else {
        engine_event::EventView::SourceUnavailable { source_id, reason }
    }
}

/// Takes the result of opening a source. A failure is reported once, and the
/// source is tried again in a later tick.
pub fn on_created<T>(
    table: &mut IdMap<Loaded<T>>,
    pass: SyncPass,
    id: u128,
    path: Option<String>,
    result: Result<T, String>,
    creations: &mut u32,
    failures: &mut FailureLog,
    events: &mut Vec<EngineEvent>,
)
    requires
        old(table).wf(),
        old(failures).wf(),
        *old(creations) < u32::MAX,
    ensures
        final(table).wf(),
        final(failures).wf(),
        *final(creations) == *old(creations) + 1,
        ({
            let key = FailureKey { source_id: id, kind: failure_kind(pass) };
            match result {
                Ok(value) => {
                    &&& final(table)@ == old(table)@.insert(id, Loaded { path, value })
                    &&& final(failures)@ == old(failures)@.remove(key)
                    &&& engine_event::events_view(final(events)@) == engine_event::events_view(
                        old(events)@,
                    ).push(engine_event::EventView::SourceAvailable { source_id: id })
                },
                Err(reason) => {
                    &&& final(table)@ == old(table)@
                    &&& final(failures)@ == noted(old(failures)@, key, reason@)
                    &&& engine_event::events_view(final(events)@) == (if is_news(
                        old(failures)@,
                        key,
                        reason@,
                    ) {
                        engine_event::events_view(old(events)@).push(
                            failure_event(pass, id, reason@),
                        )
                    } else {
                        engine_event::events_view(old(events)@)
                    })
                },
            }
        }),
{
    *creations = *creations + 1;
    let kind = match pass {
        SyncPass::Window => FailureKind::Window,
        SyncPass::Display => FailureKind::Display,
        SyncPass::Images => FailureKind::Image,
        SyncPass::Media => FailureKind::MediaOpen,
    };
    match result {
        Ok(value) => {
            table.insert(id, Loaded { path, value });
            failures.forget(id, kind);
            send(events, EngineEvent::SourceAvailable { source_id: id });
        },
        Err(reason) => {
            if failures.should_report_failure(id, kind, reason.as_str()) {
                if pass == SyncPass::Media {
                    send(events, EngineEvent::UnsupportedMedia { source_id: id, reason });
                } else {
                    send(events, EngineEvent::SourceUnavailable { source_id: id, reason });
                }
            }
        },
    }
}

/// A source that was opened is not opened again while its file stays the same.
pub proof fn law_open_source_is_kept<T>(
    table: Map<u128, Loaded<T>>,
    id: u128,
    path: Option<String>,
    value: T,
    order: Seq<u128>,
    wanted: Map<u128, Option<Seq<char>>>,
    i: int,
)
    requires
        wanted.dom().contains(id),
        wanted[id] == engine_event::text_view(path),
        is_first_missing(table.insert(id, Loaded { path, value }), order, wanted, i),
    ensures
        order[i] != id,
{
}

} // verus!
