//! The registry behind a style provider: which generators are registered,
//! which identifier range each one owns, and the stylesheet they produce
//! together for the current theme.
use std::collections::BTreeMap;
use vstd::prelude::*;
use vstd::string::StringExecFns;

use crate::{StyleGenerator, Theme};

verus! {

broadcast use vstd::std_specs::btree::group_btree_axioms;

/// Why the registry gave up. Each of these is a broken promise of a
/// generator; after one, the registry refuses all further work.
#[derive(Debug, Clone, Copy, PartialEq, Eq)]
pub enum StyleError {
    /// Run again from `start`, a generator left the counter at `actual`
    /// instead of the `expected` value that its first run reached.
    CounterMismatch { start: u64, expected: u64, actual: u64 },
    /// On its first run a generator moved the counter back from `start` to
    /// `actual`.
    CounterMovedBack { start: u64, actual: u64 },
    /// An earlier error left the registry unusable.
    Poisoned,
}

/// The answer to a registration: the first identifier of the generator's
/// range, and whether the stylesheet changed, so that the mount target must
/// be given the new text.
#[derive(Debug, Clone, Copy, PartialEq, Eq)]
pub struct Registration {
    pub start: u64,
    pub flushed: bool,
}

/// A registered generator and the identifier range `[start, stop)` that its
/// first run took from the counter.
pub struct Updater<G> {
    pub updater: G,
    pub key: u64,
    pub start: u64,
    pub stop: u64,
}

/// The text that the generator of `u` writes on `theme` from its own start.
pub open spec fn replay_text<T, G: StyleGenerator<T>>(u: Updater<G>, theme: T) -> Seq<char> {
    u.updater.output(theme, u.start).0@
}

/// Where the generator of `u`, run on `theme` from its own start, leaves the
/// counter.
pub open spec fn replay_stop<T, G: StyleGenerator<T>>(u: Updater<G>, theme: T) -> u64 {
    u.updater.output(theme, u.start).1
}

/// The answer to replaying `u` on `theme`: success when the counter ends at
/// the recorded stop, and otherwise the mismatch.
pub open spec fn replay_result<T, G: StyleGenerator<T>>(u: Updater<G>, theme: T) -> Result<(), StyleError> {
    if replay_stop(u, theme) == u.stop {
        Ok(())
    } else {
        Err(StyleError::CounterMismatch { start: u.start, expected: u.stop, actual: replay_stop(u, theme) })
    }
}

/// The stylesheet that a full rebuild of `records` on `theme` produces: each
/// generator's text from its own start, laid end to end in registration
/// order.
pub open spec fn rebuilt<T, G: StyleGenerator<T>>(records: Seq<Updater<G>>, theme: T) -> Seq<char>
    decreases records.len(),
{
    if records.len() == 0 {
        Seq::empty()
    } else {
        rebuilt(records.drop_last(), theme) + replay_text(records.last(), theme)
    }
}

/// Every generator of `records`, run on `theme` from its own start, leaves
/// the counter at its own stop.
pub open spec fn replays<T, G: StyleGenerator<T>>(records: Seq<Updater<G>>, theme: T) -> bool {
    forall|i: int| 0 <= i < records.len() ==> replay_stop(#[trigger] records[i], theme) == records[i].stop
}

/// `k` is the first position of `records` whose generator, run on `theme`,
/// does not leave the counter at its own stop.
pub open spec fn first_mismatch<T, G: StyleGenerator<T>>(records: Seq<Updater<G>>, theme: T, k: int) -> bool {
    &&& 0 <= k < records.len()
    &&& replay_stop(records[k], theme) != records[k].stop
    &&& forall|j: int| 0 <= j < k ==> replay_stop(#[trigger] records[j], theme) == records[j].stop
}

/// The error of a rebuild of `records` on `theme` that fails: the mismatch
/// of the first generator that does not replay.
pub open spec fn rebuild_error<T, G: StyleGenerator<T>>(records: Seq<Updater<G>>, theme: T) -> StyleError {
    let k = choose|k: int| first_mismatch(records, theme, k);
    StyleError::CounterMismatch {
        start: records[k].start,
        expected: records[k].stop,
        actual: replay_stop(records[k], theme),
    }
}

impl<G> Updater<G> {
    /// Runs the generator again on `theme` from its own `start`, appending its
    /// text to `css`. Fails when the counter does not end at the recorded
    /// `stop`.
    pub fn update<T>(&self, theme: &T, css: &mut String) -> (r: Result<(), StyleError>) where
        G: StyleGenerator<T>,
        ensures
            final(css)@ == old(css)@ + replay_text(*self, *theme),
            r == replay_result(*self, *theme),
    {
        let (text, stop) = run_generator(&self.updater, theme, self.start);
        css.append(text.as_str());
        if stop == self.stop {
            Ok(())
        } else {
            Err(StyleError::CounterMismatch { start: self.start, expected: self.stop, actual: stop })
        }
    }
}

/// The state behind a style provider: the current theme, the registered
/// generators in registration order, the index from generator key to
/// position, the identifier counter, and the stylesheet text.
pub struct Inner<T, G> {
    current_theme: T,
    current_style: String,
    updaters: Vec<Updater<G>>,
    updater_to_idx: BTreeMap<u64, usize>,
    counter: u64,
    poisoned: bool,
}

impl<T, G> Inner<T, G> {
    /// The theme that the stylesheet is generated from.
    pub closed spec fn theme(&self) -> T {
        self.current_theme
    }

    /// The stylesheet text.
    pub closed spec fn text(&self) -> Seq<char> {
        self.current_style@
    }

    /// The registered generators with their ranges, in registration order.
    pub closed spec fn records(&self) -> Seq<Updater<G>> {
        self.updaters@
    }

    /// The next identifier that a new generator would start from.
    pub closed spec fn next_id(&self) -> u64 {
        self.counter
    }

    /// Whether an earlier error has made the registry refuse all work.
    pub closed spec fn poisoned(&self) -> bool {
        self.poisoned
    }

    /// Whether a generator is registered under `key`.
    pub open spec fn has_key(&self, key: u64) -> bool {
        exists|i: int| 0 <= i < self.records().len() && #[trigger] self.records()[i].key == key
    }

    /// The first identifier of the range of the generator registered under
    /// `key`.
    pub open spec fn start_of(&self, key: u64) -> u64 {
        let i = choose|i: int| 0 <= i < self.records().len() && #[trigger] self.records()[i].key == key;
        self.records()[i].start
    }

    /// The part of the invariant that does not depend on the theme or the
    /// text: unique indexed keys, and ordered disjoint ranges below the
    /// counter.
    pub closed spec fn structure_ok(&self) -> bool {
        let ups = self.updaters@;
        let idx = self.updater_to_idx@;
        &&& forall|i: int| 0 <= i < ups.len() ==> #[trigger] ups[i].start <= ups[i].stop <= self.counter
        &&& forall|i: int, j: int| 0 <= i < j < ups.len() ==> #[trigger] ups[i].stop <= #[trigger] ups[j].start
        &&& forall|i: int, j: int| 0 <= i < j < ups.len() ==> #[trigger] ups[i].key != #[trigger] ups[j].key
        &&& forall|k: u64| #[trigger] idx.contains_key(k) ==> idx[k] < ups.len() && ups[idx[k] as int].key == k
        &&& forall|i: int| 0 <= i < ups.len() ==> #[trigger] idx.contains_key(ups[i].key)
    }

    /// The stylesheet text, which the mount target is to show.
    pub fn stylesheet(&self) -> (r: &str)
        ensures
            r@ == self.text(),
    {
        self.current_style.as_str()
    }

    /// The theme that the stylesheet is generated from.
    pub fn current_theme(&self) -> (r: &T)
        ensures
            *r == self.theme(),
    {
        &self.current_theme
    }

    /// The next identifier that a new generator would start from.
    pub fn counter(&self) -> (r: u64)
        ensures
            r == self.next_id(),
    {
        self.counter
    }

    /// Whether an earlier error has made the registry refuse all work.
    pub fn is_poisoned(&self) -> (r: bool)
        ensures
            r == self.poisoned(),
    {
        self.poisoned
    }

    /// The registered generators with their ranges, in registration order.
    pub fn updaters(&self) -> (r: &Vec<Updater<G>>)
        ensures
            r@ == self.records(),
    {
        &self.updaters
    }

}

impl<T, G: StyleGenerator<T>> Inner<T, G> {
    /// The registry's invariant: the structure holds and, unless poisoned,
    /// the stylesheet is a full rebuild of the records on the current theme,
    /// every one of which replays to its own stop.
    pub closed spec fn wf(&self) -> bool {
        &&& self.structure_ok()
        &&& !self.poisoned ==> self.current_style@ == rebuilt(self.updaters@, self.current_theme)
        &&& !self.poisoned ==> replays(self.updaters@, self.current_theme)
    }

    /// A registry with no generators, an empty stylesheet and the counter at
    /// zero.
    pub fn new(theme: T) -> (r: Self)
        ensures
            r.wf(),
            r.theme() == theme,
            r.text() == Seq::<char>::empty(),
            r.records() == Seq::<Updater<G>>::empty(),
            r.next_id() == 0,
            !r.poisoned(),
    {
        Inner {
            current_theme: theme,
            current_style: String::new(),
            updaters: Vec::new(),
            updater_to_idx: BTreeMap::new(),
            counter: 0,
            poisoned: false,
        }
    }

    /// What registering `updater` under `key` does to the registry `pre`,
    /// leaving `post` and answering `r`. A poisoned registry refuses. A key
    /// that is already registered gets its recorded start back, and nothing
    /// changes. A new key has its generator run once on the current theme
    /// from the counter: its text is appended to the stylesheet and its range
    /// is recorded, unless it moved the counter back, which poisons the
    /// registry.
    pub open spec fn register_post(
        pre: Self,
        post: Self,
        key: u64,
        updater: G,
        r: Result<Registration, StyleError>,
    ) -> bool {
        if pre.poisoned() {
            r == Err::<Registration, StyleError>(StyleError::Poisoned) && post == pre
        } else if pre.has_key(key) {
            r == Ok::<Registration, StyleError>(Registration { start: pre.start_of(key), flushed: false })
                && post == pre
        } else {
            let (text, stop) = updater.output(pre.theme(), pre.next_id());
            &&& post.theme() == pre.theme()
            &&& if stop < pre.next_id() {
                &&& r == Err::<Registration, StyleError>(
                    StyleError::CounterMovedBack { start: pre.next_id(), actual: stop },
                )
                &&& post.poisoned()
                &&& post.records() == pre.records()
                &&& post.text() == pre.text()
                &&& post.next_id() == pre.next_id()
            } else {
                &&& r == Ok::<Registration, StyleError>(Registration { start: pre.next_id(), flushed: true })
                &&& !post.poisoned()
                &&& post.records() == pre.records().push(
                    Updater { updater, key, start: pre.next_id(), stop },
                )
                &&& post.text() == pre.text() + text@
                &&& post.next_id() == stop
            }
        }
    }

    /// What a full rebuild on `theme` does to the registry `pre`, leaving
    /// `post` and answering `r`. The registered generators are run again in
    /// registration order, each on `theme` from its own start. If every one
    /// leaves the counter at its own stop, the stylesheet becomes their texts
    /// in registration order; otherwise the answer is the first mismatch and
    /// the registry is poisoned. The theme becomes `theme`; the records and
    /// the counter stay as they were.
    pub open spec fn rebuild_post(pre: Self, theme: T, post: Self, r: Result<(), StyleError>) -> bool {
        &&& post.theme() == theme
        &&& post.records() == pre.records()
        &&& post.next_id() == pre.next_id()
        &&& if replays(pre.records(), theme) {
            &&& r == Ok::<(), StyleError>(())
            &&& !post.poisoned()
            &&& post.text() == rebuilt(pre.records(), theme)
        } else {
            &&& r == Err::<(), StyleError>(rebuild_error(pre.records(), theme))
            &&& post.poisoned()
        }
    }

    /// What a change of theme does to the registry `pre`, leaving `post` and
    /// answering `r`, given whether the theme's own comparison found `theme`
    /// `unchanged`. A poisoned registry refuses; an unchanged theme is
    /// dropped and nothing changes (`Ok(false)`); otherwise `theme` becomes
    /// current and the stylesheet is rebuilt (`Ok(true)` when the rebuild
    /// succeeds).
    pub open spec fn theme_post(
        pre: Self,
        post: Self,
        theme: T,
        unchanged: bool,
        r: Result<bool, StyleError>,
    ) -> bool {
        if pre.poisoned() {
            r == Err::<bool, StyleError>(StyleError::Poisoned) && post == pre
        } else if unchanged {
            r == Ok::<bool, StyleError>(false) && post == pre
        } else {
            &&& r == if replays(pre.records(), theme) {
                Ok::<bool, StyleError>(true)
            } else {
                Err::<bool, StyleError>(rebuild_error(pre.records(), theme))
            }
            &&& Self::rebuild_post(
                pre,
                theme,
                post,
                if replays(pre.records(), theme) {
                    Ok::<(), StyleError>(())
                } else {
                    Err::<(), StyleError>(rebuild_error(pre.records(), theme))
                },
            )
        }
    }

    /// Registers `updater` under `key`, the identity of the generator, and
    /// returns the first identifier of its range (see `register_post`).
    pub fn add_updater(&mut self, key: u64, updater: G) -> (r: Result<Registration, StyleError>)
        requires
            old(self).wf(),
        ensures
            final(self).wf(),
            Self::register_post(*old(self), *final(self), key, updater, r),
    {
        if self.poisoned {
            return Err(StyleError::Poisoned);
        }
        match self.updater_to_idx.get(&key) {
            Some(idx) => {
                let idx = *idx;
                proof {
                    let i = choose|i: int|
                        0 <= i < self.records().len() && #[trigger] self.records()[i].key == key;
                    assert(self.records()[idx as int].key == key);
                    if i != idx as int {
                        assert(self.updaters@[i].key != self.updaters@[idx as int].key);
                    }
                }
                return Ok(Registration { start: self.updaters[idx].start, flushed: false });
            },
            None => {},
        }
        assert(!self.has_key(key)) by {
            if self.has_key(key) {
                let i = choose|i: int|
                    0 <= i < self.records().len() && #[trigger] self.records()[i].key == key;
                assert(self.updater_to_idx@.contains_key(self.updaters@[i].key));
            }
        }
        let ghost pre = *self;
        let start = self.counter;
        let (text, stop) = run_generator(&updater, &self.current_theme, start);
        if stop < start {
            self.poisoned = true;
            return Err(StyleError::CounterMovedBack { start, actual: stop });
        }
        self.current_style.append(text.as_str());
        self.counter = stop;
        let idx = self.updaters.len();
        self.updater_to_idx.insert(key, idx);
        self.updaters.push(Updater { updater, key, start, stop });
        proof {
            let ups = self.updaters@;
            assert(ups.drop_last() =~= pre.updaters@);
            assert forall|i: int, j: int| 0 <= i < j < ups.len() implies #[trigger] ups[i].stop
                <= #[trigger] ups[j].start by {
                assert(pre.updaters@[i].start <= pre.updaters@[i].stop <= pre.counter);
            }
        }
        Ok(Registration { start, flushed: true })
    }

    /// Rebuilds the stylesheet from scratch on the current theme (see
    /// `rebuild_post`).
    pub fn update(&mut self) -> (r: Result<(), StyleError>)
        requires
            old(self).structure_ok(),
            !old(self).poisoned(),
        ensures
            final(self).wf(),
            Self::rebuild_post(*old(self), old(self).theme(), *final(self), r),
    {
        let ghost pre = *self;
        let ghost ups = self.updaters@;
        let ghost theme = self.current_theme;
        let mut css = String::new();
        let mut i: usize = 0;
        while i < self.updaters.len()
            invariant
                pre == *old(self),
                *self == pre,
                ups == self.updaters@,
                theme == self.current_theme,
                pre.structure_ok(),
                i <= ups.len(),
                css@ == rebuilt(ups.take(i as int), theme),
                forall|j: int| 0 <= j < i ==> replay_stop(#[trigger] ups[j], theme) == ups[j].stop,
            decreases ups.len() - i,
        {
            let result = self.updaters[i].update(&self.current_theme, &mut css);
            proof {
                assert(ups.take(i + 1).drop_last() =~= ups.take(i as int));
            }
            match result {
                Ok(()) => {
                    i = i + 1;
                },
                Err(e) => {
                    proof {
                        assert(first_mismatch(ups, theme, i as int));
                        let k = choose|k: int| first_mismatch(ups, theme, k);
                        if k < i {
                            assert(replay_stop(ups[k], theme) == ups[k].stop);
                        } else if k > i {
                            assert(replay_stop(ups[i as int], theme) == ups[i as int].stop);
                        }
                        assert(!replays(ups, theme));
                    }
                    self.poisoned = true;
                    self.current_style = css;
                    return Err(e);
                },
            }
        }
        proof {
            assert(ups.take(ups.len() as int) =~= ups);
        }
        self.current_style = css;
        Ok(())
    }

    /// Puts `theme` in place of the current theme and rebuilds, unless the
    /// theme's own comparison found it `unchanged` (see `theme_post`). The
    /// answer `Ok(true)` means that the stylesheet was rebuilt.
    pub fn apply_theme(&mut self, theme: T, unchanged: bool) -> (r: Result<bool, StyleError>)
        requires
            old(self).wf(),
        ensures
            final(self).wf(),
            Self::theme_post(*old(self), *final(self), theme, unchanged, r),
    {
        if self.poisoned {
            return Err(StyleError::Poisoned);
        }
        if unchanged {
            return Ok(false);
        }
        self.current_theme = theme;
        match self.update() {
            Ok(()) => Ok(true),
            Err(e) => Err(e),
        }
    }

    /// Every record's range lies below the counter, the ranges of two
    /// records are disjoint with the earlier registered below, keys are
    /// unique, and the start registered under a record's key is that
    /// record's start.
    pub proof fn lemma_ranges_disjoint(reg: Self)
        requires
            reg.wf(),
        ensures
            reg.structure_ok(),
            forall|i: int|
                0 <= i < reg.records().len() ==> #[trigger] reg.records()[i].start <= reg.records()[i].stop
                    <= reg.next_id(),
            forall|i: int, j: int|
                0 <= i < j < reg.records().len() ==> #[trigger] reg.records()[i].stop
                    <= #[trigger] reg.records()[j].start,
            forall|i: int, j: int|
                0 <= i < reg.records().len() && 0 <= j < reg.records().len() && #[trigger] reg.records()[i].key
                    == #[trigger] reg.records()[j].key ==> i == j,
            forall|i: int|
                0 <= i < reg.records().len() ==> reg.has_key(reg.records()[i].key) && reg.start_of(
                    #[trigger] reg.records()[i].key,
                ) == reg.records()[i].start,
    {
        assert forall|i: int, j: int|
            0 <= i < reg.records().len() && 0 <= j < reg.records().len() && #[trigger] reg.records()[i].key
                == #[trigger] reg.records()[j].key implies i == j by {
            if i < j {
                assert(reg.updaters@[i].key != reg.updaters@[j].key);
            } else if j < i {
                assert(reg.updaters@[j].key != reg.updaters@[i].key);
            }
        }
        assert forall|i: int| 0 <= i < reg.records().len() implies reg.has_key(reg.records()[i].key)
            && reg.start_of(#[trigger] reg.records()[i].key) == reg.records()[i].start by {
            let key = reg.records()[i].key;
            assert(reg.records()[i].key == key);
            let k = choose|k: int| 0 <= k < reg.records().len() && #[trigger] reg.records()[k].key == key;
            if k < i {
                assert(reg.updaters@[k].key != reg.updaters@[i].key);
            } else if i < k {
                assert(reg.updaters@[i].key != reg.updaters@[k].key);
            }
        }
    }

    /// Unless poisoned, the stylesheet is what a full rebuild on the current
    /// theme produces: each registered generator's text from its own start,
    /// in registration order; and every generator replays to its own stop.
    pub proof fn lemma_text_is_rebuild(reg: Self)
        requires
            reg.wf(),
            !reg.poisoned(),
        ensures
            reg.text() == rebuilt(reg.records(), reg.theme()),
            replays(reg.records(), reg.theme()),
            reg.structure_ok(),
    {
    }

    /// Registering one key twice: the second registration answers with the
    /// start that the first one returned, asks for no flush, and leaves the
    /// registry as the first one left it.
    pub proof fn lemma_register_twice(
        r0: Self,
        r1: Self,
        r2: Self,
        key: u64,
        first: G,
        second: G,
        a: Result<Registration, StyleError>,
        b: Result<Registration, StyleError>,
    )
        requires
            r1.wf(),
            Self::register_post(r0, r1, key, first, a),
            a is Ok,
            Self::register_post(r1, r2, key, second, b),
        ensures
            b == Ok::<Registration, StyleError>(Registration { start: a->Ok_0.start, flushed: false }),
            r2 == r1,
            r2.text() == r1.text(),
    {
        if !r0.has_key(key) {
            let last = r1.records().len() - 1;
            assert(r1.records()[last].key == key);
            let i = choose|i: int| 0 <= i < r1.records().len() && #[trigger] r1.records()[i].key == key;
            if i != last {
                assert(r1.updaters@[i].key != r1.updaters@[last].key);
            }
        }
    }

    /// A theme that its comparison reports unchanged leaves the registry, and
    /// so the stylesheet, exactly as it was.
    pub proof fn lemma_unchanged_theme_keeps_text(pre: Self, post: Self, theme: T, r: Result<bool, StyleError>)
        requires
            Self::theme_post(pre, post, theme, true, r),
        ensures
            post == pre,
            post.text() == pre.text(),
    {
    }

    /// A rebuild fails exactly when some registered generator, run on the
    /// theme from its own start, leaves the counter elsewhere than at its own
    /// stop; the error names the first such generator's range.
    pub proof fn lemma_rebuild_fails_on_mismatch(pre: Self, theme: T, post: Self, r: Result<(), StyleError>)
        requires
            Self::rebuild_post(pre, theme, post, r),
        ensures
            r is Err <==> exists|i: int|
                0 <= i < pre.records().len() && replay_stop(#[trigger] pre.records()[i], theme)
                    != pre.records()[i].stop,
            r is Err ==> post.poisoned(),
    {
    }
}

impl<T: Theme, G: StyleGenerator<T>> Inner<T, G> {
    /// Replaces the theme with `theme` and rebuilds the stylesheet, unless the
    /// current theme's `fast_cmp` reports `theme` unchanged (see
    /// `theme_post`). The answer `Ok(true)` means that the stylesheet was
    /// rebuilt; `Ok(false)` that nothing changed.
    pub fn update_theme(&mut self, theme: T) -> (r: Result<bool, StyleError>)
        requires
            old(self).wf(),
        ensures
            final(self).wf(),
            Self::theme_post(*old(self), *final(self), theme, old(self).theme().unchanged(&theme), r),
    {
        let unchanged = self.current_theme.fast_cmp(&theme);
        self.apply_theme(theme, unchanged)
    }
}

/// Runs `generator` on `theme` with the counter at `start`, on an empty
/// buffer: what it wrote, and where it left the counter.
fn run_generator<T, G: StyleGenerator<T>>(generator: &G, theme: &T, start: u64) -> (r: (String, u64))
    ensures
        r.0@ == generator.output(*theme, start).0@,
        r.1 == generator.output(*theme, start).1,
{
    let mut text = String::new();
    let mut counter: u64 = start;
    generator.generate(theme, &mut text, &mut counter);
    proof {
        assert(text@ =~= Seq::<char>::empty() + generator.output(*theme, start).0@);
    }
    (text, counter)
}

} // verus!
