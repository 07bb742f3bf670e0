//! Collecting the event-handler scripts.
//!
//! The scripts are read side by side and each reading ends when it ends.
//! The collector has one slot per declared script; an outcome goes into the
//! slot of its script, and the slots are read out in the order of the
//! declarations. So the order in which the readings end leaves no trace.

use vstd::prelude::*;
use vstd::string::StringExecFns;
use crate::build::error::{BuildError, BuildErrorView};

verus! {

/// What is known of the reading of one script.
#[derive(Debug)]
pub enum Slot {
    /// The reading has not ended.
    Pending,
    /// The script was read; this is its text.
    Read(String),
    /// The script could not be read; this is why.
    Failed(String),
}

/// Model of a [`Slot`].
pub enum SlotView {
    Pending,
    Read(Seq<char>),
    Failed(Seq<char>),
}

impl View for Slot {
    type V = SlotView;

    open spec fn view(&self) -> SlotView {
        match *self {
            Slot::Pending => SlotView::Pending,
            Slot::Read(text) => SlotView::Read(text@),
            Slot::Failed(cause) => SlotView::Failed(cause@),
        }
    }
}

impl DeepView for Slot {
    type V = SlotView;

    open spec fn deep_view(&self) -> SlotView {
        self.view()
    }
}

/// Model of the outcome of a reading: the text, or why there is none.
pub open spec fn reading_view(outcome: Result<String, String>) -> Result<Seq<char>, Seq<char>> {
    match outcome {
        Ok(text) => Ok(text@),
        Err(cause) => Err(cause@),
    }
}

/// What is said of a script whose reading has not ended when the
/// collection is closed.
pub const PENDING_CAUSE: &'static str = "the reading has not ended";

/// Why a slot holds no text: the cause of the failed reading, or that the
/// reading has not ended.
pub open spec fn cause_of(slot: SlotView) -> Seq<char> {
    match slot {
        SlotView::Failed(cause) => cause,
        _ => PENDING_CAUSE@,
    }
}

/// The slot that the outcome of a reading fills.
pub open spec fn slot_of(outcome: Result<Seq<char>, Seq<char>>) -> SlotView {
    match outcome {
        Ok(text) => SlotView::Read(text),
        Err(cause) => SlotView::Failed(cause),
    }
}

/// Model of a [`ScriptCollector`]: the declared paths and, position by
/// position, what is known of their readings.
pub struct CollectorView {
    pub paths: Seq<Seq<char>>,
    pub slots: Seq<SlotView>,
}

impl CollectorView {
    /// A collector for `paths` whose readings have all yet to end.
    pub open spec fn start(paths: Seq<Seq<char>>) -> CollectorView {
        CollectorView { paths, slots: Seq::new(paths.len(), |i: int| SlotView::Pending) }
    }

    /// The collector after the reading of the script at `index` ended with
    /// `outcome`. An index that no script has changes nothing.
    pub open spec fn record(self, index: int, outcome: Result<Seq<char>, Seq<char>>) -> CollectorView {
        if 0 <= index < self.slots.len() {
            CollectorView { paths: self.paths, slots: self.slots.update(index, slot_of(outcome)) }
        } else {
            self
        }
    }

    /// The collector after the readings ended in the order `order`, the
    /// reading of script `i` with `outcomes[i]`.
    pub open spec fn record_all(
        self,
        order: Seq<int>,
        outcomes: Seq<Result<Seq<char>, Seq<char>>>,
    ) -> CollectorView
        decreases order.len(),
    {
        if order.len() == 0 {
            self
        } else {
            self.record_all(order.drop_last(), outcomes).record(order.last(), outcomes[order.last()])
        }
    }

    /// Every reading has ended.
    pub open spec fn complete(self) -> bool {
        forall|i: int| 0 <= i < self.slots.len() ==> self.slots[i] != SlotView::Pending
    }

    /// The script at `index` has been read.
    pub open spec fn is_read(self, index: int) -> bool {
        self.slots[index] is Read
    }

    /// Every script has been read.
    pub open spec fn all_read(self) -> bool {
        forall|i: int| 0 <= i < self.slots.len() ==> self.is_read(i)
    }

    /// The paths of the scripts that have not been read, in the order of
    /// their declaration.
    pub open spec fn unread_paths(self) -> Seq<Seq<char>> {
        unread_among(self.paths, self.slots)
    }

    /// Why each of the scripts that have not been read has not, in the
    /// order of their declaration.
    pub open spec fn unread_causes(self) -> Seq<Seq<char>> {
        causes_among(self.slots)
    }

    /// Path and text of every script, in the order of their declaration.
    pub open spec fn scripts(self) -> Seq<(Seq<char>, Seq<char>)> {
        Seq::new(
            self.slots.len(),
            |i: int|
                (
                    self.paths[i],
                    match self.slots[i] {
                        SlotView::Read(text) => text,
                        _ => Seq::empty(),
                    },
                ),
        )
    }

    /// What the collection comes to: every script with its text, or the
    /// paths of those that were not read, each with its cause.
    pub open spec fn outcome(self) -> Result<Seq<(Seq<char>, Seq<char>)>, BuildErrorView> {
        if self.all_read() {
            Ok(self.scripts())
        } else {
            Err(
                BuildErrorView::ScriptCollection {
                    paths: self.unread_paths(),
                    causes: self.unread_causes(),
                },
            )
        }
    }
}

/// Why the slots that do not hold a text do not, in their order.
pub open spec fn causes_among(slots: Seq<SlotView>) -> Seq<Seq<char>>
    decreases slots.len(),
{
    if slots.len() == 0 {
        Seq::empty()
    } else if slots.last() is Read {
        causes_among(slots.drop_last())
    } else {
        causes_among(slots.drop_last()).push(cause_of(slots.last()))
    }
}

/// The paths whose slot does not hold a text, in their order.
pub open spec fn unread_among(paths: Seq<Seq<char>>, slots: Seq<SlotView>) -> Seq<Seq<char>>
    decreases slots.len(),
{
    if slots.len() == 0 || paths.len() < slots.len() {
        Seq::empty()
    } else if slots.last() is Read {
        unread_among(paths, slots.drop_last())
    } else {
        unread_among(paths, slots.drop_last()).push(paths[slots.len() - 1])
    }
}

/// `order` names every script among `count` at least once, and nothing else.
pub open spec fn covers(order: Seq<int>, count: nat) -> bool {
    &&& forall|k: int| 0 <= k < order.len() ==> 0 <= #[trigger] order[k] < count
    &&& forall|i: int| 0 <= i < count ==> order.contains(i)
}

/// One slot per declared script, filled as the readings end.
pub struct ScriptCollector {
    scripts: Vec<DeclaredScript>,
}

/// A declared script: its path, and what is known of its reading.
struct DeclaredScript {
    path: String,
    slot: Slot,
}

impl View for ScriptCollector {
    type V = CollectorView;

    closed spec fn view(&self) -> CollectorView {
        CollectorView {
            paths: Seq::new(self.scripts.len() as nat, |i: int| self.scripts[i].path@),
            slots: Seq::new(self.scripts.len() as nat, |i: int| self.scripts[i].slot@),
        }
    }
}

impl ScriptCollector {
    /// A collector for the scripts at `paths`, none of them read yet.
    pub fn new(paths: &Vec<String>) -> (collector: ScriptCollector)
        ensures
            collector@ == CollectorView::start(paths.deep_view()),
    {
        let mut scripts: Vec<DeclaredScript> = Vec::new();
        let mut i: usize = 0;
        while i < paths.len()
            invariant
                i <= paths.len(),
                scripts.len() == i,
                forall|k: int| 0 <= k < i ==> (#[trigger] scripts[k]).path@ == paths[k]@,
                forall|k: int| 0 <= k < i ==> (#[trigger] scripts[k]).slot@ == SlotView::Pending,
            decreases paths.len() - i,
        {
            scripts.push(DeclaredScript { path: paths[i].clone(), slot: Slot::Pending });
            i += 1;
        }
        let collector = ScriptCollector { scripts };
        assert(collector@.paths =~= paths.deep_view());
        assert(collector@.slots =~= CollectorView::start(paths.deep_view()).slots);
        collector
    }

    /// The number of declared scripts.
    pub fn len(&self) -> (n: usize)
        ensures
            n == self@.paths.len(),
            n == self@.slots.len(),
    {
        self.scripts.len()
    }

    /// The path of the script at `index`.
    pub fn path(&self, index: usize) -> (path: &str)
        requires
            index < self@.paths.len(),
        ensures
            path@ == self@.paths[index as int],
    {
        self.scripts[index].path.as_str()
    }

    /// Takes note that the reading of the script at `index` ended with
    /// `outcome`: its text, or why it could not be read. An index that no
    /// script has is passed over.
    pub fn record(&mut self, index: usize, outcome: Result<String, String>)
        ensures
            final(self)@ == old(self)@.record(index as int, reading_view(outcome)),
    {
        if index < self.scripts.len() {
            let slot = match outcome {
                Ok(text) => Slot::Read(text),
                Err(cause) => Slot::Failed(cause),
            };
            let path = self.scripts[index].path.clone();
            self.scripts.set(index, DeclaredScript { path, slot });
            assert(self@.paths =~= old(self)@.paths);
            assert(self@.slots =~= old(self)@.slots.update(
                index as int,
                slot_of(reading_view(outcome)),
            ));
        }
    }

    /// Whether every reading has ended.
    pub fn is_complete(&self) -> (done: bool)
        ensures
            done == self@.complete(),
    {
        let mut i: usize = 0;
        while i < self.scripts.len()
            invariant
                i <= self.scripts.len(),
                forall|k: int| 0 <= k < i ==> self@.slots[k] != SlotView::Pending,
            decreases self.scripts.len() - i,
        {
            match &self.scripts[i].slot {
                Slot::Pending => {
                    assert(self@.slots[i as int] == SlotView::Pending);
                    return false;
                },
                _ => {},
            }
            i += 1;
        }
        true
    }

    /// What the collection comes to. Where every script was read: path and
    /// text of every script, in the order of the declarations, whatever the
    /// order in which the readings ended. Where one was not: an error that
    /// names the paths of all that were not read, each with the cause of
    /// its failure, and no text at all.
    pub fn finish(&self) -> (r: Result<Vec<(String, String)>, BuildError>)
        ensures
            match self@.outcome() {
                Ok(scripts) => r matches Ok(v) && v.deep_view() == scripts,
                Err(error) => r matches Err(e) && e@ == error,
            },
            self@.paths.len() == self@.slots.len(),
    {
        let ghost view = self@;
        let mut scripts: Vec<(String, String)> = Vec::new();
        let mut unread: Vec<String> = Vec::new();
        let mut causes: Vec<String> = Vec::new();
        let mut i: usize = 0;
        while i < self.scripts.len()
            invariant
                i <= self.scripts.len(),
                view == self@,
                view.paths.len() == self.scripts.len(),
                view.slots.len() == self.scripts.len(),
                unread.deep_view() == unread_among(view.paths, view.slots.take(i as int)),
                causes.deep_view() == causes_among(view.slots.take(i as int)),
                unread.len() == 0 ==> scripts.len() == i,
                unread.len() == 0 ==> forall|k: int| 0 <= k < i ==> view.is_read(k),
                unread.len() == 0 ==> forall|k: int|
                    0 <= k < i ==> (#[trigger] scripts.deep_view()[k]) == view.scripts()[k],
                unread.len() > 0 ==> exists|k: int| 0 <= k < i && !view.is_read(k),
            decreases self.scripts.len() - i,
        {
            let ghost scripts_before = scripts.deep_view();
            assert(view.slots.take(i as int + 1).drop_last() == view.slots.take(i as int));
            match &self.scripts[i].slot {
                Slot::Read(text) => {
                    if unread.len() == 0 {
                        scripts.push((self.scripts[i].path.clone(), text.clone()));
                        assert(scripts.deep_view() =~= scripts_before.push(
                            (view.paths[i as int], text@),
                        ));
                    }
                },
                Slot::Failed(cause) => {
                    unread.push(self.scripts[i].path.clone());
                    causes.push(cause.clone());
                    assert(!view.is_read(i as int));
                },
                Slot::Pending => {
                    unread.push(self.scripts[i].path.clone());
                    causes.push(String::from_str(PENDING_CAUSE));
                    assert(!view.is_read(i as int));
                },
            }
            i += 1;
        }
        assert(view.slots.take(i as int) == view.slots);
        if unread.len() == 0 {
            Ok(scripts)
        } else {
            Err(BuildError::ScriptCollection { paths: unread, causes })
        }
    }
}

/// After readings that ended in any order that names every script, every
/// slot holds the outcome of its own script: the order leaves no trace.
pub proof fn lemma_collection_ignores_completion_order(
    paths: Seq<Seq<char>>,
    outcomes: Seq<Result<Seq<char>, Seq<char>>>,
    order: Seq<int>,
)
    requires
        outcomes.len() == paths.len(),
        covers(order, paths.len()),
    ensures
        CollectorView::start(paths).record_all(order, outcomes) == (CollectorView {
            paths,
            slots: Seq::new(paths.len(), |i: int| slot_of(outcomes[i])),
        }),
{
    let end = CollectorView::start(paths).record_all(order, outcomes);
    lemma_record_all_slots(paths, outcomes, order);
    assert forall|i: int| 0 <= i < paths.len() implies end.slots[i] == slot_of(outcomes[i]) by {}
    assert(end.slots =~= Seq::new(paths.len(), |i: int| slot_of(outcomes[i])));
}

/// Two orders of completion that both name every script come to the same
/// collection, and so to the same scripts in the same order.
pub proof fn lemma_two_completion_orders_agree(
    paths: Seq<Seq<char>>,
    outcomes: Seq<Result<Seq<char>, Seq<char>>>,
    first: Seq<int>,
    second: Seq<int>,
)
    requires
        outcomes.len() == paths.len(),
        covers(first, paths.len()),
        covers(second, paths.len()),
    ensures
        CollectorView::start(paths).record_all(first, outcomes) == CollectorView::start(
            paths,
        ).record_all(second, outcomes),
        CollectorView::start(paths).record_all(first, outcomes).outcome() == CollectorView::start(
            paths,
        ).record_all(second, outcomes).outcome(),
{
    lemma_collection_ignores_completion_order(paths, outcomes, first);
    lemma_collection_ignores_completion_order(paths, outcomes, second);
}

/// Where every script was read, the collection hands out each declared path
/// with the text of its own reading, at the position of its declaration.
pub proof fn lemma_scripts_keep_declaration_order(
    paths: Seq<Seq<char>>,
    texts: Seq<Seq<char>>,
    order: Seq<int>,
)
    requires
        texts.len() == paths.len(),
        covers(order, paths.len()),
    ensures
        CollectorView::start(paths).record_all(
            order,
            texts.map_values(|t: Seq<char>| Ok::<Seq<char>, Seq<char>>(t)),
        ).outcome() == Ok::<Seq<(Seq<char>, Seq<char>)>, BuildErrorView>(
            Seq::new(paths.len(), |i: int| (paths[i], texts[i])),
        ),
{
    let outcomes = texts.map_values(|t: Seq<char>| Ok::<Seq<char>, Seq<char>>(t));
    lemma_collection_ignores_completion_order(paths, outcomes, order);
    let end = CollectorView::start(paths).record_all(order, outcomes);
    assert(end.scripts() =~= Seq::new(paths.len(), |i: int| (paths[i], texts[i])));
}

/// A single reading that failed fails the collection, and the error names
/// the path of every script that was not read, with the cause of its
/// failure at the same position.
pub proof fn lemma_failed_reading_fails_collection(collector: CollectorView, index: int)
    requires
        collector.paths.len() == collector.slots.len(),
        0 <= index < collector.slots.len(),
        !collector.is_read(index),
    ensures
        collector.outcome() == Err::<Seq<(Seq<char>, Seq<char>)>, BuildErrorView>(
            BuildErrorView::ScriptCollection {
                paths: collector.unread_paths(),
                causes: collector.unread_causes(),
            },
        ),
        collector.unread_paths().len() == collector.unread_causes().len(),
        exists|k: int|
            0 <= k < collector.unread_paths().len() && collector.unread_paths()[k]
                == collector.paths[index] && #[trigger] collector.unread_causes()[k] == cause_of(
                collector.slots[index],
            ),
        collector.unread_paths().contains(collector.paths[index]),
{
    lemma_unread_among_contains(collector.paths, collector.slots, index);
}

proof fn lemma_unread_among_contains(paths: Seq<Seq<char>>, slots: Seq<SlotView>, index: int)
    requires
        slots.len() <= paths.len(),
        0 <= index < slots.len(),
        !(slots[index] is Read),
    ensures
        unread_among(paths, slots).len() == causes_among(slots).len(),
        exists|k: int|
            0 <= k < unread_among(paths, slots).len() && unread_among(paths, slots)[k]
                == paths[index] && #[trigger] causes_among(slots)[k] == cause_of(slots[index]),
        unread_among(paths, slots).contains(paths[index]),
    decreases slots.len(),
{
    let rest = unread_among(paths, slots.drop_last());
    let rest_causes = causes_among(slots.drop_last());
    lemma_unread_len(paths, slots.drop_last());
    if index == slots.len() - 1 {
        let k = rest.len() as int;
        assert(unread_among(paths, slots)[k] == paths[index]);
        assert(causes_among(slots)[k] == cause_of(slots[index]));
    } else {
        lemma_unread_among_contains(paths, slots.drop_last(), index);
        let k = choose|k: int|
            0 <= k < rest.len() && rest[k] == paths[index] && #[trigger] rest_causes[k] == cause_of(
                slots.drop_last()[index],
            );
        assert(unread_among(paths, slots)[k] == paths[index]);
        assert(causes_among(slots)[k] == cause_of(slots[index]));
    }
}

proof fn lemma_unread_len(paths: Seq<Seq<char>>, slots: Seq<SlotView>)
    requires
        slots.len() <= paths.len(),
    ensures
        unread_among(paths, slots).len() == causes_among(slots).len(),
    decreases slots.len(),
{
    if slots.len() > 0 {
        lemma_unread_len(paths, slots.drop_last());
    }
}

proof fn lemma_record_all_slots(
    paths: Seq<Seq<char>>,
    outcomes: Seq<Result<Seq<char>, Seq<char>>>,
    order: Seq<int>,
)
    requires
        outcomes.len() == paths.len(),
        forall|k: int| 0 <= k < order.len() ==> 0 <= #[trigger] order[k] < paths.len(),
    ensures
        ({
            let end = CollectorView::start(paths).record_all(order, outcomes);
            &&& end.paths == paths
            &&& end.slots.len() == paths.len()
            &&& forall|i: int|
                0 <= i < paths.len() ==> #[trigger] end.slots[i] == if order.contains(i) {
                    slot_of(outcomes[i])
                } else {
                    SlotView::Pending
                }
        }),
    decreases order.len(),
{
    if order.len() > 0 {
        let before = order.drop_last();
        lemma_record_all_slots(paths, outcomes, before);
        let end = CollectorView::start(paths).record_all(order, outcomes);
        assert forall|i: int| 0 <= i < paths.len() implies #[trigger] end.slots[i] == if order.contains(
            i,
        ) {
            slot_of(outcomes[i])
        } else {
            SlotView::Pending
        } by {
            if i != order.last() && !before.contains(i) && order.contains(i) {
                let k = choose|k: int| 0 <= k < order.len() && order[k] == i;
                assert(before[k] == i);
            }
        }
    }
}

} // verus!
