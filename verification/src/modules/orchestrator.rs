use crate::modules::content::{candidates, has_successors, next_episode, next_season, Predictable};
use crate::modules::crawlers::DiscoveryError;
use crate::modules::fetchers::SubmissionError;
use crate::modules::serialize::ContentFile;
use crate::modules::types::{content_views, Content, ContentView, WebFile, WebFileView, WebResponse};
use vstd::prelude::*;

verus! {

/// What a run over the store waits for.
pub enum PhaseView {
    /// The discovery of the current candidate.
    Discovering,
    /// The submission of the file that was found for the current candidate.
    Submitting(WebFileView),
    /// The store, with the current record advanced, being written.
    Saving,
    /// Nothing: every record has been gone through.
    Finished,
    /// Nothing: a counter of the current record stands at the largest value
    /// of its type, so that its candidates cannot be written.
    Halted,
}

/// The mathematical value of a [`Run`]: the store as it stands, the record
/// and the candidate that are being tried, and what the run waits for.
pub struct RunView {
    pub contents: Seq<ContentView>,
    pub record: nat,
    pub candidate: nat,
    pub phase: PhaseView,
}

/// What a run learns from one event.
pub enum EventView {
    /// The discovery found this file.
    Found(WebFileView),
    /// The discovery failed.
    NotFound,
    /// The submission was answered with the confirmation.
    Accepted,
    /// The submission failed, or was answered with anything else.
    Declined,
    /// The store was written.
    Saved,
}

/// What a run asks its caller to do next.
pub enum ActionView {
    Discover(ContentView),
    Submit(WebFileView),
    Save(Seq<ContentView>),
    Finish,
    Halt(ContentView),
}

/// Every item of `contents` has successors that can be represented.
pub open spec fn all_have_successors(contents: Seq<ContentView>) -> bool {
    forall|i: int| 0 <= i < contents.len() ==> has_successors(#[trigger] contents[i])
}

/// The run over `contents` as it turns to the record `record`: it tries the
/// first candidate of that record, or halts where the candidates of that
/// record cannot be represented, or is finished where no record is left.
pub open spec fn at_record(contents: Seq<ContentView>, record: nat) -> RunView {
    if record < contents.len() {
        if has_successors(contents[record as int]) {
            RunView { contents, record, candidate: 0, phase: PhaseView::Discovering }
        } else {
            RunView { contents, record, candidate: 0, phase: PhaseView::Halted }
        }
    } else {
        RunView { contents, record: contents.len(), candidate: 0, phase: PhaseView::Finished }
    }
}

/// The run over `contents` at its start.
pub open spec fn begin(contents: Seq<ContentView>) -> RunView {
    at_record(contents, 0)
}

/// The candidate that `run` is trying.
pub open spec fn current_candidate(run: RunView) -> ContentView {
    candidates(run.contents[run.record as int])[run.candidate as int]
}

/// `run` after its current candidate has failed: it tries the next
/// candidate of the record, or leaves the record as it is and turns to the
/// next one.
pub open spec fn give_up(run: RunView) -> RunView {
    if run.candidate + 1 < 2 {
        RunView { candidate: run.candidate + 1, phase: PhaseView::Discovering, ..run }
    } else {
        at_record(run.contents, run.record + 1)
    }
}

/// `run` after its current candidate has been accepted: the candidate
/// stands in the place of the record, and the store is to be written.
pub open spec fn advance(run: RunView) -> RunView {
    RunView {
        contents: run.contents.update(run.record as int, current_candidate(run)),
        phase: PhaseView::Saving,
        ..run
    }
}

/// The run that follows `run` on `event`. An event that the run does not
/// wait for leaves it as it is.
pub open spec fn step(run: RunView, event: EventView) -> RunView {
    match run.phase {
        PhaseView::Discovering => match event {
            EventView::Found(file) => RunView { phase: PhaseView::Submitting(file), ..run },
            EventView::NotFound => give_up(run),
            _ => run,
        },
        PhaseView::Submitting(_) => match event {
            EventView::Accepted => advance(run),
            EventView::Declined => give_up(run),
            _ => run,
        },
        PhaseView::Saving => match event {
            EventView::Saved => at_record(run.contents, run.record + 1),
            _ => run,
        },
        PhaseView::Finished => run,
        PhaseView::Halted => run,
    }
}

/// What `run` asks its caller to do.
pub open spec fn action(run: RunView) -> ActionView {
    match run.phase {
        PhaseView::Discovering => ActionView::Discover(current_candidate(run)),
        PhaseView::Submitting(file) => ActionView::Submit(file),
        PhaseView::Saving => ActionView::Save(run.contents),
        PhaseView::Finished => ActionView::Finish,
        PhaseView::Halted => ActionView::Halt(run.contents[run.record as int]),
    }
}

/// The run that `events` lead to from `run`, taken in their order.
pub open spec fn after(run: RunView, events: Seq<EventView>) -> RunView
    decreases events.len(),
{
    if events.len() == 0 {
        run
    } else {
        step(after(run, events.drop_last()), events.last())
    }
}

/// The run is done with the record `index`: no later event touches it.
pub open spec fn settled(run: RunView, index: int) -> bool {
    index < run.record || (index == run.record && run.phase is Saving)
}

/// The shape of every run: it stands at a record of the store unless it is
/// finished, tries one of the two candidates, and while it tries them the
/// successors of the record can be represented.
pub open spec fn well_formed(run: RunView) -> bool {
    &&& run.record <= run.contents.len()
    &&& run.candidate < 2
    &&& !(run.phase is Finished) ==> run.record < run.contents.len()
    &&& run.phase is Discovering || run.phase is Submitting ==> has_successors(
        run.contents[run.record as int],
    )
}

/// One event that ends an attempt without success, or the two events of an
/// attempt whose file was found and then declined.
pub open spec fn failed_attempt(events: Seq<EventView>) -> bool {
    ||| events == seq![EventView::NotFound]
    ||| (events.len() == 2 && events[0] is Found && events[1] == EventView::Declined)
}

/// `now` is `before`, or one of the two candidates that follow it.
pub open spec fn at_most_advanced(before: ContentView, now: ContentView) -> bool {
    now == before || now == next_episode(before) || now == next_season(before)
}

/// The run at its start is well formed.
pub proof fn lemma_begin_well_formed(contents: Seq<ContentView>)
    ensures
        well_formed(begin(contents)),
{
}

/// No event leads out of the well-formed runs, and none changes the number
/// of records.
pub proof fn lemma_step_well_formed(run: RunView, event: EventView)
    requires
        well_formed(run),
    ensures
        well_formed(step(run, event)),
        step(run, event).contents.len() == run.contents.len(),
        step(run, event).record >= run.record,
{
}

/// A record that the run is done with stays as it is and stays done with,
/// whatever event comes.
pub proof fn lemma_step_keeps_settled(run: RunView, event: EventView, index: int)
    requires
        well_formed(run),
        0 <= index < run.contents.len(),
        settled(run, index),
    ensures
        settled(step(run, event), index),
        step(run, event).contents[index] == run.contents[index],
{
}

/// No sequence of events leads out of the well-formed runs.
pub proof fn lemma_after_well_formed(run: RunView, events: Seq<EventView>)
    requires
        well_formed(run),
    ensures
        well_formed(after(run, events)),
        after(run, events).contents.len() == run.contents.len(),
        after(run, events).record >= run.record,
    decreases events.len(),
{
    if events.len() > 0 {
        lemma_after_well_formed(run, events.drop_last());
        lemma_step_well_formed(after(run, events.drop_last()), events.last());
    }
}

/// Running through `first` and then through `second` is running through
/// both in a row.
pub proof fn lemma_after_concat(run: RunView, first: Seq<EventView>, second: Seq<EventView>)
    ensures
        after(run, first + second) == after(after(run, first), second),
    decreases second.len(),
{
    if second.len() == 0 {
        assert(first + second =~= first);
    } else {
        lemma_after_concat(run, first, second.drop_last());
        assert((first + second).drop_last() =~= first + second.drop_last());
        assert((first + second).last() == second.last());
    }
}

/// A record that the run is done with stays as it is through every
/// sequence of events.
pub proof fn lemma_settled_records_stay(run: RunView, events: Seq<EventView>, index: int)
    requires
        well_formed(run),
        0 <= index < run.contents.len(),
        settled(run, index),
    ensures
        settled(after(run, events), index),
        after(run, events).contents[index] == run.contents[index],
    decreases events.len(),
{
    if events.len() > 0 {
        lemma_settled_records_stay(run, events.drop_last(), index);
        lemma_after_well_formed(run, events.drop_last());
        lemma_step_keeps_settled(after(run, events.drop_last()), events.last(), index);
    }
}

/// A run advances each record at most once: whatever events come, every
/// record of the store is then what it was at the start or one of its two
/// candidates, and a record that the run is not done with is still what it
/// was.
pub proof fn lemma_at_most_one_advance(contents: Seq<ContentView>, events: Seq<EventView>)
    ensures
        after(begin(contents), events).contents.len() == contents.len(),
        forall|i: int|
            0 <= i < contents.len() ==> at_most_advanced(
                contents[i],
                #[trigger] after(begin(contents), events).contents[i],
            ),
        forall|i: int|
            0 <= i < contents.len() && !settled(after(begin(contents), events), i) ==> (
            #[trigger] after(begin(contents), events).contents[i]) == contents[i],
    decreases events.len(),
{
    lemma_begin_well_formed(contents);
    if events.len() > 0 {
        let before = after(begin(contents), events.drop_last());
        lemma_at_most_one_advance(contents, events.drop_last());
        lemma_after_well_formed(begin(contents), events.drop_last());
        lemma_step_well_formed(before, events.last());
        let now = step(before, events.last());
        assert forall|i: int| 0 <= i < contents.len() implies at_most_advanced(
            contents[i],
            #[trigger] now.contents[i],
        ) by {
            if settled(before, i) {
                lemma_step_keeps_settled(before, events.last(), i);
            }
        }
    }
}

/// When both attempts for the current record fail, the run leaves the store
/// as it is and turns to the next record; and whatever events follow, that
/// record is not advanced in this run.
pub proof fn lemma_failed_attempts_leave_record(
    run: RunView,
    first: Seq<EventView>,
    second: Seq<EventView>,
    rest: Seq<EventView>,
)
    requires
        well_formed(run),
        run.phase is Discovering,
        run.candidate == 0,
        failed_attempt(first),
        failed_attempt(second),
    ensures
        after(run, first + second) == at_record(run.contents, run.record + 1),
        after(run, first + second + rest).contents[run.record as int]
            == run.contents[run.record as int],
{
    lemma_failed_attempt(run, first);
    let middle = after(run, first);
    lemma_failed_attempt(middle, second);
    lemma_after_concat(run, first, second);
    let done = after(run, first + second);
    lemma_after_concat(run, first + second, rest);
    lemma_settled_records_stay(done, rest, run.record as int);
}

/// A failed attempt makes the run give up its current candidate.
pub proof fn lemma_failed_attempt(run: RunView, attempt: Seq<EventView>)
    requires
        well_formed(run),
        run.phase is Discovering,
        failed_attempt(attempt),
    ensures
        after(run, attempt) == give_up(run),
        well_formed(give_up(run)),
{
    reveal_with_fuel(after, 3);
    if attempt.len() == 2 {
        assert(attempt.drop_last().drop_last() =~= Seq::<EventView>::empty());
        assert(attempt.drop_last().last() == attempt[0]);
    } else {
        assert(attempt.drop_last() =~= Seq::<EventView>::empty());
    }
}

/// When the first candidate of the current record is found, accepted and
/// saved, the record has become its next episode — its second counter is
/// one higher and nothing else of it has changed —, every other record is
/// as it was, and the run has turned to the next record.
pub proof fn lemma_accepted_attempt_advances(run: RunView, file: WebFileView)
    requires
        well_formed(run),
        run.phase is Discovering,
        run.candidate == 0,
    ensures
        after(run, seq![EventView::Found(file), EventView::Accepted, EventView::Saved])
            == at_record(
            run.contents.update(run.record as int, next_episode(run.contents[run.record as int])),
            run.record + 1,
        ),
        next_episode(run.contents[run.record as int]).second
            == run.contents[run.record as int].second + 1,
        next_episode(run.contents[run.record as int]) == (ContentView {
            second: run.contents[run.record as int].second + 1,
            ..run.contents[run.record as int]
        }),
{
    let events = seq![EventView::Found(file), EventView::Accepted, EventView::Saved];
    reveal_with_fuel(after, 4);
    assert(events.drop_last() =~= seq![EventView::Found(file), EventView::Accepted]);
    assert(events.drop_last().drop_last() =~= seq![EventView::Found(file)]);
    assert(events.drop_last().drop_last().drop_last() =~= Seq::<EventView>::empty());
}

/// As soon as a submission is accepted, the run asks for the whole store to
/// be written, with the candidate in the place of the record and every
/// other record as it was, before it asks for anything else.
pub proof fn lemma_accepted_is_saved_at_once(run: RunView)
    requires
        well_formed(run),
        run.phase is Submitting,
    ensures
        action(step(run, EventView::Accepted)) == ActionView::Save(
            run.contents.update(run.record as int, current_candidate(run)),
        ),
        step(step(run, EventView::Accepted), EventView::Saved) == at_record(
            run.contents.update(run.record as int, current_candidate(run)),
            run.record + 1,
        ),
{
}

/// A run over a store of one record, in which the discovery finds a file
/// and the submission is accepted, ends with that record's second counter
/// one higher and nothing else changed.
pub proof fn lemma_single_record_run(record: ContentView, file: WebFileView)
    requires
        has_successors(record),
    ensures
        after(
            begin(seq![record]),
            seq![EventView::Found(file), EventView::Accepted, EventView::Saved],
        ) == (RunView {
            contents: seq![next_episode(record)],
            record: 1,
            candidate: 0,
            phase: PhaseView::Finished,
        }),
        next_episode(record).second == record.second + 1,
{
    let contents = seq![record];
    lemma_begin_well_formed(contents);
    lemma_accepted_attempt_advances(begin(contents), file);
    assert(contents.update(0, next_episode(record)) =~= seq![next_episode(record)]);
}

/// A run halts at the first record that it comes to with a counter at the
/// largest value of its type: it asks for nothing but to halt, no event
/// takes it on, and the store stays as it stands.
pub proof fn lemma_halted_run_stays(run: RunView, events: Seq<EventView>)
    requires
        run.phase is Halted,
    ensures
        after(run, events) == run,
        action(run) == ActionView::Halt(run.contents[run.record as int]),
    decreases events.len(),
{
    if events.len() > 0 {
        lemma_halted_run_stays(run, events.drop_last());
    }
}

/// A run in which every attempt fails to find its file ends with the store
/// as it was.
pub proof fn lemma_nothing_found_changes_nothing(contents: Seq<ContentView>)
    requires
        all_have_successors(contents),
    ensures
        after(begin(contents), Seq::new(2 * contents.len(), |i: int| EventView::NotFound))
            == at_record(contents, contents.len()),
{
    lemma_nothing_found_upto(contents, contents.len());
}

/// Two failed discoveries for each of the first `count` records leave the
/// store as it was and the run at the record `count`.
pub proof fn lemma_nothing_found_upto(contents: Seq<ContentView>, count: nat)
    requires
        all_have_successors(contents),
        count <= contents.len(),
    ensures
        after(begin(contents), Seq::new(2 * count, |i: int| EventView::NotFound)) == at_record(
            contents,
            count,
        ),
    decreases count,
{
    let events = Seq::new(2 * count, |i: int| EventView::NotFound);
    if count == 0 {
        assert(events =~= Seq::<EventView>::empty());
    } else {
        let fewer = Seq::new((2 * (count - 1)) as nat, |i: int| EventView::NotFound);
        lemma_nothing_found_upto(contents, (count - 1) as nat);
        let attempt = seq![EventView::NotFound];
        assert(events =~= fewer + attempt + attempt);
        lemma_after_concat(begin(contents), fewer, attempt + attempt);
        assert(fewer + attempt + attempt =~= fewer + (attempt + attempt));
        let run = at_record(contents, (count - 1) as nat);
        lemma_failed_attempts_leave_record(run, attempt, attempt, Seq::<EventView>::empty());
    }
}

/// What a run over the store waits for.
#[derive(Debug)]
pub enum Phase {
    /// The discovery of the current candidate.
    Discovering,
    /// The submission of the file that was found for the current candidate.
    Submitting(WebFile),
    /// The store, with the current record advanced, being written.
    Saving,
    /// Nothing: every record has been gone through.
    Finished,
    /// Nothing: a counter of the current record stands at the largest value
    /// of its type, so that its candidates cannot be written.
    Halted,
}

impl View for Phase {
    type V = PhaseView;

    open spec fn view(&self) -> PhaseView {
        match self {
            Phase::Discovering => PhaseView::Discovering,
            Phase::Submitting(file) => PhaseView::Submitting(file@),
            Phase::Saving => PhaseView::Saving,
            Phase::Finished => PhaseView::Finished,
            Phase::Halted => PhaseView::Halted,
        }
    }
}

/// What happened to the action that a run asked for.
#[derive(Debug)]
pub enum Event {
    /// How the discovery of the candidate ended.
    Discovered(Result<WebFile, DiscoveryError>),
    /// How the submission of the file ended.
    Submitted(Result<WebResponse, SubmissionError>),
    /// The store was written.
    Saved,
}

impl View for Event {
    type V = EventView;

    open spec fn view(&self) -> EventView {
        match self {
            Event::Discovered(Ok(file)) => EventView::Found(file@),
            Event::Discovered(Err(_)) => EventView::NotFound,
            Event::Submitted(Ok(response)) => if response.success {
                EventView::Accepted
            } else {
                EventView::Declined
            },
            Event::Submitted(Err(_)) => EventView::Declined,
            Event::Saved => EventView::Saved,
        }
    }
}

/// What a run asks its caller to do next.
#[derive(Debug)]
pub enum Action {
    /// Look for this candidate and report `Event::Discovered`.
    Discover(Content),
    /// Submit this file and report `Event::Submitted`.
    Submit(WebFile),
    /// Write this store and report `Event::Saved`.
    Save(ContentFile),
    /// Stop: the run is over.
    Finish,
    /// Stop: the successors of this record cannot be written, and the run
    /// does not go past it.
    Halt(Content),
}

impl View for Action {
    type V = ActionView;

    open spec fn view(&self) -> ActionView {
        match self {
            Action::Discover(candidate) => ActionView::Discover(candidate@),
            Action::Submit(file) => ActionView::Submit(file@),
            Action::Save(store) => ActionView::Save(store@),
            Action::Finish => ActionView::Finish,
            Action::Halt(record) => ActionView::Halt(record@),
        }
    }
}

/// One run over the store: record by record, candidate by candidate.
///
/// The caller does what `action` asks for and reports the outcome to
/// `step`, until `action` asks to finish or to halt.
pub struct Run {
    contents: Vec<Content>,
    record: usize,
    candidate: usize,
    phase: Phase,
}

impl View for Run {
    type V = RunView;

    closed spec fn view(&self) -> RunView {
        RunView {
            contents: content_views(self.contents@),
            record: self.record as nat,
            candidate: self.candidate as nat,
            phase: self.phase@,
        }
    }
}

impl Run {
    #[verifier::type_invariant]
    spec fn inv(self) -> bool {
        well_formed(self@)
    }

    /// A run turns to the record `record`.
    fn turn_to(contents: Vec<Content>, record: usize) -> (run: Run)
        requires
            record <= contents.len(),
        ensures
            run@ == at_record(content_views(contents@), record as nat),
    {
        if record < contents.len() {
            assert(content_views(contents@)[record as int] == contents@[record as int]@);
            if contents[record].first < u32::MAX && contents[record].second < u32::MAX {
                Run { contents, record, candidate: 0, phase: Phase::Discovering }
            } else {
                Run { contents, record, candidate: 0, phase: Phase::Halted }
            }
        } else {
            let record: usize = contents.len();
            Run { contents, record, candidate: 0, phase: Phase::Finished }
        }
    }

    /// The run over `store` at its start.
    pub fn start(store: ContentFile) -> (run: Run)
        ensures
            run@ == begin(store@),
            well_formed(run@),
    {
        let run = Self::turn_to(store.content, 0);
        proof {
            lemma_begin_well_formed(store@);
        }
        run
    }

    /// Whether every record has been gone through.
    pub fn finished(&self) -> (done: bool)
        ensures
            done == (self@.phase is Finished),
    {
        match self.phase {
            Phase::Finished => true,
            _ => false,
        }
    }

    /// The store as it stands.
    pub fn store(&self) -> (store: ContentFile)
        ensures
            store@ == self@.contents,
    {
        ContentFile::holding(&self.contents)
    }

    /// The candidate that the run is trying.
    fn candidate(&self) -> (candidate: Content)
        requires
            self@.record < self@.contents.len(),
            has_successors(self@.contents[self@.record as int]),
        ensures
            candidate@ == current_candidate(self@),
    {
        proof {
            use_type_invariant(self);
        }
        assert(content_views(self.contents@)[self.record as int] == self.contents@[self.record as int]@);
        let next = self.contents[self.record].predict_new_content();
        assert(content_views(next@).len() == next@.len());
        assert(content_views(next@)[self.candidate as int] == next@[self.candidate as int]@);
        next[self.candidate].clone()
    }

    /// What the run asks its caller to do.
    pub fn action(&self) -> (action: Action)
        ensures
            action@ == self::action(self@),
            well_formed(self@),
    {
        proof {
            use_type_invariant(self);
        }
        match &self.phase {
            Phase::Discovering => Action::Discover(self.candidate()),
            Phase::Submitting(file) => Action::Submit(file.clone()),
            Phase::Saving => Action::Save(self.store()),
            Phase::Finished => Action::Finish,
            Phase::Halted => {
                assert(content_views(self.contents@)[self.record as int]
                    == self.contents@[self.record as int]@);
                Action::Halt(self.contents[self.record].clone())
            },
        }
    }

    /// The run after its current candidate has failed.
    fn give_up(self) -> (next: Run)
        requires
            self@.phase is Discovering || self@.phase is Submitting,
        ensures
            next@ == self::give_up(self@),
    {
        proof {
            use_type_invariant(&self);
            assert(content_views(self.contents@).len() == self.contents.len());
        }
        if self.candidate == 0 {
            Run {
                contents: self.contents,
                record: self.record,
                candidate: 1,
                phase: Phase::Discovering,
            }
        } else {
            Self::turn_to(self.contents, self.record + 1)
        }
    }

    /// The run after its current candidate has been accepted.
    fn advance(self) -> (next: Run)
        requires
            self@.phase is Submitting,
        ensures
            next@ == self::advance(self@),
    {
        proof {
            use_type_invariant(&self);
        }
        let chosen = self.candidate();
        let ghost before = content_views(self.contents@);
        let mut contents = self.contents;
        contents.set(self.record, chosen);
        assert(content_views(contents@) =~= before.update(self.record as int, chosen@));
        Run { contents, record: self.record, candidate: self.candidate, phase: Phase::Saving }
    }

    /// The run that follows on `event`. An event that the run does not wait
    /// for leaves it as it is.
    pub fn step(self, event: Event) -> (next: Run)
        ensures
            next@ == self::step(self@, event@),
            well_formed(next@),
    {
        proof {
            use_type_invariant(&self);
            lemma_step_well_formed(self@, event@);
            assert(content_views(self.contents@).len() == self.contents.len());
        }
        match (&self.phase, event) {
            (Phase::Discovering, Event::Discovered(Ok(file))) => Run {
                contents: self.contents,
                record: self.record,
                candidate: self.candidate,
                phase: Phase::Submitting(file),
            },
            (Phase::Discovering, Event::Discovered(Err(_))) => self.give_up(),
            (Phase::Submitting(_), Event::Submitted(Ok(response))) => if response.success {
                self.advance()
            } else {
                self.give_up()
            },
            (Phase::Submitting(_), Event::Submitted(Err(_))) => self.give_up(),
            (Phase::Saving, Event::Saved) => Self::turn_to(self.contents, self.record + 1),
            _ => self,
        }
    }
}

} // verus!
