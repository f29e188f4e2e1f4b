//! Passive reconciliation on read: the status of one process, and the list
//! of all, each record set right against a liveness probe before it is
//! handed out.

use crate::database::{ProcessRecord, RecordView, optional_record};
use crate::error::{Error, ErrorView};
use crate::lifecycle::reconciled;
use crate::exchange::{Event, Request, RequestView, records_view};
use crate::error::optional_error;
use vstd::prelude::*;

verus! {

/// Where a reading of one status stands.
#[derive(Debug, Clone, Copy, PartialEq, Eq, Structural)]
pub enum StatusPhase {
    /// The record is looked up.
    Find,
    /// The process is probed.
    Probe,
    /// The corrected status is stored.
    Update,
    /// The reading has ended.
    Done,
}

/// Mathematical value of a [`GetStatus`].
pub struct StatusView {
    pub phase: StatusPhase,
    pub name: Seq<char>,
    pub record: Option<RecordView>,
    pub failure: Option<ErrorView>,
}

impl StatusView {
    /// The reading of the status of `name` before its first step.
    pub open spec fn initial(name: Seq<char>) -> StatusView {
        StatusView { phase: StatusPhase::Find, name, record: None, failure: None }
    }

    /// What holds of every state that a reading reaches.
    pub open spec fn well_formed(self) -> bool {
        match self.phase {
            StatusPhase::Find => self.failure is None,
            StatusPhase::Probe => self.failure is None && self.record is Some
                && self.record->0.pid is Some,
            StatusPhase::Update => self.failure is None && self.record is Some,
            StatusPhase::Done => self.failure is None ==> self.record is Some,
        }
    }

    /// The request that the reading asks for in this state.
    pub open spec fn request(self) -> RequestView {
        match self.phase {
            StatusPhase::Find => RequestView::FindRecord { name: self.name },
            StatusPhase::Probe => RequestView::Probe { pid: self.record->0.pid->0 },
            StatusPhase::Update => RequestView::UpdateStatus {
                name: self.name,
                status: self.record->0.status,
                pid: self.record->0.pid,
            },
            StatusPhase::Done => RequestView::Finished,
        }
    }

    /// The reading ends at once with `failure`.
    pub open spec fn ended_with(self, failure: ErrorView) -> StatusView {
        StatusView { phase: StatusPhase::Done, failure: Some(failure), ..self }
    }

    /// The record `record` is reconciled against the probe result `alive`;
    /// the store is written to only if the status changed.
    pub open spec fn settled(self, record: RecordView, alive: bool) -> StatusView {
        StatusView {
            phase: if record.needs_update(alive) {
                StatusPhase::Update
            } else {
                StatusPhase::Done
            },
            record: Some(record.reconciled(alive)),
            ..self
        }
    }

    /// After the lookup: a record with a pid is probed, one without is
    /// reconciled at once.
    pub open spec fn after_find(self, event: Event) -> StatusView {
        match event {
            Event::Record(None) => self.ended_with(ErrorView::ProcessNotFound(self.name)),
            Event::Record(Some(record)) => if record.pid is Some {
                StatusView { phase: StatusPhase::Probe, record: Some(record@), ..self }
            } else {
                self.settled(record@, false)
            },
            Event::Failed(e) => self.ended_with(e@),
            _ => self,
        }
    }

    /// After the probe. A probe that failed counts as "not alive".
    pub open spec fn after_probe(self, event: Event) -> StatusView {
        match event {
            Event::Alive(alive) => self.settled(self.record->0, alive),
            Event::Failed(_) => self.settled(self.record->0, false),
            _ => self,
        }
    }

    /// After the store was asked to take the corrected status.
    pub open spec fn after_update(self, event: Event) -> StatusView {
        match event {
            Event::Done => StatusView { phase: StatusPhase::Done, ..self },
            Event::Failed(e) => self.ended_with(e@),
            _ => self,
        }
    }

    /// The state that follows `event`. An event that is no answer to the
    /// pending request changes nothing.
    pub open spec fn step(self, event: Event) -> StatusView {
        match self.phase {
            StatusPhase::Find => self.after_find(event),
            StatusPhase::Probe => self.after_probe(event),
            StatusPhase::Update => self.after_update(event),
            StatusPhase::Done => self,
        }
    }

    /// What the reading ended with, once it has ended: the reconciled
    /// record, or the failure.
    pub open spec fn outcome(self) -> Option<Result<RecordView, ErrorView>> {
        if self.phase == StatusPhase::Done {
            Some(
                match self.failure {
                    Some(e) => Err(e),
                    None => Ok(self.record->0),
                },
            )
        } else {
            None
        }
    }
}

/// One reading of the status of a process, as a protocol.
#[derive(Debug)]
pub struct GetStatus {
    phase: StatusPhase,
    name: String,
    record: Option<ProcessRecord>,
    failure: Option<Error>,
}

impl View for GetStatus {
    type V = StatusView;

    closed spec fn view(&self) -> StatusView {
        StatusView {
            phase: self.phase,
            name: self.name@,
            record: optional_record(self.record),
            failure: optional_error(self.failure),
        }
    }
}

impl GetStatus {
    #[verifier::type_invariant]
    spec fn inv(self) -> bool {
        self@.well_formed()
    }

    /// The reading of the status of `name`, before its first step.
    pub fn new(name: String) -> (reading: Self)
        ensures
            reading@ == StatusView::initial(name@),
    {
        GetStatus { phase: StatusPhase::Find, name, record: None, failure: None }
    }

    /// Whether the reading has ended.
    pub fn is_finished(&self) -> (done: bool)
        ensures
            done == (self@.phase == StatusPhase::Done),
            done == (self@.request() == RequestView::Finished),
            done == self@.outcome() is Some,
    {
        match self.phase {
            StatusPhase::Done => true,
            _ => false,
        }
    }

    /// The request to carry out next.
    pub fn request(&self) -> (request: Request)
        ensures
            request@ == self@.request(),
    {
        proof {
            use_type_invariant(self);
        }
        match self.phase {
            StatusPhase::Find => Request::FindRecord { name: self.name.clone() },
            StatusPhase::Probe => match &self.record {
                Some(record) => Request::Probe { pid: record.pid.unwrap() },
                None => Request::Finished,
            },
            StatusPhase::Update => match &self.record {
                Some(record) => Request::UpdateStatus {
                    name: self.name.clone(),
                    status: record.status,
                    pid: record.pid,
                },
                None => Request::Finished,
            },
            StatusPhase::Done => Request::Finished,
        }
    }

    /// What the reading ended with, once it has ended: the reconciled
    /// record, or the failure.
    pub fn outcome(&self) -> (outcome: Option<Result<ProcessRecord, Error>>)
        ensures
            match outcome {
                Some(Ok(record)) => self@.outcome() == Some(Ok::<RecordView, ErrorView>(record@)),
                Some(Err(e)) => self@.outcome() == Some(Err::<RecordView, ErrorView>(e@)),
                None => self@.outcome() is None,
            },
    {
        proof {
            use_type_invariant(self);
        }
        match self.phase {
            StatusPhase::Done => match &self.failure {
                Some(e) => Some(Err(e.clone())),
                None => match &self.record {
                    Some(record) => Some(Ok(record.clone())),
                    None => None,
                },
            },
            _ => None,
        }
    }

    fn ended_with(self, failure: Error) -> (next: Self)
        ensures
            next@ == self@.ended_with(failure@),
    {
        GetStatus { phase: StatusPhase::Done, failure: Some(failure), ..self }
    }

    fn settled(self, record: ProcessRecord, alive: bool) -> (next: Self)
        requires
            self@.failure is None,
        ensures
            next@ == self@.settled(record@, alive),
    {
        let mut record = record;
        let update = record.reconcile(alive);
        let phase = if update.is_some() {
            StatusPhase::Update
        } else {
            StatusPhase::Done
        };
        GetStatus { phase, record: Some(record), ..self }
    }

    fn after_find(self, event: Event) -> (next: Self)
        requires
            self@.phase == StatusPhase::Find,
        ensures
            next@ == self@.after_find(event),
    {
        proof {
            use_type_invariant(&self);
        }
        match event {
            Event::Record(None) => {
                let name = self.name.clone();
                self.ended_with(Error::ProcessNotFound(name))
            },
            Event::Record(Some(record)) => {
                if record.pid.is_some() {
                    GetStatus { phase: StatusPhase::Probe, record: Some(record), ..self }
                } else {
                    self.settled(record, false)
                }
            },
            Event::Failed(e) => self.ended_with(e),
            _ => self,
        }
    }

    fn after_probe(self, event: Event) -> (next: Self)
        requires
            self@.phase == StatusPhase::Probe,
        ensures
            next@ == self@.after_probe(event),
    {
        proof {
            use_type_invariant(&self);
        }
        let alive = match event {
            Event::Alive(alive) => alive,
            Event::Failed(_) => false,
            _ => {
                return self;
            },
        };
        let record = match &self.record {
            Some(record) => record.clone(),
            None => {
                return self;
            },
        };
        self.settled(record, alive)
    }

    fn after_update(self, event: Event) -> (next: Self)
        requires
            self@.phase == StatusPhase::Update,
        ensures
            next@ == self@.after_update(event),
    {
        proof {
            use_type_invariant(&self);
        }
        match event {
            Event::Done => GetStatus { phase: StatusPhase::Done, ..self },
            Event::Failed(e) => self.ended_with(e),
            _ => self,
        }
    }

    /// Moves the reading on by one observation.
    pub fn advance(self, event: Event) -> (next: Self)
        ensures
            next@ == self@.step(event),
    {
        match self.phase {
            StatusPhase::Find => self.after_find(event),
            StatusPhase::Probe => self.after_probe(event),
            StatusPhase::Update => self.after_update(event),
            StatusPhase::Done => self,
        }
    }
}

/// Where a listing stands.
#[derive(Debug, Clone, Copy, PartialEq, Eq, Structural)]
pub enum ListPhase {
    /// The store is asked for every record.
    List,
    /// The process of the record at hand is probed.
    Probe,
    /// The corrected status of the record at hand is stored.
    Update,
    /// The listing has ended.
    Done,
}

/// Mathematical value of a [`ListProcesses`].
pub struct ListView {
    pub phase: ListPhase,
    /// The records as listed; those before `index` are reconciled.
    pub records: Seq<RecordView>,
    /// The record at hand.
    pub index: nat,
    pub failure: Option<ErrorView>,
}

impl ListView {
    /// A listing before its first step.
    pub open spec fn initial() -> ListView {
        ListView { phase: ListPhase::List, records: Seq::empty(), index: 0, failure: None }
    }

    /// What holds of every state that a listing reaches.
    pub open spec fn well_formed(self) -> bool {
        match self.phase {
            ListPhase::List => self.failure is None,
            ListPhase::Probe => self.failure is None && self.index < self.records.len()
                && self.records[self.index as int].pid is Some,
            ListPhase::Update => self.failure is None && self.index < self.records.len(),
            ListPhase::Done => true,
        }
    }

    /// The request that the listing asks for in this state.
    pub open spec fn request(self) -> RequestView {
        match self.phase {
            ListPhase::List => RequestView::ListRecords,
            ListPhase::Probe => RequestView::Probe { pid: self.records[self.index as int].pid->0 },
            ListPhase::Update => RequestView::UpdateStatus {
                name: self.records[self.index as int].name,
                status: self.records[self.index as int].status,
                pid: self.records[self.index as int].pid,
            },
            ListPhase::Done => RequestView::Finished,
        }
    }

    /// The listing ends at once with `failure`.
    pub open spec fn ended_with(self, failure: ErrorView) -> ListView {
        ListView { phase: ListPhase::Done, failure: Some(failure), ..self }
    }

    /// The listing goes through the records from `index` on until one asks
    /// for a probe or for a write to the store: a record with a pid is
    /// probed; one without is reconciled at once, and stored if its status
    /// changed.
    pub open spec fn sought(self, index: nat) -> ListView
        decreases self.records.len() - index,
    {
        if index >= self.records.len() {
            ListView { phase: ListPhase::Done, index, ..self }
        } else if self.records[index as int].pid is Some {
            ListView { phase: ListPhase::Probe, index, ..self }
        } else if self.records[index as int].needs_update(false) {
            ListView {
                phase: ListPhase::Update,
                index,
                records: self.records.update(
                    index as int,
                    self.records[index as int].reconciled(false),
                ),
                ..self
            }
        } else {
            (ListView {
                records: self.records.update(
                    index as int,
                    self.records[index as int].reconciled(false),
                ),
                ..self
            }).sought(index + 1)
        }
    }

    /// After the store has listed its records.
    pub open spec fn after_list(self, event: Event) -> ListView {
        match event {
            Event::Records(records) => (ListView { records: records_view(records@), ..self }).sought(
                0,
            ),
            Event::Failed(e) => self.ended_with(e@),
            _ => self,
        }
    }

    /// The record at hand is reconciled against the probe result `alive`.
    pub open spec fn settled(self, alive: bool) -> ListView {
        let record = self.records[self.index as int];
        let records = self.records.update(self.index as int, record.reconciled(alive));
        if record.needs_update(alive) {
            ListView { phase: ListPhase::Update, records, ..self }
        } else {
            (ListView { records, ..self }).sought(self.index + 1)
        }
    }

    /// After the probe of the record at hand. A probe that failed counts as
    /// "not alive".
    pub open spec fn after_probe(self, event: Event) -> ListView {
        match event {
            Event::Alive(alive) => self.settled(alive),
            Event::Failed(_) => self.settled(false),
            _ => self,
        }
    }

    /// After the store was asked to take the corrected status of the record
    /// at hand. A failure ends the listing.
    pub open spec fn after_update(self, event: Event) -> ListView {
        match event {
            Event::Done => self.sought(self.index + 1),
            Event::Failed(e) => self.ended_with(e@),
            _ => self,
        }
    }

    /// The state that follows `event`. An event that is no answer to the
    /// pending request changes nothing.
    pub open spec fn step(self, event: Event) -> ListView {
        match self.phase {
            ListPhase::List => self.after_list(event),
            ListPhase::Probe => self.after_probe(event),
            ListPhase::Update => self.after_update(event),
            ListPhase::Done => self,
        }
    }

    /// What the listing ended with, once it has ended: the reconciled
    /// records in the order of the store's listing, or the failure.
    pub open spec fn outcome(self) -> Option<Result<Seq<RecordView>, ErrorView>> {
        if self.phase == ListPhase::Done {
            Some(
                match self.failure {
                    Some(e) => Err(e),
                    None => Ok(self.records),
                },
            )
        } else {
            None
        }
    }
}

/// One listing of all processes, as a protocol.
#[derive(Debug)]
pub struct ListProcesses {
    phase: ListPhase,
    records: Vec<ProcessRecord>,
    index: usize,
    failure: Option<Error>,
}

impl View for ListProcesses {
    type V = ListView;

    closed spec fn view(&self) -> ListView {
        ListView {
            phase: self.phase,
            records: records_view(self.records@),
            index: self.index as nat,
            failure: optional_error(self.failure),
        }
    }
}

/// A fresh copy of the records of `v`.
pub fn copy_records(v: &Vec<ProcessRecord>) -> (r: Vec<ProcessRecord>)
    ensures
        records_view(r@) == records_view(v@),
{
    let mut r: Vec<ProcessRecord> = Vec::new();
    let mut i: usize = 0;
    while i < v.len()
        invariant
            i <= v.len(),
            r.len() == i,
            forall|j: int| 0 <= j < i ==> (#[trigger] r@[j])@ == v@[j]@,
        decreases v.len() - i,
    {
        r.push(v[i].clone());
        i += 1;
    }
    assert(records_view(r@) =~= records_view(v@));
    r
}

impl ListProcesses {
    #[verifier::type_invariant]
    spec fn inv(self) -> bool {
        self@.well_formed()
    }

    /// A listing, before its first step.
    pub fn new() -> (listing: Self)
        ensures
            listing@ == ListView::initial(),
    {
        let listing = ListProcesses {
            phase: ListPhase::List,
            records: Vec::new(),
            index: 0,
            failure: None,
        };
        assert(records_view(listing.records@) =~= Seq::<RecordView>::empty());
        listing
    }

    /// Whether the listing has ended.
    pub fn is_finished(&self) -> (done: bool)
        ensures
            done == (self@.phase == ListPhase::Done),
            done == (self@.request() == RequestView::Finished),
            done == self@.outcome() is Some,
    {
        match self.phase {
            ListPhase::Done => true,
            _ => false,
        }
    }

    /// The request to carry out next.
    pub fn request(&self) -> (request: Request)
        ensures
            request@ == self@.request(),
    {
        proof {
            use_type_invariant(self);
        }
        match self.phase {
            ListPhase::List => Request::ListRecords,
            ListPhase::Probe => Request::Probe { pid: self.records[self.index].pid.unwrap() },
            ListPhase::Update => Request::UpdateStatus {
                name: self.records[self.index].name.clone(),
                status: self.records[self.index].status,
                pid: self.records[self.index].pid,
            },
            ListPhase::Done => Request::Finished,
        }
    }

    /// What the listing ended with, once it has ended: the reconciled
    /// records in the order of the store's listing, or the failure.
    pub fn outcome(&self) -> (outcome: Option<Result<Vec<ProcessRecord>, Error>>)
        ensures
            match outcome {
                Some(Ok(records)) => self@.outcome() == Some(
                    Ok::<Seq<RecordView>, ErrorView>(records_view(records@)),
                ),
                Some(Err(e)) => self@.outcome() == Some(Err::<Seq<RecordView>, ErrorView>(e@)),
                None => self@.outcome() is None,
            },
    {
        match self.phase {
            ListPhase::Done => match &self.failure {
                Some(e) => Some(Err(e.clone())),
                None => Some(Ok(copy_records(&self.records))),
            },
            _ => None,
        }
    }

    fn ended_with(self, failure: Error) -> (next: Self)
        ensures
            next@ == self@.ended_with(failure@),
    {
        ListProcesses { phase: ListPhase::Done, failure: Some(failure), ..self }
    }

    #[verifier::loop_isolation(false)]
    fn sought(records: Vec<ProcessRecord>, index: usize) -> (next: Self)
        requires
            index <= records.len(),
        ensures
            next@ == (ListView {
                phase: ListPhase::List,
                records: records_view(records@),
                index: 0,
                failure: None,
            }).sought(index as nat),
    {
        let ghost start = ListView {
            phase: ListPhase::List,
            records: records_view(records@),
            index: 0,
            failure: None,
        };
        let mut records = records;
        let mut i: usize = index;
        while i < records.len()
            invariant
                i <= records.len(),
                (ListView { records: records_view(records@), ..start }).sought(i as nat)
                    == start.sought(index as nat),
            decreases records.len() - i,
        {
            if records[i].pid.is_some() {
                return ListProcesses { phase: ListPhase::Probe, records, index: i, failure: None };
            }
            let ghost before = records_view(records@);
            let mut record = records[i].clone();
            let update = record.reconcile(false);
            records.set(i, record);
            assert(records_view(records@) =~= before.update(
                i as int,
                before[i as int].reconciled(false),
            ));
            if update.is_some() {
                return ListProcesses { phase: ListPhase::Update, records, index: i, failure: None };
            }
            i += 1;
        }
        ListProcesses { phase: ListPhase::Done, records, index: i, failure: None }
    }

    fn settled(self, alive: bool) -> (next: Self)
        requires
            self@.phase == ListPhase::Probe || self@.phase == ListPhase::Update,
            self@.failure is None,
            self@.index < self@.records.len(),
        ensures
            next@ == self@.settled(alive),
    {
        let index = self.index;
        let count = self.records.len();
        assert(index < count);
        let mut records = self.records;
        let ghost before = records_view(records@);
        let mut record = records[index].clone();
        let update = record.reconcile(alive);
        records.set(index, record);
        assert(records_view(records@) =~= before.update(
            index as int,
            before[index as int].reconciled(alive),
        ));
        if update.is_some() {
            ListProcesses { phase: ListPhase::Update, records, index, failure: None }
        } else {
            let ghost shown = ListView {
                phase: self.phase,
                records: records_view(records@),
                index: index as nat,
                failure: None,
            };
            let ghost plain = ListView {
                phase: ListPhase::List,
                records: records_view(records@),
                index: 0,
                failure: None,
            };
            proof {
                lemma_sought_ignores_position(shown, plain, (index + 1) as nat);
            }
            Self::sought(records, index + 1)
        }
    }

    fn after_list(self, event: Event) -> (next: Self)
        requires
            self@.phase == ListPhase::List,
        ensures
            next@ == self@.after_list(event),
    {
        proof {
            use_type_invariant(&self);
        }
        match event {
            Event::Records(records) => {
                let ghost shown = ListView { records: records_view(records@), ..self@ };
                let ghost plain = ListView {
                    phase: ListPhase::List,
                    records: records_view(records@),
                    index: 0,
                    failure: None,
                };
                proof {
                    lemma_sought_ignores_position(shown, plain, 0);
                }
                Self::sought(records, 0)
            },
            Event::Failed(e) => self.ended_with(e),
            _ => self,
        }
    }

    fn after_probe(self, event: Event) -> (next: Self)
        requires
            self@.phase == ListPhase::Probe,
        ensures
            next@ == self@.after_probe(event),
    {
        proof {
            use_type_invariant(&self);
        }
        match event {
            Event::Alive(alive) => self.settled(alive),
            Event::Failed(_) => self.settled(false),
            _ => self,
        }
    }

    fn after_update(self, event: Event) -> (next: Self)
        requires
            self@.phase == ListPhase::Update,
        ensures
            next@ == self@.after_update(event),
    {
        proof {
            use_type_invariant(&self);
        }
        match event {
            Event::Done => {
                let ghost plain = ListView {
                    phase: ListPhase::List,
                    records: self@.records,
                    index: 0,
                    failure: None,
                };
                proof {
                    lemma_sought_ignores_position(self@, plain, self@.index + 1);
                }
                let index = self.index;
                let count = self.records.len();
                assert(index < count);
                Self::sought(self.records, index + 1)
            },
            Event::Failed(e) => self.ended_with(e),
            _ => self,
        }
    }

    /// Moves the listing on by one observation.
    pub fn advance(self, event: Event) -> (next: Self)
        ensures
            next@ == self@.step(event),
    {
        match self.phase {
            ListPhase::List => self.after_list(event),
            ListPhase::Probe => self.after_probe(event),
            ListPhase::Update => self.after_update(event),
            ListPhase::Done => self,
        }
    }
}

/// Where the search for the next record to treat ends depends on the
/// records and on the failure, not on the phase and the index it starts
/// with.
proof fn lemma_sought_ignores_position(a: ListView, b: ListView, index: nat)
    requires
        a.records == b.records,
        a.failure == b.failure,
    ensures
        a.sought(index) == b.sought(index),
    decreases a.records.len() - index,
{
    if index < a.records.len() && a.records[index as int].pid is None
        && !a.records[index as int].needs_update(false) {
        let records = a.records.update(index as int, a.records[index as int].reconciled(false));
        lemma_sought_ignores_position(
            ListView { records, ..a },
            ListView { records, ..b },
            index + 1,
        );
    }
}

} // verus!
