//! The clear protocol: a sweep that deletes every process, or every
//! process at rest, and tells which it cleared and which it could not.

use crate::database::{ProcessRecord, RecordView};
use crate::error::{Error, ErrorView};
use crate::exchange::{Event, Request, RequestView, records_view};
use crate::process::delete::{DeletePhase, DeleteProcess, DeleteView};
use crate::error::optional_error;
use crate::text::{copy_strings, strings_view};
use vstd::prelude::*;
use vstd::string::StringExecFns;

verus! {

/// What a sweep did.
#[derive(Debug, PartialEq, Eq)]
pub struct ClearResult {
    /// Number of processes cleared.
    pub cleared_count: usize,
    /// Names of the processes cleared, in the order of the sweep.
    pub cleared_processes: Vec<String>,
    /// Names of the processes that could not be cleared.
    pub failed_processes: Vec<String>,
    /// What the sweep was after: all processes, or those at rest.
    pub operation_type: String,
}

/// Mathematical value of a [`ClearResult`].
pub struct ClearResultView {
    pub cleared_count: nat,
    pub cleared_processes: Seq<Seq<char>>,
    pub failed_processes: Seq<Seq<char>>,
    pub operation_type: Seq<char>,
}

impl View for ClearResult {
    type V = ClearResultView;

    open spec fn view(&self) -> ClearResultView {
        ClearResultView {
            cleared_count: self.cleared_count as nat,
            cleared_processes: strings_view(self.cleared_processes@),
            failed_processes: strings_view(self.failed_processes@),
            operation_type: self.operation_type@,
        }
    }
}

impl Clone for ClearResult {
    fn clone(&self) -> (r: Self)
        ensures
            r@ == self@,
    {
        ClearResult {
            cleared_count: self.cleared_count,
            cleared_processes: copy_strings(&self.cleared_processes),
            failed_processes: copy_strings(&self.failed_processes),
            operation_type: self.operation_type.clone(),
        }
    }
}

/// What a sweep is said to be after.
pub open spec fn operation_label(all: bool) -> Seq<char> {
    if all {
        "all processes"@
    } else {
        "stopped/failed processes"@
    }
}

/// Where a sweep stands.
#[derive(Debug, Clone, Copy, PartialEq, Eq, Structural)]
pub enum ClearPhase {
    /// The store is asked for the records to clear.
    List,
    /// The record at hand is deleted.
    Removing,
    /// The sweep has ended.
    Done,
}

/// View of an optional delete.
pub open spec fn optional_delete(d: Option<DeleteProcess>) -> Option<DeleteView> {
    match d {
        Some(d) => Some(d@),
        None => None,
    }
}

/// Mathematical value of a [`ClearProcesses`].
pub struct ClearView {
    pub phase: ClearPhase,
    /// Whether every process is cleared, or only those at rest.
    pub all: bool,
    /// The records to clear, as the store listed them.
    pub records: Seq<RecordView>,
    /// The record at hand.
    pub index: nat,
    /// The delete of the record at hand.
    pub removal: Option<DeleteView>,
    pub cleared: Seq<Seq<char>>,
    pub failed: Seq<Seq<char>>,
    pub failure: Option<ErrorView>,
}

impl ClearView {
    /// A sweep before its first step.
    pub open spec fn initial(all: bool) -> ClearView {
        ClearView {
            phase: ClearPhase::List,
            all,
            records: Seq::empty(),
            index: 0,
            removal: None,
            cleared: Seq::empty(),
            failed: Seq::empty(),
            failure: None,
        }
    }

    /// What holds of every state that a sweep reaches.
    pub open spec fn well_formed(self) -> bool {
        &&& self.cleared.len() + self.failed.len() <= self.index <= self.records.len()
        &&& match self.phase {
            ClearPhase::List => {
                &&& self.failure is None
                &&& self.records.len() == 0
                &&& self.index == 0
                &&& self.removal is None
            },
            ClearPhase::Removing => {
                &&& self.failure is None
                &&& self.index < self.records.len()
                &&& self.removal is Some
                &&& self.removal->0.well_formed()
                &&& self.removal->0.phase != DeletePhase::Done
                &&& self.removal->0.name == self.records[self.index as int].name
            },
            ClearPhase::Done => true,
        }
    }

    /// The request that the sweep asks for in this state.
    pub open spec fn request(self) -> RequestView {
        match self.phase {
            ClearPhase::List => if self.all {
                RequestView::ListRecords
            } else {
                RequestView::ListFinishedRecords
            },
            ClearPhase::Removing => self.removal->0.request(),
            ClearPhase::Done => RequestView::Finished,
        }
    }

    /// The sweep turns to the record at `index`, or ends if there is none.
    pub open spec fn turned_to(self, index: nat) -> ClearView {
        if index >= self.records.len() {
            ClearView { phase: ClearPhase::Done, index, removal: None, ..self }
        } else {
            ClearView {
                phase: ClearPhase::Removing,
                index,
                removal: Some(DeleteView::of_record(self.records[index as int])),
                ..self
            }
        }
    }

    /// After the store has listed the records to clear. A failure ends the
    /// sweep.
    pub open spec fn after_list(self, event: Event) -> ClearView {
        match event {
            Event::Records(records) => (ClearView {
                records: records_view(records@),
                ..self
            }).turned_to(0),
            Event::Failed(e) => ClearView {
                phase: ClearPhase::Done,
                failure: Some(e@),
                ..self
            },
            _ => self,
        }
    }

    /// After a step of the delete of the record at hand. Once the delete has
    /// ended, the name of the record goes to the cleared ones or to the
    /// failed ones, and the sweep turns to the next record: a failure does
    /// not end the sweep.
    pub open spec fn after_removing(self, event: Event) -> ClearView {
        let removal = self.removal->0.step(event);
        let name = self.records[self.index as int].name;
        if removal.phase != DeletePhase::Done {
            ClearView { removal: Some(removal), ..self }
        } else if removal.failure is None {
            (ClearView { cleared: self.cleared.push(name), ..self }).turned_to(self.index + 1)
        } else {
            (ClearView { failed: self.failed.push(name), ..self }).turned_to(self.index + 1)
        }
    }

    /// The state that follows `event`. An event that is no answer to the
    /// pending request changes nothing.
    pub open spec fn step(self, event: Event) -> ClearView {
        match self.phase {
            ClearPhase::List => self.after_list(event),
            ClearPhase::Removing => self.after_removing(event),
            ClearPhase::Done => self,
        }
    }

    /// What the sweep tells of itself at its end.
    pub open spec fn result(self) -> ClearResultView {
        ClearResultView {
            cleared_count: self.cleared.len(),
            cleared_processes: self.cleared,
            failed_processes: self.failed,
            operation_type: operation_label(self.all),
        }
    }

    /// What the sweep ended with, once it has ended.
    pub open spec fn outcome(self) -> Option<Result<ClearResultView, ErrorView>> {
        if self.phase == ClearPhase::Done {
            Some(
                match self.failure {
                    Some(e) => Err(e),
                    None => Ok(self.result()),
                },
            )
        } else {
            None
        }
    }
}

/// One sweep, as a protocol.
#[derive(Debug)]
pub struct ClearProcesses {
    phase: ClearPhase,
    all: bool,
    records: Vec<ProcessRecord>,
    index: usize,
    removal: Option<DeleteProcess>,
    cleared: Vec<String>,
    failed: Vec<String>,
    failure: Option<Error>,
}

impl View for ClearProcesses {
    type V = ClearView;

    closed spec fn view(&self) -> ClearView {
        ClearView {
            phase: self.phase,
            all: self.all,
            records: records_view(self.records@),
            index: self.index as nat,
            removal: optional_delete(self.removal),
            cleared: strings_view(self.cleared@),
            failed: strings_view(self.failed@),
            failure: optional_error(self.failure),
        }
    }
}

impl ClearProcesses {
    #[verifier::type_invariant]
    spec fn inv(self) -> bool {
        self@.well_formed()
    }

    /// A sweep of all processes if `all` is set, else of those at rest,
    /// before its first step.
    pub fn new(all: bool) -> (sweep: Self)
        ensures
            sweep@ == ClearView::initial(all),
    {
        let sweep = ClearProcesses {
            phase: ClearPhase::List,
            all,
            records: Vec::new(),
            index: 0,
            removal: None,
            cleared: Vec::new(),
            failed: Vec::new(),
            failure: None,
        };
        assert(records_view(sweep.records@) =~= Seq::<RecordView>::empty());
        assert(strings_view(sweep.cleared@) =~= Seq::<Seq<char>>::empty());
        assert(strings_view(sweep.failed@) =~= Seq::<Seq<char>>::empty());
        sweep
    }

    /// Whether the sweep has ended.
    pub fn is_finished(&self) -> (done: bool)
        ensures
            done == (self@.phase == ClearPhase::Done),
            done == self@.outcome() is Some,
    {
        match self.phase {
            ClearPhase::Done => true,
            _ => false,
        }
    }

    /// The request to carry out next.
    pub fn request(&self) -> (request: Request)
        ensures
            request@ == self@.request(),
    {
        proof {
            use_type_invariant(self);
        }
        match self.phase {
            ClearPhase::List => if self.all {
                Request::ListRecords
            } else {
                Request::ListFinishedRecords
            },
            ClearPhase::Removing => match &self.removal {
                Some(removal) => removal.request(),
                None => Request::Finished,
            },
            ClearPhase::Done => Request::Finished,
        }
    }

    /// What the sweep ended with, once it has ended: its result, or the
    /// failure to list the records.
    pub fn outcome(&self) -> (outcome: Option<Result<ClearResult, Error>>)
        ensures
            match outcome {
                Some(Ok(result)) => self@.outcome() == Some(
                    Ok::<ClearResultView, ErrorView>(result@),
                ),
                Some(Err(e)) => self@.outcome() == Some(Err::<ClearResultView, ErrorView>(e@)),
                None => self@.outcome() is None,
            },
    {
        match self.phase {
            ClearPhase::Done => match &self.failure {
                Some(e) => Some(Err(e.clone())),
                None => {
                    let operation_type = if self.all {
                        String::from_str("all processes")
                    } else {
                        String::from_str("stopped/failed processes")
                    };
                    Some(
                        Ok(
                            ClearResult {
                                cleared_count: self.cleared.len(),
                                cleared_processes: copy_strings(&self.cleared),
                                failed_processes: copy_strings(&self.failed),
                                operation_type,
                            },
                        ),
                    )
                },
            },
            _ => None,
        }
    }

    fn turned_to(
        all: bool,
        records: Vec<ProcessRecord>,
        index: usize,
        cleared: Vec<String>,
        failed: Vec<String>,
    ) -> (next: Self)
        requires
            cleared.len() + failed.len() <= index <= records.len(),
        ensures
            next@ == (ClearView {
                phase: ClearPhase::List,
                all,
                records: records_view(records@),
                index: 0,
                removal: None,
                cleared: strings_view(cleared@),
                failed: strings_view(failed@),
                failure: None,
            }).turned_to(index as nat),
    {
        if index >= records.len() {
            ClearProcesses {
                phase: ClearPhase::Done,
                all,
                records,
                index,
                removal: None,
                cleared,
                failed,
                failure: None,
            }
        } else {
            let removal = DeleteProcess::of_record(&records[index]);
            ClearProcesses {
                phase: ClearPhase::Removing,
                all,
                records,
                index,
                removal: Some(removal),
                cleared,
                failed,
                failure: None,
            }
        }
    }

    fn after_list(self, event: Event) -> (next: Self)
        requires
            self@.phase == ClearPhase::List,
        ensures
            next@ == self@.after_list(event),
    {
        proof {
            use_type_invariant(&self);
        }
        match event {
            Event::Records(records) => {
                assert(self@.cleared =~= strings_view(Seq::<String>::empty()));
                assert(self@.failed =~= strings_view(Seq::<String>::empty()));
                Self::turned_to(self.all, records, 0, Vec::new(), Vec::new())
            },
            Event::Failed(e) => ClearProcesses {
                phase: ClearPhase::Done,
                failure: Some(e),
                ..self
            },
            _ => self,
        }
    }

    fn after_removing(self, event: Event) -> (next: Self)
        requires
            self@.phase == ClearPhase::Removing,
        ensures
            next@ == self@.after_removing(event),
    {
        proof {
            use_type_invariant(&self);
        }
        let ghost before = self@;
        let all = self.all;
        let index = self.index;
        let count = self.records.len();
        assert(index < count);
        let removal = match self.removal {
            Some(removal) => removal,
            None => {
                return ClearProcesses { removal: None, ..self };
            },
        };
        proof {
            removal@.lemma_step_keeps_well_formed(event);
        }
        let removal = removal.advance(event);
        if !removal.is_finished() {
            return ClearProcesses { removal: Some(removal), ..self };
        }
        let name = self.records[index].name.clone();
        let mut cleared = self.cleared;
        let mut failed = self.failed;
        let ghost cleared_before = strings_view(cleared@);
        let ghost failed_before = strings_view(failed@);
        if removal.has_failed() {
            failed.push(name);
            assert(strings_view(failed@) =~= failed_before.push(name@));
        } else {
            cleared.push(name);
            assert(strings_view(cleared@) =~= cleared_before.push(name@));
        }
        Self::turned_to(all, self.records, index + 1, cleared, failed)
    }

    /// Moves the sweep on by one observation.
    pub fn advance(self, event: Event) -> (next: Self)
        ensures
            next@ == self@.step(event),
    {
        match self.phase {
            ClearPhase::List => self.after_list(event),
            ClearPhase::Removing => self.after_removing(event),
            ClearPhase::Done => self,
        }
    }
}

} // verus!
