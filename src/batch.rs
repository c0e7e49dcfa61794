use vstd::prelude::*;

use crate::error::AppError;

verus! {

/// The stages of a batch: the output directory is made, then every candidate
/// is attempted once.
#[derive(Debug, Clone, Copy, PartialEq, Eq, Structural)]
pub enum BatchPhase {
    Init,
    DirectoryReady,
    Processing,
    Done,
}

/// A code point whose image was written, and where.
#[derive(Debug)]
pub struct OutputRecord {
    pub code_point: char,
    pub path: String,
}

/// A code point whose glyph could not be rendered or written, and why.
#[derive(Debug)]
pub struct GlyphFailure {
    pub code_point: char,
    pub error: AppError,
}

/// What a batch runner holds, as values.
pub struct BatchModel {
    pub phase: BatchPhase,
    /// The code points to attempt, in order.
    pub candidates: Seq<char>,
    /// How many of the candidates have been attempted.
    pub attempted: nat,
    /// The code points written so far, with their paths.
    pub records: Seq<(char, Seq<char>)>,
    /// The code points that failed so far, with their errors.
    pub failures: Seq<(char, AppError)>,
}

impl BatchModel {
    pub open spec fn wf(self) -> bool {
        &&& self.attempted <= self.candidates.len()
        &&& (self.phase == BatchPhase::Init || self.phase == BatchPhase::DirectoryReady) ==> {
            &&& self.attempted == 0
            &&& self.records.len() == 0
            &&& self.failures.len() == 0
        }
        &&& self.phase == BatchPhase::Processing ==> self.attempted < self.candidates.len()
        &&& self.phase == BatchPhase::Done ==> self.attempted == self.candidates.len()
    }
}

/// The phase after `attempted` of the candidates have been attempted.
pub open spec fn phase_after(attempted: nat, candidates: Seq<char>) -> BatchPhase {
    if attempted == candidates.len() {
        BatchPhase::Done
    } else {
        BatchPhase::Processing
    }
}

/// Drives a batch over the candidate code points and gathers its outcome:
/// the images written, and the glyphs that failed. A glyph that the font
/// does not define is neither.
pub struct BatchRunner {
    phase: BatchPhase,
    candidates: Vec<char>,
    attempted: usize,
    records: Vec<OutputRecord>,
    failures: Vec<GlyphFailure>,
}

impl View for BatchRunner {
    type V = BatchModel;

    closed spec fn view(&self) -> BatchModel {
        BatchModel {
            phase: self.phase,
            candidates: self.candidates@,
            attempted: self.attempted as nat,
            records: self.records@.map_values(|r: OutputRecord| (r.code_point, r.path@)),
            failures: self.failures@.map_values(|f: GlyphFailure| (f.code_point, f.error)),
        }
    }
}

impl BatchRunner {
    /// A batch over the given candidates, in its first phase.
    pub fn new(candidates: Vec<char>) -> (r: BatchRunner)
        ensures
            r@.wf(),
            r@.phase == BatchPhase::Init,
            r@.candidates == candidates@,
            r@.attempted == 0,
            r@.records.len() == 0,
            r@.failures.len() == 0,
    {
        let r = BatchRunner {
            phase: BatchPhase::Init,
            candidates,
            attempted: 0,
            records: Vec::new(),
            failures: Vec::new(),
        };
        assert(r@.records =~= Seq::<(char, Seq<char>)>::empty());
        assert(r@.failures =~= Seq::<(char, AppError)>::empty());
        r
    }

    /// The phase the batch is in.
    pub fn phase(&self) -> (r: BatchPhase)
        ensures
            r == self@.phase,
    {
        self.phase
    }

    /// The code points to attempt, in order.
    pub fn candidates(&self) -> (r: &Vec<char>)
        ensures
            r@ == self@.candidates,
    {
        &self.candidates
    }

    /// The code points written so far, in the order they were attempted.
    pub fn records(&self) -> (r: &Vec<OutputRecord>)
        ensures
            r@.map_values(|o: OutputRecord| (o.code_point, o.path@)) == self@.records,
    {
        &self.records
    }

    /// The code points that failed so far, in the order they were attempted.
    pub fn failures(&self) -> (r: &Vec<GlyphFailure>)
        ensures
            r@.map_values(|f: GlyphFailure| (f.code_point, f.error)) == self@.failures,
    {
        &self.failures
    }

    /// The output directory now exists.
    pub fn directory_ready(&mut self)
        requires
            old(self)@.wf(),
            old(self)@.phase == BatchPhase::Init,
        ensures
            final(self)@ == (BatchModel { phase: BatchPhase::DirectoryReady, ..old(self)@ }),
            final(self)@.wf(),
    {
        self.phase = BatchPhase::DirectoryReady;
        assert(self@ =~= (BatchModel { phase: BatchPhase::DirectoryReady, ..old(self)@ }));
    }

    /// Starts attempting the candidates; a batch with none is done at once.
    pub fn start(&mut self)
        requires
            old(self)@.wf(),
            old(self)@.phase == BatchPhase::DirectoryReady,
        ensures
            final(self)@ == (BatchModel {
                phase: phase_after(0, old(self)@.candidates),
                ..old(self)@
            }),
            final(self)@.wf(),
    {
        self.phase = if self.candidates.len() == 0 {
            BatchPhase::Done
        } else {
            BatchPhase::Processing
        };
        assert(self@ =~= (BatchModel {
            phase: phase_after(0, old(self)@.candidates),
            ..old(self)@
        }));
    }

    /// The next code point to attempt, while the batch is processing.
    pub fn next_candidate(&self) -> (r: Option<char>)
        requires
            self@.wf(),
        ensures
            self@.phase == BatchPhase::Processing ==> r == Some(
                self@.candidates[self@.attempted as int],
            ),
            self@.phase != BatchPhase::Processing ==> r is None,
    {
        if self.phase == BatchPhase::Processing {
            Some(self.candidates[self.attempted])
        } else {
            None
        }
    }

    /// Takes in the outcome for the next candidate: the path its image was
    /// written to, or the error that stopped it. A glyph that the font does
    /// not define is passed over silently; any other error is kept as a
    /// failure. The batch is done once every candidate has been attempted.
    pub fn record(&mut self, outcome: Result<String, AppError>)
        requires
            old(self)@.wf(),
            old(self)@.phase == BatchPhase::Processing,
        ensures
            final(self)@.wf(),
            final(self)@.candidates == old(self)@.candidates,
            final(self)@.attempted == old(self)@.attempted + 1,
            final(self)@.phase == phase_after(final(self)@.attempted, final(self)@.candidates),
            ({
                let c = old(self)@.candidates[old(self)@.attempted as int];
                match outcome {
                    Ok(path) => {
                        &&& final(self)@.records == old(self)@.records.push((c, path@))
                        &&& final(self)@.failures == old(self)@.failures
                    },
                    Err(e) => {
                        &&& final(self)@.records == old(self)@.records
                        &&& final(self)@.failures == if e is GlyphNotDefined {
                            old(self)@.failures
                        } else {
                            old(self)@.failures.push((c, e))
                        }
                    },
                }
            }),
    {
        assert(self.attempted < self.candidates@.len());
        let c = self.candidates[self.attempted];
        let n = self.candidates.len();
        let next = self.attempted + 1;
        match outcome {
            Ok(path) => self.add_record(c, path),
            Err(AppError::GlyphNotDefined(_)) => {},
            Err(error) => self.add_failure(c, error),
        }
        self.attempted = next;
        if next == n {
            self.phase = BatchPhase::Done;
        }
    }

    fn add_record(&mut self, c: char, path: String)
        ensures
            final(self)@ == (BatchModel {
                records: old(self)@.records.push((c, path@)),
                ..old(self)@
            }),
    {
        let ghost p = path@;
        self.records.push(OutputRecord { code_point: c, path });
        assert(self@.records =~= old(self)@.records.push((c, p)));
        assert(self@ =~= (BatchModel { records: old(self)@.records.push((c, p)), ..old(self)@ }));
    }

    fn add_failure(&mut self, c: char, error: AppError)
        ensures
            final(self)@ == (BatchModel {
                failures: old(self)@.failures.push((c, error)),
                ..old(self)@
            }),
    {
        let ghost e = error;
        self.failures.push(GlyphFailure { code_point: c, error });
        assert(self@.failures =~= old(self)@.failures.push((c, e)));
        assert(self@ =~= (BatchModel { failures: old(self)@.failures.push((c, e)), ..old(self)@ }));
    }
}

} // verus!
