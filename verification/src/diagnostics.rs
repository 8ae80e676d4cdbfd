//! The diagnostics sink: an ordered, append-only log of compile messages.

use vstd::prelude::*;

verus! {

/// How serious a diagnostic is.
#[derive(Clone, Copy, Debug, PartialEq, Eq, Structural)]
pub enum DiagnosticLevel {
    Error,
    Warning,
}

/// A position in the source text, as a byte offset.
#[derive(Clone, Copy, Debug, PartialEq, Eq, Structural)]
pub struct SourceLocation {
    pub offset: u32,
}

/// One record of the log.
#[derive(Debug)]
pub struct Diagnostic {
    pub level: DiagnosticLevel,
    pub message: String,
    /// Where in the source the message points; `None` where it has no place there.
    pub span: Option<SourceLocation>,
}

/// What a diagnostic says, as plain values.
pub ghost struct DiagnosticModel {
    pub level: DiagnosticLevel,
    pub message: Seq<char>,
    pub span: Option<SourceLocation>,
}

impl View for Diagnostic {
    type V = DiagnosticModel;

    open spec fn view(&self) -> DiagnosticModel {
        DiagnosticModel { level: self.level, message: self.message@, span: self.span }
    }
}

impl Clone for Diagnostic {
    fn clone(&self) -> (copy: Self)
        ensures
            copy@ == self@,
    {
        Diagnostic { level: self.level, message: self.message.clone(), span: self.span }
    }
}

/// The number of records of `log` that are errors.
pub open spec fn error_count(log: Seq<DiagnosticModel>) -> nat
    decreases log.len(),
{
    if log.len() == 0 {
        0
    } else {
        error_count(log.drop_last()) + if log.last().level == DiagnosticLevel::Error {
            1nat
        } else {
            0nat
        }
    }
}

/// The sink that a pass reports to. Records are only ever appended. A sink
/// made for one speculative operation is simply dropped with its records.
#[derive(Debug)]
pub struct BuildDiagnostics {
    inner: Vec<Diagnostic>,
}

impl View for BuildDiagnostics {
    type V = Seq<DiagnosticModel>;

    closed spec fn view(&self) -> Seq<DiagnosticModel> {
        self.inner@.map_values(|d: Diagnostic| d@)
    }
}

impl Default for BuildDiagnostics {
    fn default() -> (sink: Self)
        ensures
            sink@ == Seq::<DiagnosticModel>::empty(),
    {
        let sink = BuildDiagnostics { inner: Vec::new() };
        assert(sink@ =~= Seq::<DiagnosticModel>::empty());
        sink
    }
}

impl BuildDiagnostics {
    /// Appends a record of the given level.
    pub fn push_diagnostic(
        &mut self,
        level: DiagnosticLevel,
        message: String,
        span: Option<SourceLocation>,
    )
        ensures
            final(self)@ == old(self)@.push(DiagnosticModel { level, message: message@, span }),
    {
        let ghost record = DiagnosticModel { level, message: message@, span };
        self.inner.push(Diagnostic { level, message, span });
        assert(self@ =~= old(self)@.push(record));
    }

    /// Appends an error.
    pub fn push_error(&mut self, message: String, span: Option<SourceLocation>)
        ensures
            final(self)@ == old(self)@.push(
                DiagnosticModel { level: DiagnosticLevel::Error, message: message@, span },
            ),
    {
        self.push_diagnostic(DiagnosticLevel::Error, message, span);
    }

    /// Appends a warning.
    pub fn push_warning(&mut self, message: String, span: Option<SourceLocation>)
        ensures
            final(self)@ == old(self)@.push(
                DiagnosticModel { level: DiagnosticLevel::Warning, message: message@, span },
            ),
    {
        self.push_diagnostic(DiagnosticLevel::Warning, message, span);
    }

    /// The number of records.
    pub fn len(&self) -> (n: usize)
        ensures
            n == self@.len(),
    {
        self.inner.len()
    }

    /// Whether nothing was reported.
    pub fn is_empty(&self) -> (empty: bool)
        ensures
            empty == (self@.len() == 0),
    {
        self.inner.len() == 0
    }

    /// The record at position `index`, in the order of reporting.
    pub fn get(&self, index: usize) -> (record: Option<Diagnostic>)
        ensures
            index < self@.len() ==> record is Some && record->0@ == self@[index as int],
            index >= self@.len() ==> record is None,
    {
        if index < self.inner.len() {
            Some(self.inner[index].clone())
        } else {
            None
        }
    }

    /// Whether at least one error was reported.
    pub fn has_errors(&self) -> (found: bool)
        ensures
            found == (error_count(self@) > 0),
    {
        let mut found = false;
        let mut i: usize = 0;
        assert(self@.take(0) =~= Seq::<DiagnosticModel>::empty());
        while i < self.inner.len()
            invariant
                i <= self.inner.len(),
                self@.len() == self.inner.len(),
                found == (error_count(self@.take(i as int)) > 0),
            decreases self.inner.len() - i,
        {
            assert(self@.take(i + 1).drop_last() =~= self@.take(i as int));
            assert(self@.take(i + 1).last() == self.inner@[i as int]@);
            if self.inner[i].level == DiagnosticLevel::Error {
                found = true;
            }
            i += 1;
        }
        assert(self@.take(i as int) =~= self@);
        found
    }
}

} // verus!
