//! Diagnostics: a builder configured field by field — severity, title, span,
//! optional inline label — and consumed once by [`ErrorBuilder::emit`], which
//! renders an annotated snippet of the affected source lines to the
//! diagnostic stream.
//!
//! A fatal diagnostic must abort the whole scan: `emit` reports that by
//! returning [`Fatal`], which every scanning step propagates outwards by
//! early return. A span that does not lie within the source — `lo > hi`, or
//! an end past the content — indicates a bug in the caller of the diagnostic
//! subsystem, not bad input text; it aborts the same way regardless of the
//! configured severity.

use std::io::Write;

use vstd::prelude::*;
use vstd::string::StringExecFns;

use annotate_snippets::display_list::DisplayList;
use annotate_snippets::formatter::DisplayListFormatter;
use annotate_snippets::snippet::{Annotation, AnnotationType, Slice, Snippet, SourceAnnotation};

use crate::ParserSession;
use crate::source::{
    Source, col_of, lemma_line_end_bounds, lemma_line_of_monotone, lemma_line_start_nonneg,
    lemma_line_start_unfold, lemma_offset_in_line, lemma_offset_line_end, line_of, line_seq,
    line_start,
};

verus! {

/// Severity of a diagnostic or of its inline label.
#[derive(PartialEq, Eq, Structural, Clone, Copy, Debug)]
pub enum Severity {
    Info,
    Error,
    Warning,
    Help,
}

/// Result of emitting a fatal diagnostic: the scan must stop, no further
/// tokens are produced, and control returns to whoever started the scan.
#[derive(PartialEq, Eq, Structural, Clone, Copy, Debug)]
pub struct Fatal;

pub open spec fn severity_code(s: Severity) -> int {
    match s {
        Severity::Info => 0,
        Severity::Error => 1,
        Severity::Warning => 2,
        Severity::Help => 3,
    }
}

/// Byte length of the 1-based line `k`, its `\n` terminator included.
pub open spec fn line_len(c: Seq<u8>, k: int) -> int {
    line_seq(c, k).len() as int
}

/// Sum of the byte lengths of the lines numbered `a` through `b`.
pub open spec fn sum_line_lens(c: Seq<u8>, a: int, b: int) -> int
    decreases b + 1 - a,
{
    if a > b {
        0
    } else {
        line_len(c, a) + sum_line_lens(c, a + 1, b)
    }
}

/// End of the highlighted range, in columns of the block formed by
/// concatenating every source line from `lo`'s line through `hi`'s line: for
/// a single-line span simply `hi`'s column; for a multi-line span, `hi`'s
/// column plus the remainder of the first line past `lo`'s column plus the
/// full length of every interior line.
pub open spec fn spec_highlight_end(c: Seq<u8>, lo: int, hi: int) -> int {
    let lo_line = line_of(c, lo);
    let hi_line = line_of(c, hi);
    if lo_line == hi_line {
        col_of(c, hi)
    } else {
        col_of(c, hi) + (line_len(c, lo_line) - col_of(c, lo)) + sum_line_lens(
            c,
            lo_line + 1,
            hi_line - 1,
        )
    }
}

/// Line starts never move backwards as the line number grows.
proof fn lemma_line_start_monotone(c: Seq<u8>, a: int, b: int)
    requires
        1 <= a <= b,
        line_start(c, a) <= c.len(),
    ensures
        line_start(c, a) <= line_start(c, b),
    decreases b - a,
{
    if a < b {
        lemma_line_start_nonneg(c, a);
        lemma_line_start_unfold(c, a + 1);
        lemma_line_end_bounds(c, line_start(c, a));
        lemma_line_start_monotone(c, a + 1, b);
    }
}

/// The interior lines of a span telescope: their summed lengths are the
/// distance from the end of line `a - 1` to the start of line `b + 1`.
proof fn lemma_sum_lens_telescope(c: Seq<u8>, a: int, b: int)
    requires
        2 <= a,
        line_start(c, a) <= c.len(),
    ensures
        a <= b ==> sum_line_lens(c, a, b) == line_start(c, b + 1) - line_start(c, a),
        a > b ==> sum_line_lens(c, a, b) == 0,
    decreases b + 1 - a,
{
    if a <= b {
        lemma_line_start_nonneg(c, a);
        lemma_line_start_unfold(c, a + 1);
        lemma_line_end_bounds(c, line_start(c, a));
        assert(line_len(c, a) == line_start(c, a + 1) - line_start(c, a));
        lemma_sum_lens_telescope(c, a + 1, b);
    }
}

/// Highlight range for the span `[lo, hi)`, in columns of the concatenated
/// block of the source lines the span touches: the start is `lo`'s column on
/// its line, the end is given by [`spec_highlight_end`].
pub fn highlight_range(src: &Source, lo: usize, hi: usize) -> (r: (usize, usize))
    requires
        lo <= hi <= src.content@.len(),
        hi < usize::MAX,
    ensures
        r.0 == col_of(src.content@, lo as int),
        r.1 == spec_highlight_end(src.content@, lo as int, hi as int),
{
    let ghost c = src.content@;
    let (lo_line, lo_col) = src.lineno_from_offset(lo);
    let (hi_line, hi_col) = src.lineno_from_offset(hi);
    proof {
        lemma_line_of_monotone(c, lo as int, hi as int);
        lemma_offset_in_line(c, lo as int);
        lemma_offset_in_line(c, hi as int);
        lemma_offset_line_end(c, lo as int);
    }
    if lo_line == hi_line {
        return (lo_col, hi_col);
    }
    // Start offsets of lo's line, of the line after it, and of hi's line.
    let s1 = lo - lo_col;
    let e1 = src.line_end(s1);
    let shl = hi - hi_col;
    proof {
        lemma_line_start_unfold(c, lo_line as int + 1);
        lemma_line_start_monotone(c, lo_line as int + 1, hi_line as int);
        lemma_sum_lens_telescope(c, lo_line as int + 1, hi_line as int - 1);
        assert(line_len(c, lo_line as int) == e1 - s1);
    }
    let end = hi_col + (e1 - s1) - lo_col + (shl - e1);
    (lo_col, end)
}

impl ParserSession {
    /// Starts a fresh diagnostic scoped to this session's source text.
    pub fn new_error(&self) -> (r: ErrorBuilder)
        ensures
            r.spec_content() == self.spec_content(),
            r.spec_filename() == self.spec_filename(),
            !r.spec_fatal(),
            r.spec_title() is None,
            r.spec_level() == Severity::Info,
            r.spec_lo() == 0,
            r.spec_hi() == 0,
            r.spec_label() is None,
            r.spec_label_level() is None,
    {
        ErrorBuilder::new(self, true)
    }
}

/// One diagnostic in the making: severity, title, primary span as raw byte
/// offsets into the session's source, and an optional inline label with a
/// severity of its own. Assembled field by field and consumed by `emit`.
pub struct ErrorBuilder {
    src: Source,
    colors: bool,
    fatal: bool,
    title: Option<String>,
    level: Severity,
    lo: usize,
    hi: usize,
    label: Option<String>,
    label_level: Option<Severity>,
}

impl ErrorBuilder {
    pub closed spec fn spec_content(&self) -> Seq<u8> {
        self.src.content@
    }

    pub closed spec fn spec_filename(&self) -> Seq<char> {
        self.src.filename@
    }

    pub closed spec fn spec_fatal(&self) -> bool {
        self.fatal
    }

    pub closed spec fn spec_title(&self) -> Option<Seq<char>> {
        match self.title {
            Some(t) => Some(t@),
            None => None,
        }
    }

    pub closed spec fn spec_level(&self) -> Severity {
        self.level
    }

    pub closed spec fn spec_lo(&self) -> int {
        self.lo as int
    }

    pub closed spec fn spec_hi(&self) -> int {
        self.hi as int
    }

    pub closed spec fn spec_label(&self) -> Option<Seq<char>> {
        match self.label {
            Some(l) => Some(l@),
            None => None,
        }
    }

    pub closed spec fn spec_label_level(&self) -> Option<Severity> {
        self.label_level
    }

    /// The configured span lies within the source text. A violation is a bug
    /// in whoever assembled the diagnostic; `emit` then aborts
    /// unconditionally.
    pub open spec fn spec_span_ok(&self) -> bool {
        self.spec_lo() <= self.spec_hi() <= self.spec_content().len() && self.spec_hi()
            < usize::MAX
    }

    pub fn new(sess: &ParserSession, colors: bool) -> (r: Self)
        ensures
            r.spec_content() == sess.spec_content(),
            r.spec_filename() == sess.spec_filename(),
            !r.spec_fatal(),
            r.spec_title() is None,
            r.spec_level() == Severity::Info,
            r.spec_lo() == 0,
            r.spec_hi() == 0,
            r.spec_label() is None,
            r.spec_label_level() is None,
    {
        Self::from_source(sess.clone_source(), colors)
    }

    /// Starts a fresh diagnostic against the given source text.
    pub(crate) fn from_source(src: Source, colors: bool) -> (r: Self)
        ensures
            r.spec_content() == src.content@,
            r.spec_filename() == src.filename@,
            !r.spec_fatal(),
            r.spec_title() is None,
            r.spec_level() == Severity::Info,
            r.spec_lo() == 0,
            r.spec_hi() == 0,
            r.spec_label() is None,
            r.spec_label_level() is None,
    {
        ErrorBuilder {
            src,
            colors,
            fatal: false,
            title: None,
            level: Severity::Info,
            lo: 0,
            hi: 0,
            label: None,
            label_level: None,
        }
    }

    /// Sets an error-severity title and marks the diagnostic fatal.
    pub fn fatal(self, title: &str) -> (r: Self)
        ensures
            r.spec_fatal(),
            r.spec_title() == Some(title@),
            r.spec_level() == Severity::Error,
            r.spec_unchanged_span_label(&self),
    {
        let with_fatal = ErrorBuilder { fatal: true, ..self };
        with_fatal.error(title)
    }

    /// Sets an error-severity title; the diagnostic stays non-fatal.
    pub fn error(self, title: &str) -> (r: Self)
        ensures
            r.spec_fatal() == self.spec_fatal(),
            r.spec_title() == Some(title@),
            r.spec_level() == Severity::Error,
            r.spec_unchanged_span_label(&self),
    {
        ErrorBuilder { title: Some(title.to_owned()), level: Severity::Error, ..self }
    }

    /// Sets a warning-severity title.
    pub fn warning(self, title: &str) -> (r: Self)
        ensures
            r.spec_fatal() == self.spec_fatal(),
            r.spec_title() == Some(title@),
            r.spec_level() == Severity::Warning,
            r.spec_unchanged_span_label(&self),
    {
        ErrorBuilder { title: Some(title.to_owned()), level: Severity::Warning, ..self }
    }

    /// Sets a help-severity title.
    pub fn help(self, title: &str) -> (r: Self)
        ensures
            r.spec_fatal() == self.spec_fatal(),
            r.spec_title() == Some(title@),
            r.spec_level() == Severity::Help,
            r.spec_unchanged_span_label(&self),
    {
        ErrorBuilder { title: Some(title.to_owned()), level: Severity::Help, ..self }
    }

    /// Everything but the title, its severity and the fatal flag is kept.
    pub open spec fn spec_unchanged_span_label(&self, old: &Self) -> bool {
        &&& self.spec_content() == old.spec_content()
        &&& self.spec_filename() == old.spec_filename()
        &&& self.spec_lo() == old.spec_lo()
        &&& self.spec_hi() == old.spec_hi()
        &&& self.spec_label() == old.spec_label()
        &&& self.spec_label_level() == old.spec_label_level()
    }

    /// Sets the primary span, as raw byte offsets `[lo, hi)`.
    pub fn span(self, lo: usize, hi: usize) -> (r: Self)
        ensures
            r.spec_lo() == lo,
            r.spec_hi() == hi,
            r.spec_fatal() == self.spec_fatal(),
            r.spec_title() == self.spec_title(),
            r.spec_level() == self.spec_level(),
            r.spec_content() == self.spec_content(),
            r.spec_filename() == self.spec_filename(),
            r.spec_label() == self.spec_label(),
            r.spec_label_level() == self.spec_label_level(),
    {
        ErrorBuilder { lo, hi, ..self }
    }

    /// Attaches an error-severity inline label to the span.
    pub fn label_error(self, label: &str) -> (r: Self)
        ensures
            r.spec_label() == Some(label@),
            r.spec_label_level() == Some(Severity::Error),
            r.spec_unchanged_title_span(&self),
    {
        ErrorBuilder { label: Some(label.to_owned()), label_level: Some(Severity::Error), ..self }
    }

    /// Attaches a warning-severity inline label to the span.
    pub fn label_warning(self, label: &str) -> (r: Self)
        ensures
            r.spec_label() == Some(label@),
            r.spec_label_level() == Some(Severity::Warning),
            r.spec_unchanged_title_span(&self),
    {
        ErrorBuilder { label: Some(label.to_owned()), label_level: Some(Severity::Warning), ..self }
    }

    /// Attaches a help-severity inline label to the span.
    pub fn label_help(self, label: &str) -> (r: Self)
        ensures
            r.spec_label() == Some(label@),
            r.spec_label_level() == Some(Severity::Help),
            r.spec_unchanged_title_span(&self),
    {
        ErrorBuilder { label: Some(label.to_owned()), label_level: Some(Severity::Help), ..self }
    }

    /// Everything but the label is kept.
    pub open spec fn spec_unchanged_title_span(&self, old: &Self) -> bool {
        &&& self.spec_content() == old.spec_content()
        &&& self.spec_filename() == old.spec_filename()
        &&& self.spec_fatal() == old.spec_fatal()
        &&& self.spec_title() == old.spec_title()
        &&& self.spec_level() == old.spec_level()
        &&& self.spec_lo() == old.spec_lo()
        &&& self.spec_hi() == old.spec_hi()
    }

    /// Renders the diagnostic to the diagnostic stream and reports whether
    /// the scan must abort: it must when the diagnostic is fatal, and also —
    /// whatever severity was configured — when the span does not lie within
    /// the source text, which means the scanner itself produced a bad span.
    pub fn emit(&self) -> (r: Result<(), Fatal>)
        ensures
            r is Err <==> (self.spec_fatal() || !self.spec_span_ok()),
    {
        let ghost c = self.src.content@;
        if !(self.lo <= self.hi && self.hi <= self.src.content.len() && self.hi < usize::MAX) {
            return Err(Fatal);
        }
        let (lo_line, _lo_col) = self.src.lineno_from_offset(self.lo);
        let (hi_line, _hi_col) = self.src.lineno_from_offset(self.hi);
        proof {
            lemma_line_of_monotone(c, self.spec_lo(), self.spec_hi());
            lemma_line_of_monotone(c, self.spec_hi(), c.len() as int);
            lemma_offset_in_line(c, self.spec_lo());
        }
        let lines = self.src.lines_from_linenos(lo_line, hi_line);
        let mut block = String::new();
        let mut i: usize = 0;
        while i < lines.len()
            invariant
                i <= lines@.len(),
            decreases lines@.len() - i,
        {
            block.append(lines[i].as_str());
            i = i + 1;
        }
        let (start, end) = highlight_range(&self.src, self.lo, self.hi);
        // The computed end can fall short of the start column when a
        // multi-line span begins deep into a short first line; the renderer
        // needs an ordered range.
        let end = if end < start {
            start
        } else {
            end
        };
        let title = match &self.title {
            Some(t) => t.clone(),
            None => String::new(),
        };
        let label = match &self.label {
            Some(l) => l.clone(),
            None => String::new(),
        };
        let label_level = match self.label_level {
            Some(s) => s,
            None => self.level,
        };
        let rendered = render_snippet(
            &self.src.filename,
            &block,
            &title,
            self.level,
            &label,
            label_level,
            start,
            end,
            self.colors,
        );
        write_stderr_line(&rendered);
        if self.fatal {
            Err(Fatal)
        } else {
            Ok(())
        }
    }
}

/// The text that the snippet renderer produces for the given title, source
/// block, filename, severities and highlight range. It depends on those
/// arguments alone.
pub uninterp spec fn rendered_snippet(
    filename: Seq<char>,
    source: Seq<char>,
    title: Seq<char>,
    level: int,
    label: Seq<char>,
    label_level: int,
    lo: int,
    hi: int,
    colors: bool,
) -> Seq<char>;

#[verifier::external_type_specification]
#[verifier::external_body]
pub struct ExAnnotationType(AnnotationType);

/// Relies on annotate_snippets' `AnnotationType`: each severity of the
/// library is rendered as the corresponding severity kind of the renderer.
#[verifier::external_body]
fn ann_of(level: Severity) -> AnnotationType {
    match level {
        Severity::Info => AnnotationType::Info,
        Severity::Error => AnnotationType::Error,
        Severity::Warning => AnnotationType::Warning,
        Severity::Help => AnnotationType::Help,
    }
}

/// Relies on annotate_snippets' `DisplayListFormatter::format` and
/// `DisplayList::from`: they render a snippet — title, source slice labeled
/// with the filename, and one annotation under the columns `[lo, hi)` — into
/// text that depends only on these arguments. An annotation range with
/// `lo > hi` can make the renderer subtract past zero, so it is ruled out.
#[verifier::external_body]
fn render_snippet(
    filename: &String,
    source: &String,
    title: &String,
    level: Severity,
    label: &String,
    label_level: Severity,
    lo: usize,
    hi: usize,
    colors: bool,
) -> (r: String)
    requires
        lo <= hi,
    ensures
        r@ == rendered_snippet(
            filename@,
            source@,
            title@,
            severity_code(level),
            label@,
            severity_code(label_level),
            lo as int,
            hi as int,
            colors,
        ),
{
    let title = Annotation { id: None, label: Some(title.clone()), annotation_type: ann_of(level) };
    let ann = SourceAnnotation { range: (lo, hi), label: label.clone(), annotation_type: ann_of(label_level) };
    let slice = Slice { source: source.clone(), line_start: 1, origin: Some(filename.clone()), fold: true, annotations: vec![ann] };
    let snippet = Snippet { title: Some(title), footer: vec![], slices: vec![slice] };
    DisplayListFormatter::new(colors, false).format(&DisplayList::from(snippet))
}

/// Relies on `std::io::stderr`: writes one line to the diagnostic stream.
#[verifier::external_body]
fn write_stderr_line(s: &String) {
    let _ = writeln!(std::io::stderr(), "{}", s);
}

} // verus!
