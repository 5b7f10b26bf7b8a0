//! An error-annotation utility: `Error<T>` wraps an underlying error payload
//! of type `T` and accumulates an append-only trail of context messages, each
//! tagged with the source location that attached it. When the error is finally
//! reported, rendering shows the root cause followed by the trail of messages,
//! most recently attached first.

use vstd::prelude::*;

verus! {

use vstd::string::StringExecFns;

/// One context annotation: a human-readable message plus the source-position
/// string of the call that attached it. Immutable once created.
pub struct ErrorMessage {
    message: String,
    location: String,
}

/// The mathematical model of an `ErrorMessage`: the two text fields as
/// character sequences.
#[verifier::ext_equal]
pub struct ErrorMessageView {
    pub message: Seq<char>,
    pub location: Seq<char>,
}

impl View for ErrorMessage {
    type V = ErrorMessageView;

    closed spec fn view(&self) -> ErrorMessageView {
        ErrorMessageView { message: self.message@, location: self.location@ }
    }
}

/// An error payload of type `T` together with its ordered trail of context
/// annotations, oldest first.
pub struct Error<T> {
    error: T,
    context: Vec<ErrorMessage>,
}

/// The mathematical model of an `Error<T>`: the payload and the annotation
/// trail in insertion (oldest-first) order.
#[verifier::ext_equal]
pub struct ErrorView<T> {
    pub error: T,
    pub context: Seq<ErrorMessageView>,
}

impl<T> View for Error<T> {
    type V = ErrorView<T>;

    closed spec fn view(&self) -> ErrorView<T> {
        ErrorView {
            error: self.error,
            context: self.context@.map_values(|m: ErrorMessage| m@),
        }
    }
}

impl<T> Error<T> {
    /// Wraps `error` with an empty annotation trail.
    pub fn new(error: T) -> (r: Self)
        ensures
            r@.error == error,
            r@.context == Seq::<ErrorMessageView>::empty(),
    {
        let r = Error { error, context: Vec::new() };
        proof {
            assert(r@.context =~= Seq::<ErrorMessageView>::empty());
        }
        r
    }

    /// Borrows the underlying payload; the trail never alters it.
    pub fn error(&self) -> (r: &T)
        ensures
            *r == self@.error,
    {
        &self.error
    }

    /// Appends one already-built annotation to the trail. The payload and all
    /// earlier annotations are unchanged.
    fn attach(self, message: ErrorMessage) -> (r: Self)
        ensures
            r@.error == self@.error,
            r@.context == self@.context.push(message@),
    {
        let Error { error, mut context } = self;
        let ghost before = context@;
        context.push(message);
        let r = Error { error, context };
        proof {
            assert(r@.context =~= before.map_values(|m: ErrorMessage| m@).push(message@));
        }
        r
    }

    /// Consumes the error and returns it with one more annotation: `text`,
    /// tagged with `location`, the caller's own source-position string.
    pub fn context(self, text: String, location: String) -> (r: Self)
        ensures
            r@.error == self@.error,
            r@.context == self@.context.push(
                ErrorMessageView { message: text@, location: location@ },
            ),
    {
        self.attach(ErrorMessage { message: text, location })
    }
}

/// The text of one annotation: `message (location)`.
pub open spec fn entry_text(e: ErrorMessageView) -> Seq<char> {
    e.message + " ("@ + e.location + ")"@
}

/// The bullet lines for a trail, most recently attached entry first: one
/// line `- message (location)` per entry, each ending in a newline.
pub open spec fn trail_text(trail: Seq<ErrorMessageView>) -> Seq<char>
    decreases trail.len(),
{
    if trail.len() == 0 {
        Seq::empty()
    } else {
        "- "@ + entry_text(trail.last()) + "\n"@ + trail_text(trail.drop_last())
    }
}

/// The full report for a payload rendered as `payload_text` and a trail:
/// the payload text, a blank line, the `Caused by:` header, the bullet
/// lines newest-first, and a final newline.
pub open spec fn rendered(payload_text: Seq<char>, trail: Seq<ErrorMessageView>) -> Seq<char> {
    payload_text + "\n\nCaused by:\n"@ + trail_text(trail) + "\n"@
}

/// The entry attached earliest contributes the last bullet line: rendering
/// is newest-first.
pub proof fn lemma_trail_text_oldest_last(x: ErrorMessageView, trail: Seq<ErrorMessageView>)
    ensures
        trail_text(seq![x] + trail) == trail_text(trail) + "- "@ + entry_text(x) + "\n"@,
    decreases trail.len(),
{
    let s = seq![x] + trail;
    if trail.len() == 0 {
        assert(s.drop_last() =~= Seq::<ErrorMessageView>::empty());
        assert(s.last() == x);
        assert(trail_text(s.drop_last()) == Seq::<char>::empty());
        assert(trail_text(trail) == Seq::<char>::empty());
        assert(trail_text(s) =~= trail_text(trail) + "- "@ + entry_text(x) + "\n"@);
    } else {
        assert(s.last() == trail.last());
        assert(s.drop_last() =~= seq![x] + trail.drop_last());
        lemma_trail_text_oldest_last(x, trail.drop_last());
        assert(trail_text(s) =~= trail_text(trail) + "- "@ + entry_text(x) + "\n"@);
    }
}

impl ErrorMessage {
    /// The annotation as text: `message (location)`.
    pub fn render(&self) -> (r: String)
        ensures
            r@ == entry_text(self@),
    {
        let mut out = String::from_str(self.message.as_str());
        out.append(" (");
        out.append(self.location.as_str());
        out.append(")");
        proof {
            assert(out@ =~= entry_text(self@));
        }
        out
    }
}

impl<T> Error<T> {
    /// Renders the full report. The caller supplies `payload_text`, the
    /// payload's own textual representation; the trail is printed below it,
    /// most recently attached entry first.
    pub fn render(&self, payload_text: &str) -> (r: String)
        ensures
            r@ == rendered(payload_text@, self@.context),
    {
        let ghost trail = self@.context;
        let mut out = String::from_str(payload_text);
        out.append("\n\nCaused by:\n");
        let mut i: usize = self.context.len();
        while i > 0
            invariant
                i <= self.context.len(),
                trail == self@.context,
                trail.len() == self.context.len(),
                out@ == payload_text@ + "\n\nCaused by:\n"@
                    + trail_text(trail.subrange(i as int, trail.len() as int)),
            decreases i,
        {
            i = i - 1;
            out.append("- ");
            let line = self.context[i].render();
            out.append(line.as_str());
            out.append("\n");
            proof {
                let suffix = trail.subrange(i + 1, trail.len() as int);
                assert(trail.subrange(i as int, trail.len() as int) =~= seq![trail[i as int]]
                    + suffix);
                lemma_trail_text_oldest_last(trail[i as int], suffix);
                assert(out@ =~= payload_text@ + "\n\nCaused by:\n"@
                    + trail_text(trail.subrange(i as int, trail.len() as int)));
            }
        }
        out.append("\n");
        proof {
            assert(trail.subrange(0, trail.len() as int) =~= trail);
            assert(out@ =~= rendered(payload_text@, self@.context));
        }
        out
    }
}

/// A container that carries a failure and can take one more context
/// annotation without being unwrapped by hand. A success passes through
/// untouched; a failure keeps its payload and gains one trail entry.
///
/// Implementors supply `attach_context_message`; `context` is derived
/// from it.
pub trait ContextMessage: Sized {
    /// Whether this value is a success: attaching context then changes
    /// nothing.
    spec fn is_success(&self) -> bool;

    /// The annotation trail of the carried failure, oldest first; empty
    /// for a success.
    spec fn trail(&self) -> Seq<ErrorMessageView>;

    /// Whether `self` and `other` are failures carrying the same payload.
    spec fn same_failure_payload(&self, other: &Self) -> bool;

    /// Appends one already-built annotation to the carried failure's trail;
    /// a success is returned unchanged.
    fn attach_context_message(self, message: ErrorMessage) -> (r: Self)
        ensures
            self.is_success() ==> r == self,
            !self.is_success() ==> {
                &&& !r.is_success()
                &&& r.same_failure_payload(&self)
                &&& r.trail() == self.trail().push(message@)
            },
    ;

    /// Attaches `text`, tagged with `location`, the caller's own
    /// source-position string, to the carried failure's trail; a success is
    /// returned unchanged.
    fn context(self, text: String, location: String) -> (r: Self)
        ensures
            self.is_success() ==> r == self,
            !self.is_success() ==> {
                &&& !r.is_success()
                &&& r.same_failure_payload(&self)
                &&& r.trail() == self.trail().push(
                    ErrorMessageView { message: text@, location: location@ },
                )
            },
    {
        self.attach_context_message(ErrorMessage { message: text, location })
    }
}

impl<R, E> ContextMessage for Result<R, Error<E>> {
    open spec fn is_success(&self) -> bool {
        self is Ok
    }

    open spec fn trail(&self) -> Seq<ErrorMessageView> {
        match *self {
            Result::Ok(_) => Seq::empty(),
            Result::Err(ref e) => e@.context,
        }
    }

    open spec fn same_failure_payload(&self, other: &Self) -> bool {
        match (self, other) {
            (Result::Err(e1), Result::Err(e2)) => e1@.error == e2@.error,
            _ => false,
        }
    }

    fn attach_context_message(self, message: ErrorMessage) -> Self {
        match self {
            Result::Ok(value) => Result::Ok(value),
            Result::Err(err) => Result::Err(err.attach(message)),
        }
    }
}

impl<R, E> vstd::std_specs::convert::FromSpecImpl<Error<E>> for Result<R, Error<E>> {
    open spec fn obeys_from_spec() -> bool {
        true
    }

    open spec fn from_spec(v: Error<E>) -> Self {
        Result::Err(v)
    }
}

impl<R, E> From<Error<E>> for Result<R, Error<E>> {
    /// Wraps a bare `Error` as a failure outcome, for early-return idioms.
    fn from(v: Error<E>) -> (r: Self) {
        Result::Err(v)
    }
}

// An `Error` value cannot be written down in spec code (its trail is held in
// a `Vec`, which has no spec-level constructor), so `from_spec` cannot name
// the exact result and `obeys_from_spec` is false. The full promise stands on
// `from` itself below.
impl<E> vstd::std_specs::convert::FromSpecImpl<E> for Error<E> {
    open spec fn obeys_from_spec() -> bool {
        false
    }

    open spec fn from_spec(v: E) -> Self {
        choose|r: Error<E>| r@.error == v
    }
}

impl<E> From<E> for Error<E> {
    /// Promotes a raw payload into an error with an empty annotation trail,
    /// exactly as `Error::new` does.
    fn from(v: E) -> (r: Self)
        ensures
            r@.error == v,
            r@.context == Seq::<ErrorMessageView>::empty(),
    {
        Error::new(v)
    }
}

/// A fresh error renders as the payload text, the `Caused by:` header, and
/// no bullet lines at all.
pub proof fn lemma_rendered_empty_trail(payload_text: Seq<char>)
    ensures
        rendered(payload_text, Seq::empty()) == payload_text + "\n\nCaused by:\n"@ + "\n"@,
{
    assert(trail_text(Seq::empty()) == Seq::<char>::empty());
    assert(rendered(payload_text, Seq::empty()) =~= payload_text + "\n\nCaused by:\n"@ + "\n"@);
}

/// The trail after attaching the annotations `ms`, one at a time and in
/// order, to an error whose trail is `t` — the shape `context(...)` chains
/// leave behind.
pub open spec fn attach_all(
    t: Seq<ErrorMessageView>,
    ms: Seq<ErrorMessageView>,
) -> Seq<ErrorMessageView>
    decreases ms.len(),
{
    if ms.len() == 0 {
        t
    } else {
        attach_all(t.push(ms.first()), ms.drop_first())
    }
}

/// Attaching annotations one at a time appends them: the trail is the
/// original trail followed by the attached annotations in attachment order.
pub proof fn lemma_attach_all_is_append(t: Seq<ErrorMessageView>, ms: Seq<ErrorMessageView>)
    ensures
        attach_all(t, ms) == t + ms,
    decreases ms.len(),
{
    if ms.len() == 0 {
        assert(attach_all(t, ms) =~= t + ms);
    } else {
        lemma_attach_all_is_append(t.push(ms.first()), ms.drop_first());
        assert(t.push(ms.first()) + ms.drop_first() =~= t + ms);
    }
}

/// Attachment is associative in effect: attaching the annotations `a` and
/// then the annotations `b` leaves the same trail as attaching `a + b` in
/// one run. Only the order of attachment determines the trail, not how the
/// attachments are grouped across call frames.
pub proof fn lemma_attach_associative(
    t: Seq<ErrorMessageView>,
    a: Seq<ErrorMessageView>,
    b: Seq<ErrorMessageView>,
)
    ensures
        attach_all(attach_all(t, a), b) == attach_all(t, a + b),
{
    lemma_attach_all_is_append(t, a);
    lemma_attach_all_is_append(attach_all(t, a), b);
    lemma_attach_all_is_append(t, a + b);
    assert((t + a) + b =~= t + (a + b));
}

/// Converting an error into a failure outcome wraps exactly that error:
/// the payload and the trail both carry over unchanged. In particular, a
/// fresh error gives a failure with that payload and an empty trail.
pub proof fn lemma_failure_outcome_preserves_error<R, E>(e: Error<E>)
    ensures
        <Result<R, Error<E>> as vstd::std_specs::convert::FromSpec<Error<E>>>::from_spec(e)
            == Result::<R, Error<E>>::Err(e),
{
}

} // verus!
