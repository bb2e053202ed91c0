//! The data model of compiled templates: a template is an ordered sequence
//! of segments, each either literal text or a placeholder carrying a
//! validated directive.

use vstd::prelude::*;

use crate::codec::radix_hint_ok;

verus! {

/// Whether a placeholder renders its argument through the display or the
/// debug capability.
#[derive(Clone, Copy, PartialEq, Eq, Structural, Debug)]
pub enum Method {
    Display,
    Debug,
}

/// Why a template fails to compile. All of these are detected before any
/// character is written.
#[derive(Clone, Copy, PartialEq, Eq, Structural, Debug)]
pub enum CompileError {
    /// A placeholder token is none of the hint grammar's tokens.
    UnknownHint,
    /// A second pretty hint inside one placeholder.
    DuplicatePretty,
    /// A second radix hint inside one placeholder.
    RadixConflict,
    /// A second case hint inside one placeholder, or one opposed to the
    /// case a hexadecimal token already chose.
    CaseConflict,
    /// A second width hint inside one placeholder.
    DuplicateWidth,
    /// A second precision hint inside one placeholder.
    DuplicatePrecision,
    /// A radix hint whose value lies outside 2..=36.
    RadixOutOfRange,
    /// The template ended inside a placeholder.
    UnterminatedPlaceholder,
    /// The template ended right after the escape character.
    TrailingEscape,
    /// Placeholder count and argument count differ.
    ArgumentCount { expected: usize, actual: usize },
}

/// The resolved method and hint set of one placeholder. Each hint channel
/// is explicitly present or absent, never collapsed into a default: radix
/// 10 and lowercase are meaningful values distinct from "unset". At most
/// one hint of each kind can be present; compilation enforces this rather
/// than letting the last one win.
#[derive(Clone, Copy, PartialEq, Eq, Structural, Debug)]
pub struct Directive {
    /// Display, or debug when a `?` token was seen.
    pub method: Method,
    /// Whether the pretty (`#`) hint is present.
    pub pretty: bool,
    /// The radix hint; always within 2..=36 once compiled.
    pub radix: Option<usize>,
    /// The minimum width hint: the rendering is left-padded with spaces up
    /// to it.
    pub width: Option<usize>,
    /// The minimum digit count hint: digits are left-filled with zeros up
    /// to it.
    pub precision: Option<usize>,
    /// The case hint: `Some(true)` uppercase, `Some(false)` lowercase.
    pub case: Option<bool>,
}

/// The directive of an empty placeholder: display, no hints.
pub open spec fn default_directive() -> Directive {
    Directive {
        method: Method::Display,
        pretty: false,
        radix: None,
        width: None,
        precision: None,
        case: None,
    }
}

/// Builds the directive of an empty placeholder.
pub fn new_directive() -> (d: Directive)
    ensures
        d == default_directive(),
{
    Directive {
        method: Method::Display,
        pretty: false,
        radix: None,
        width: None,
        precision: None,
        case: None,
    }
}

/// One segment of a compiled template, at the specification level.
pub enum SpecSegment {
    Text(Seq<char>),
    Placeholder(Directive),
}

/// One segment of a compiled template: literal text written verbatim, or a
/// placeholder consuming the next argument.
#[derive(Clone, PartialEq, Eq, Debug)]
pub enum Segment {
    Text(Vec<char>),
    Placeholder(Directive),
}

impl View for Segment {
    type V = SpecSegment;

    open spec fn view(&self) -> SpecSegment {
        match self {
            Segment::Text(t) => SpecSegment::Text(t@),
            Segment::Placeholder(d) => SpecSegment::Placeholder(*d),
        }
    }
}

/// The segment views of a segment sequence.
pub open spec fn segments_view(segments: Seq<Segment>) -> Seq<SpecSegment> {
    segments.map_values(|seg: Segment| seg@)
}

/// A compiled template: an immutable ordered sequence of segments, built
/// once from a literal template and reusable for any matching argument
/// list.
#[derive(Clone, PartialEq, Eq, Debug)]
pub struct FormatTemplate {
    pub segments: Vec<Segment>,
}

impl View for FormatTemplate {
    type V = Seq<SpecSegment>;

    open spec fn view(&self) -> Seq<SpecSegment> {
        segments_view(self.segments@)
    }
}

/// Every placeholder directive of a compiled template carries a radix hint
/// within 2..=36; compilation establishes this.
pub open spec fn template_wf(segments: Seq<SpecSegment>) -> bool {
    forall|i: int|
        0 <= i < segments.len() && segments[i] is Placeholder ==> radix_hint_ok(
            #[trigger] segments[i]->Placeholder_0.radix,
        )
}

/// The number of placeholder segments, which is the number of arguments a
/// template consumes.
pub open spec fn placeholder_count(segments: Seq<SpecSegment>) -> nat
    decreases segments.len(),
{
    if segments.len() == 0 {
        0
    } else {
        placeholder_count(segments.drop_last()) + (if segments.last() is Placeholder {
            1nat
        } else {
            0nat
        })
    }
}

impl FormatTemplate {
    /// Counts the placeholders, which is the number of arguments required.
    pub fn count_placeholders(&self) -> (n: usize)
        requires
            placeholder_count(self@) <= usize::MAX,
        ensures
            n == placeholder_count(self@),
    {
        let mut n: usize = 0;
        let mut i: usize = 0;
        proof {
            assert(self@.take(0) =~= Seq::<SpecSegment>::empty());
        }
        while i < self.segments.len()
            invariant
                i <= self.segments@.len(),
                self@.len() == self.segments@.len(),
                placeholder_count(self@) <= usize::MAX,
                n == placeholder_count(self@.take(i as int)),
            decreases self.segments@.len() - i,
        {
            proof {
                assert(self@.take(i + 1).drop_last() =~= self@.take(i as int));
                assert(self@.take(i + 1).last() == self@[i as int]);
                assert(self@[i as int] == self.segments@[i as int]@);
                lemma_placeholder_count_le(self@, i + 1);
            }
            match &self.segments[i] {
                Segment::Placeholder(_) => {
                    n = n + 1;
                },
                Segment::Text(_) => {},
            }
            i = i + 1;
        }
        proof {
            assert(self@.take(self@.len() as int) =~= self@);
        }
        n
    }
}

/// Appending a text segment keeps a template well formed.
pub proof fn lemma_wf_push_text(segments: Seq<SpecSegment>, t: Seq<char>)
    requires
        template_wf(segments),
    ensures
        template_wf(segments.push(SpecSegment::Text(t))),
{
    let extended = segments.push(SpecSegment::Text(t));
    assert forall|i: int|
        0 <= i < extended.len() && extended[i] is Placeholder implies radix_hint_ok(
        #[trigger] extended[i]->Placeholder_0.radix,
    ) by {
        if i < segments.len() {
            assert(extended[i] == segments[i]);
        }
    }
}

/// Appending a placeholder whose radix hint is validated keeps a template
/// well formed.
pub proof fn lemma_wf_push_placeholder(segments: Seq<SpecSegment>, d: Directive)
    requires
        template_wf(segments),
        radix_hint_ok(d.radix),
    ensures
        template_wf(segments.push(SpecSegment::Placeholder(d))),
{
    let extended = segments.push(SpecSegment::Placeholder(d));
    assert forall|i: int|
        0 <= i < extended.len() && extended[i] is Placeholder implies radix_hint_ok(
        #[trigger] extended[i]->Placeholder_0.radix,
    ) by {
        if i < segments.len() {
            assert(extended[i] == segments[i]);
        }
    }
}

/// There are never more placeholders than segments.
pub proof fn lemma_placeholder_count_len(segments: Seq<SpecSegment>)
    ensures
        placeholder_count(segments) <= segments.len(),
    decreases segments.len(),
{
    if segments.len() > 0 {
        lemma_placeholder_count_len(segments.drop_last());
    }
}

/// The placeholder count seen from the front: the first segment's
/// contribution plus the count of the rest.
pub proof fn lemma_placeholder_count_first(segments: Seq<SpecSegment>)
    requires
        segments.len() > 0,
    ensures
        placeholder_count(segments) == placeholder_count(segments.drop_first()) + (
        if segments[0] is Placeholder {
            1nat
        } else {
            0nat
        }),
    decreases segments.len(),
{
    if segments.len() == 1 {
        assert(segments.drop_last() =~= Seq::<SpecSegment>::empty());
        assert(segments.drop_first() =~= Seq::<SpecSegment>::empty());
        assert(segments.last() == segments[0]);
    } else {
        lemma_placeholder_count_first(segments.drop_last());
        assert(segments.drop_last().drop_first() =~= segments.drop_first().drop_last());
        assert(segments.drop_last()[0] == segments[0]);
        assert(segments.drop_first().last() == segments.last());
    }
}

/// A prefix never holds more placeholders than the whole.
pub proof fn lemma_placeholder_count_le(segments: Seq<SpecSegment>, i: int)
    requires
        0 <= i <= segments.len(),
    ensures
        placeholder_count(segments.take(i)) <= placeholder_count(segments),
    decreases segments.len() - i,
{
    if i < segments.len() {
        assert(segments.take(i + 1).drop_last() =~= segments.take(i));
        lemma_placeholder_count_le(segments, i + 1);
    } else {
        assert(segments.take(i) =~= segments);
    }
}

} // verus!
