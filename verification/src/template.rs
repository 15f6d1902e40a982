//! Path templates: the shape of an endpoint's URL path at one protocol
//! version.
//!
//! A template is an ordered sequence of segments, each either a literal
//! or a named parameter.  In template source a segment is written after a
//! `/` separator, and a leading `:` marks a parameter, as in
//! `/profile/:user_id/:key_name`.

use vstd::prelude::*;

verus! {

/// The mathematical value of one template segment.
pub enum SegmentView {
    Literal(Seq<char>),
    Parameter(Seq<char>),
}

impl SegmentView {
    pub open spec fn is_parameter(self) -> bool {
        self is Parameter
    }

    /// The literal text or parameter name of the segment.
    pub open spec fn text(self) -> Seq<char> {
        match self {
            SegmentView::Literal(s) => s,
            SegmentView::Parameter(s) => s,
        }
    }
}

/// One segment of a path template.
pub enum Segment {
    /// Text that is copied into the path verbatim.
    Literal(String),
    /// A named placeholder, substituted with a caller value on encoding.
    Parameter(String),
}

impl View for Segment {
    type V = SegmentView;

    open spec fn view(&self) -> SegmentView {
        match self {
            Segment::Literal(s) => SegmentView::Literal(s@),
            Segment::Parameter(s) => SegmentView::Parameter(s@),
        }
    }
}

impl Clone for Segment {
    fn clone(&self) -> (r: Self)
        ensures
            r@ == self@,
    {
        match self {
            Segment::Literal(s) => Segment::Literal(s.clone()),
            Segment::Parameter(s) => Segment::Parameter(s.clone()),
        }
    }
}

/// Number of parameter placeholders in a template.
pub open spec fn spec_placeholder_count(t: Seq<SegmentView>) -> int
    decreases t.len(),
{
    if t.len() == 0 {
        0
    } else {
        (if t[0].is_parameter() {
            1int
        } else {
            0int
        }) + spec_placeholder_count(t.skip(1))
    }
}

/// The parameter names of a template, in order.
pub open spec fn spec_parameter_names(t: Seq<SegmentView>) -> Seq<Seq<char>>
    decreases t.len(),
{
    if t.len() == 0 {
        Seq::empty()
    } else {
        let rest = spec_parameter_names(t.skip(1));
        if t[0].is_parameter() {
            seq![t[0].text()] + rest
        } else {
            rest
        }
    }
}

/// A template is well formed when its parameter names are pairwise
/// distinct.
pub open spec fn spec_template_wf(t: Seq<SegmentView>) -> bool {
    forall|i: int, j: int|
        0 <= i < j < spec_parameter_names(t).len() ==> spec_parameter_names(t)[i]
            != spec_parameter_names(t)[j]
}

/// An ordered sequence of literal and parameter segments describing one
/// wire shape of an endpoint's path.  Immutable once constructed.
pub struct PathTemplate {
    pub segments: Vec<Segment>,
}

impl View for PathTemplate {
    type V = Seq<SegmentView>;

    open spec fn view(&self) -> Seq<SegmentView> {
        self.segments@.map(|i: int, s: Segment| s@)
    }
}

impl Clone for PathTemplate {
    fn clone(&self) -> (r: Self)
        ensures
            r@ == self@,
    {
        let mut segments: Vec<Segment> = Vec::new();
        let mut i: usize = 0;
        while i < self.segments.len()
            invariant
                i <= self.segments.len(),
                segments@.len() == i,
                forall|k: int| 0 <= k < i ==> (#[trigger] segments@[k])@ == self.segments@[k]@,
            decreases self.segments.len() - i,
        {
            segments.push(self.segments[i].clone());
            i = i + 1;
        }
        let r = PathTemplate { segments };
        proof {
            assert(r@ =~= self@);
        }
        r
    }
}

/// Appending one segment adds its own contribution to the placeholder
/// count.
pub proof fn lemma_placeholder_count_snoc(t: Seq<SegmentView>, s: SegmentView)
    ensures
        spec_placeholder_count(t.push(s)) == spec_placeholder_count(t) + (if s.is_parameter() {
            1int
        } else {
            0int
        }),
    decreases t.len(),
{
    if t.len() == 0 {
        assert(t.push(s)[0] == s);
        assert(t.push(s).skip(1) =~= Seq::<SegmentView>::empty());
        assert(spec_placeholder_count(Seq::<SegmentView>::empty()) == 0);
        assert(spec_placeholder_count(t.push(s)) == (if s.is_parameter() {
            1int
        } else {
            0int
        }) + spec_placeholder_count(t.push(s).skip(1)));
        assert(spec_placeholder_count(t) == 0);
    } else {
        assert(t.push(s)[0] == t[0]);
        assert(t.push(s).skip(1) =~= t.skip(1).push(s));
        lemma_placeholder_count_snoc(t.skip(1), s);
        assert(spec_placeholder_count(t.push(s)) == (if t[0].is_parameter() {
            1int
        } else {
            0int
        }) + spec_placeholder_count(t.skip(1).push(s)));
        assert(spec_placeholder_count(t) == (if t[0].is_parameter() {
            1int
        } else {
            0int
        }) + spec_placeholder_count(t.skip(1)));
    }
}

/// Builds a literal segment from its text.
pub fn seg_lit(s: &str) -> (r: Segment)
    ensures
        r@ == SegmentView::Literal(s@),
{
    Segment::Literal(s.to_owned())
}

/// Builds a parameter segment from its name.
pub fn seg_param(s: &str) -> (r: Segment)
    ensures
        r@ == SegmentView::Parameter(s@),
{
    Segment::Parameter(s.to_owned())
}

/// The placeholder count of a template splits at any segment index.
pub proof fn lemma_placeholder_count_decompose(t: Seq<SegmentView>, i: int)
    requires
        0 <= i <= t.len(),
    ensures
        spec_placeholder_count(t) == spec_placeholder_count(t.take(i)) + spec_placeholder_count(
            t.skip(i),
        ),
    decreases i,
{
    if i == 0 {
        assert(t.take(0) =~= Seq::<SegmentView>::empty());
        assert(t.skip(0) =~= t);
    } else {
        assert(t.len() > 0);
        assert(t.take(i)[0] == t[0]);
        assert(t.take(i).skip(1) =~= t.skip(1).take(i - 1));
        assert(t.skip(i) =~= t.skip(1).skip(i - 1));
        lemma_placeholder_count_decompose(t.skip(1), i - 1);
    }
}

/// The number of placeholders never exceeds the number of segments.
pub proof fn lemma_placeholder_count_bounds(t: Seq<SegmentView>)
    ensures
        0 <= spec_placeholder_count(t) <= t.len(),
    decreases t.len(),
{
    if t.len() > 0 {
        lemma_placeholder_count_bounds(t.skip(1));
    }
}

/// The source text of one segment: its literal text, or `:` before a
/// parameter's name.
pub open spec fn spec_segment_source(seg: SegmentView) -> Seq<char> {
    match seg {
        SegmentView::Literal(t) => t,
        SegmentView::Parameter(n) => seq![':'] + n,
    }
}

/// The source text of a template: each segment after a `/`.
pub open spec fn spec_template_source(t: Seq<SegmentView>) -> Seq<char>
    decreases t.len(),
{
    if t.len() == 0 {
        Seq::empty()
    } else {
        seq!['/'] + spec_segment_source(t[0]) + spec_template_source(t.skip(1))
    }
}

proof fn lemma_template_source_snoc(t: Seq<SegmentView>, seg: SegmentView)
    ensures
        spec_template_source(t.push(seg)) == spec_template_source(t) + seq!['/']
            + spec_segment_source(seg),
    decreases t.len(),
{
    if t.len() == 0 {
        assert(t.push(seg)[0] == seg);
        assert(t.push(seg).skip(1) =~= Seq::<SegmentView>::empty());
        assert(spec_template_source(t.push(seg)) == seq!['/'] + spec_segment_source(seg)
            + spec_template_source(Seq::<SegmentView>::empty()));
        assert(seq!['/'] + spec_segment_source(seg) + Seq::<char>::empty() =~= Seq::<char>::empty()
            + seq!['/'] + spec_segment_source(seg));
    } else {
        assert(t.push(seg)[0] == t[0]);
        assert(t.push(seg).skip(1) =~= t.skip(1).push(seg));
        lemma_template_source_snoc(t.skip(1), seg);
        assert(spec_template_source(t.push(seg)) =~= spec_template_source(t) + seq!['/']
            + spec_segment_source(seg));
    }
}

impl PathTemplate {
    pub open spec fn wf(&self) -> bool {
        spec_template_wf(self@)
    }

    /// Parses template source: segments separated by `/`, a segment
    /// prefixed with `:` naming a parameter, as in
    /// `/profile/:user_id/:key_name`.
    ///
    /// Succeeds exactly on text opening with `/`, and returns the
    /// template whose source the text is.
    pub fn parse(s: &str) -> (r: Option<PathTemplate>)
        ensures
            r is Some <==> s@.len() >= 1 && s@[0] == '/',
            r is Some ==> spec_template_source(r.unwrap()@) == s@,
    {
        let n = s.unicode_len();
        if n == 0 || s.get_char(0) != '/' {
            return None;
        }
        let mut segments: Vec<Segment> = Vec::new();
        let mut pos: usize = 1;
        proof {
            assert(segments@.map(|k: int, g: Segment| g@) =~= Seq::<SegmentView>::empty());
            assert(spec_template_source(Seq::<SegmentView>::empty()) =~= s@.take(0));
        }
        loop
            invariant
                1 <= pos <= n,
                n == s@.len(),
                n >= 1,
                s@[pos - 1] == '/',
                spec_template_source(segments@.map(|k: int, g: Segment| g@)) == s@.take(pos - 1),
            decreases n + 1 - pos,
        {
            let mut j: usize = pos;
            while j < n && s.get_char(j) != '/'
                invariant
                    pos <= j <= n,
                    n == s@.len(),
                    forall|k: int| pos <= k < j ==> s@[k] != '/',
                decreases n - j,
            {
                j = j + 1;
            }
            let ghost prev = segments@.map(|k: int, g: Segment| g@);
            let seg = if j > pos && s.get_char(pos) == ':' {
                Segment::Parameter(s.substring_char(pos + 1, j).to_owned())
            } else {
                Segment::Literal(s.substring_char(pos, j).to_owned())
            };
            proof {
                if j > pos && s@[pos as int] == ':' {
                    assert(spec_segment_source(seg@) =~= s@.subrange(pos as int, j as int));
                } else {
                    assert(spec_segment_source(seg@) =~= s@.subrange(pos as int, j as int));
                }
            }
            segments.push(seg);
            proof {
                assert(segments@.map(|k: int, g: Segment| g@) =~= prev.push(seg@));
                lemma_template_source_snoc(prev, seg@);
                assert(s@.take(pos - 1) + seq![s@[pos - 1]] =~= s@.take(pos as int));
                assert(s@.take(pos as int) + s@.subrange(pos as int, j as int) =~= s@.take(
                    j as int,
                ));
                assert(spec_template_source(prev.push(seg@)) =~= s@.take(j as int));
            }
            if j == n {
                let r = PathTemplate { segments };
                proof {
                    assert(s@.take(n as int) =~= s@);
                }
                return Some(r);
            }
            pos = j + 1;
        }
    }

    /// Number of parameter placeholders in the template.
    pub fn placeholder_count(&self) -> (r: usize)
        ensures
            r == spec_placeholder_count(self@),
    {
        proof {
            lemma_placeholder_count_bounds(self@);
        }
        let mut count: usize = 0;
        let mut i: usize = 0;
        while i < self.segments.len()
            invariant
                i <= self.segments.len(),
                count == spec_placeholder_count(self@.take(i as int)),
                count <= i,
            decreases self.segments.len() - i,
        {
            let is_param = match &self.segments[i] {
                Segment::Parameter(_) => true,
                Segment::Literal(_) => false,
            };
            proof {
                assert(self@.take(i + 1) =~= self@.take(i as int).push(self@[i as int]));
                lemma_placeholder_count_snoc(self@.take(i as int), self@[i as int]);
            }
            if is_param {
                count = count + 1;
            }
            i = i + 1;
        }
        proof {
            assert(self@.take(self.segments@.len() as int) =~= self@);
        }
        count
    }
}

} // verus!
