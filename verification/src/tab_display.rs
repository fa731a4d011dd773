//! Tab display formatting — configurable layout strings.
//!
//! A layout such as `"{index}: {name}"` is literal text with placeholders in
//! braces. Parsing splits it into segments; formatting renders the segments
//! for one tab.

use vstd::prelude::*;

use crate::chars::{decimal, digit_char, usize_to_decimal};
use crate::cursor::substring;

verus! {

/// Recognized format identifiers in tab display layout strings.
#[derive(Debug, Clone, PartialEq, Eq)]
pub enum FormatIdent {
    /// The tab's current position-based index (1-based).
    Index,
    /// The tab's custom name (if set).
    Name,
    /// A literal string segment.
    Literal(String),
}

/// Errors that can occur when parsing a tab display layout.
#[derive(Debug, Clone, PartialEq, Eq)]
pub enum TabDisplayError {
    UnknownIdent(String),
    UnclosedBrace,
}

/// The mathematical value of a [`FormatIdent`].
pub enum LayoutSegment {
    Index,
    Name,
    Literal(Seq<char>),
}

/// The mathematical value of a [`TabDisplayError`].
pub enum LayoutError {
    UnknownIdent(Seq<char>),
    UnclosedBrace,
}

impl View for FormatIdent {
    type V = LayoutSegment;

    open spec fn view(&self) -> LayoutSegment {
        match self {
            FormatIdent::Index => LayoutSegment::Index,
            FormatIdent::Name => LayoutSegment::Name,
            FormatIdent::Literal(s) => LayoutSegment::Literal(s@),
        }
    }
}

impl View for TabDisplayError {
    type V = LayoutError;

    open spec fn view(&self) -> LayoutError {
        match self {
            TabDisplayError::UnknownIdent(s) => LayoutError::UnknownIdent(s@),
            TabDisplayError::UnclosedBrace => LayoutError::UnclosedBrace,
        }
    }
}

// ---------------------------------------------------------------------------
// Model
// ---------------------------------------------------------------------------

/// The values of a sequence of segments.
pub open spec fn segments_view(v: Seq<FormatIdent>) -> Seq<LayoutSegment> {
    v.map_values(|f: FormatIdent| f@)
}

/// The first index at or after `from` that holds `c`.
pub open spec fn find_char(s: Seq<char>, c: char, from: int) -> Option<int>
    decreases s.len() - from,
{
    if from < 0 || from >= s.len() {
        None
    } else if s[from] == c {
        Some(from)
    } else {
        find_char(s, c, from + 1)
    }
}

/// The identifier `index`.
pub open spec fn index_ident() -> Seq<char> {
    seq!['i', 'n', 'd', 'e', 'x']
}

/// The identifier `name`.
pub open spec fn name_ident() -> Seq<char> {
    seq!['n', 'a', 'm', 'e']
}

/// The segment that a placeholder's identifier stands for.
pub open spec fn placeholder(ident: Seq<char>) -> Option<LayoutSegment> {
    if ident == index_ident() {
        Some(LayoutSegment::Index)
    } else if ident == name_ident() {
        Some(LayoutSegment::Name)
    } else {
        None
    }
}

/// A literal segment for `s[from..to]`, or nothing when it is empty.
pub open spec fn literal_between(s: Seq<char>, from: int, to: int) -> Seq<LayoutSegment> {
    if from < to {
        seq![LayoutSegment::Literal(s.subrange(from, to))]
    } else {
        seq![]
    }
}

/// The segments of the layout text `s` from index `start` on: literal text
/// up to the next `{`, then the placeholder that ends at the next `}`, and so
/// on. A `{` without a later `}` is an unclosed brace; a placeholder other
/// than `index` or `name` is an unknown identifier. The first problem from
/// the left is the one reported.
pub open spec fn parse_from(s: Seq<char>, start: int) -> Result<Seq<LayoutSegment>, LayoutError>
    decreases s.len() - start,
{
    if start < 0 || start > s.len() {
        Ok(seq![])
    } else {
        match find_char(s, '{', start) {
            None => Ok(literal_between(s, start, s.len() as int)),
            Some(open) => match find_char(s, '}', open + 1) {
                None => Err(LayoutError::UnclosedBrace),
                Some(close) => {
                    let ident = s.subrange(open + 1, close);
                    match placeholder(ident) {
                        None => Err(LayoutError::UnknownIdent(ident)),
                        Some(p) => {
                            proof {
                                lemma_find_char(s, '{', start);
                                lemma_find_char(s, '}', open + 1);
                            }
                            match parse_from(s, close + 1) {
                                Ok(rest) => Ok(literal_between(s, start, open).push(p) + rest),
                                Err(e) => Err(e),
                            }
                        },
                    }
                },
            },
        }
    }
}

/// What `parse_tab_layout` yields for the layout `s`: its segments, or a lone
/// `Index` for a layout with none.
pub open spec fn parse_layout(s: Seq<char>) -> Result<Seq<LayoutSegment>, LayoutError> {
    match parse_from(s, 0) {
        Ok(segs) => Ok(
            if segs.len() == 0 {
                seq![LayoutSegment::Index]
            } else {
                segs
            },
        ),
        Err(e) => Err(e),
    }
}

/// The text of one segment for the tab at `index` named `name`.
pub open spec fn render_segment(seg: LayoutSegment, index: nat, name: Option<Seq<char>>) -> Seq<
    char,
> {
    match seg {
        LayoutSegment::Index => decimal(index),
        LayoutSegment::Name => match name {
            Some(n) => n,
            None => seq![],
        },
        LayoutSegment::Literal(t) => t,
    }
}

/// The segments' texts, one after another.
pub open spec fn render(segs: Seq<LayoutSegment>, index: nat, name: Option<Seq<char>>) -> Seq<char>
    decreases segs.len(),
{
    if segs.len() == 0 {
        seq![]
    } else {
        render(segs.drop_last(), index, name) + render_segment(segs.last(), index, name)
    }
}

/// Some segment is a `Name`.
pub open spec fn has_name_segment(segs: Seq<LayoutSegment>) -> bool {
    exists|i: int| 0 <= i < segs.len() && segs[i] is Name
}

/// The label of the tab at `index` named `name`: an unnamed tab whose layout
/// mentions the name shows its index alone; otherwise the segments render.
pub open spec fn format_label(segs: Seq<LayoutSegment>, index: nat, name: Option<Seq<char>>) -> Seq<
    char,
> {
    if name is None && has_name_segment(segs) {
        decimal(index)
    } else {
        render(segs, index, name)
    }
}

/// The value of an optional string slice.
pub open spec fn opt_str_view(s: Option<&str>) -> Option<Seq<char>> {
    match s {
        Some(t) => Some(t@),
        None => None,
    }
}

/// The text of a layout written back from its segments: placeholders in
/// braces, literals as they are.
pub open spec fn unparse(segs: Seq<LayoutSegment>) -> Seq<char>
    decreases segs.len(),
{
    if segs.len() == 0 {
        seq![]
    } else {
        unparse(segs.drop_last()) + match segs.last() {
            LayoutSegment::Index => seq!['{'] + index_ident() + seq!['}'],
            LayoutSegment::Name => seq!['{'] + name_ident() + seq!['}'],
            LayoutSegment::Literal(t) => t,
        }
    }
}

/// The message that describes an error.
pub open spec fn error_message(e: LayoutError) -> Seq<char> {
    match e {
        LayoutError::UnknownIdent(ident) => "unknown format identifier: "@ + ident,
        LayoutError::UnclosedBrace => "unclosed brace in tab display layout"@,
    }
}

// ---------------------------------------------------------------------------
// Lemmas
// ---------------------------------------------------------------------------

/// What `find_char` finds: a later position holding `c`, with no `c` in
/// between; `None` when no position from `from` on holds it.
pub proof fn lemma_find_char(s: Seq<char>, c: char, from: int)
    requires
        0 <= from,
    ensures
        match find_char(s, c, from) {
            Some(i) => from <= i < s.len() && s[i] == c && forall|j: int|
                from <= j < i ==> s[j] != c,
            None => forall|j: int| from <= j < s.len() ==> s[j] != c,
        },
    decreases s.len() - from,
{
    if from < s.len() && s[from] != c {
        lemma_find_char(s, c, from + 1);
    }
}

/// Writing back distributes over concatenation.
proof fn lemma_unparse_concat(a: Seq<LayoutSegment>, b: Seq<LayoutSegment>)
    ensures
        unparse(a + b) == unparse(a) + unparse(b),
    decreases b.len(),
{
    if b.len() == 0 {
        assert(a + b =~= a);
    } else {
        lemma_unparse_concat(a, b.drop_last());
        assert((a + b).drop_last() =~= a + b.drop_last());
        assert((a + b).last() == b.last());
        let tail = unparse(b) .subrange(unparse(b.drop_last()).len() as int, unparse(b).len() as int);
        assert(unparse(a) + unparse(b.drop_last()) + tail =~= unparse(a) + (unparse(b.drop_last())
            + tail));
        assert(unparse(b) =~= unparse(b.drop_last()) + tail);
    }
}

// ---------------------------------------------------------------------------
// Executable code
// ---------------------------------------------------------------------------

/// Whether two strings hold the same characters.
fn same_text(a: &str, b: &str) -> (res: bool)
    ensures
        res == (a@ == b@),
{
    let n = a.unicode_len();
    if n != b.unicode_len() {
        return false;
    }
    let mut i: usize = 0;
    while i < n
        invariant
            n == a@.len(),
            n == b@.len(),
            i <= n,
            forall|j: int| 0 <= j < i ==> a@[j] == b@[j],
        decreases n - i,
    {
        if a.get_char(i) != b.get_char(i) {
            return false;
        }
        i = i + 1;
    }
    assert(a@ =~= b@);
    true
}

/// Parse a format string like `"{index}: {name}"` into segments.
pub fn parse_tab_layout(layout: &str) -> (res: Result<Vec<FormatIdent>, TabDisplayError>)
    ensures
        match (res, parse_layout(layout@)) {
            (Ok(v), Ok(segs)) => segments_view(v@) == segs,
            (Err(e), Err(err)) => e@ == err,
            _ => false,
        },
        res matches Ok(v) ==> v@.len() > 0,
{
    let ghost s = layout@;
    let n = layout.unicode_len();
    let mut segments: Vec<FormatIdent> = Vec::new();
    let mut literal_start: usize = 0;
    let mut i: usize = 0;
    while i < n
        invariant
            n == s.len(),
            s == layout@,
            literal_start <= i <= n,
            find_char(s, '{', literal_start as int) == find_char(s, '{', i as int),
            parse_from(s, 0) == match parse_from(s, literal_start as int) {
                Ok(rest) => Ok(segments_view(segments@) + rest),
                Err(e) => Err(e),
            },
        decreases n - i,
    {
        let ch = layout.get_char(i);
        if ch == '{' {
            let mut j: usize = i + 1;
            while j < n && layout.get_char(j) != '}'
                invariant
                    n == s.len(),
                    s == layout@,
                    i < j <= n,
                    find_char(s, '}', i + 1) == find_char(s, '}', j as int),
                decreases n - j,
            {
                j = j + 1;
            }
            if j >= n {
                return Err(TabDisplayError::UnclosedBrace);
            }
            let ghost old_start = literal_start;
            let ghost open_at = i;
            let ghost old_segments = segments@;
            let ident = substring(layout, i + 1, j);
            proof {
                lemma_find_char(s, '{', literal_start as int);
            }
            if i > literal_start {
                segments.push(FormatIdent::Literal(substring(layout, literal_start, i)));
            }
            assert(segments_view(segments@) =~= segments_view(old_segments) + literal_between(
                s,
                literal_start as int,
                i as int,
            ));
            proof {
                reveal_strlit("index");
                reveal_strlit("name");
                assert("index"@ =~= index_ident());
                assert("name"@ =~= name_ident());
            }
            let ghost before_placeholder = segments@;
            if same_text(ident.as_str(), "index") {
                segments.push(FormatIdent::Index);
            } else if same_text(ident.as_str(), "name") {
                segments.push(FormatIdent::Name);
            } else {
                return Err(TabDisplayError::UnknownIdent(ident));
            }
            assert(segments_view(segments@) =~= segments_view(before_placeholder).push(
                placeholder(s.subrange(i + 1, j as int)).unwrap(),
            ));
            assert(segments_view(old_segments) + literal_between(
                s,
                literal_start as int,
                i as int,
            ).push(placeholder(s.subrange(i + 1, j as int)).unwrap()) =~= segments_view(
                segments@,
            ));
            literal_start = j + 1;
            i = j + 1;
            proof {
                let lit = literal_between(s, old_start as int, open_at as int);
                let p = placeholder(s.subrange(open_at + 1, j as int)).unwrap();
                match parse_from(s, literal_start as int) {
                    Ok(rest) => {
                        assert(segments_view(old_segments) + (lit.push(p) + rest) =~= segments_view(
                            segments@,
                        ) + rest);
                    },
                    Err(_) => {},
                }
            }
        } else {
            i = i + 1;
        }
    }
    proof {
        lemma_find_char(s, '{', literal_start as int);
    }
    let ghost before_tail = segments@;
    if literal_start < n {
        segments.push(FormatIdent::Literal(substring(layout, literal_start, n)));
    }
    assert(segments_view(segments@) =~= segments_view(before_tail) + literal_between(
        s,
        literal_start as int,
        n as int,
    ));
    if segments.len() == 0 {
        segments.push(FormatIdent::Index);
        assert(segments_view(segments@) =~= seq![LayoutSegment::Index]);
    }
    Ok(segments)
}

/// Resolve parsed segments against a tab's position and optional name.
///
/// When `custom_name` is `None`, `Name` segments are skipped (omitting
/// separators) and `Index` segments still render. This ensures unnamed
/// tabs never show dangling text like `"3: "` or `"3 - foo"`.
pub fn format_tab(segments: &[FormatIdent], index: usize, custom_name: Option<&str>) -> (res:
    String)
    ensures
        res@ == format_label(segments_view(segments@), index as nat, opt_str_view(custom_name)),
{
    let ghost segs = segments_view(segments@);
    let ghost name = opt_str_view(custom_name);
    // If unnamed and there's a Name segment anywhere, render just the index
    // to avoid dangling separators (e.g. `"3: "` from `"{index}: {name}"`).
    if custom_name.is_none() {
        let mut k: usize = 0;
        while k < segments.len()
            invariant
                k <= segments@.len(),
                segs == segments_view(segments@),
                custom_name is None,
                forall|j: int| 0 <= j < k ==> !(segs[j] is Name),
            decreases segments@.len() - k,
        {
            if let FormatIdent::Name = &segments[k] {
                assert(segs[k as int] is Name);
                assert(has_name_segment(segs));
                return usize_to_decimal(index);
            }
            k = k + 1;
        }
    }
    let mut out = String::new();
    let mut k: usize = 0;
    while k < segments.len()
        invariant
            k <= segments@.len(),
            segs == segments_view(segments@),
            name == opt_str_view(custom_name),
            out@ == render(segs.take(k as int), index as nat, name),
        decreases segments@.len() - k,
    {
        proof {
            assert(segs.take(k + 1).drop_last() =~= segs.take(k as int));
        }
        match &segments[k] {
            FormatIdent::Index => {
                let digits = usize_to_decimal(index);
                out.append(digits.as_str());
            },
            FormatIdent::Name => {
                if let Some(name) = custom_name {
                    out.append(name);
                }
            },
            FormatIdent::Literal(s) => out.append(s.as_str()),
        }
        k = k + 1;
    }
    assert(segs.take(segments@.len() as int) =~= segs);
    out
}

impl TabDisplayError {
    /// The human-readable description of the error.
    pub fn message(&self) -> (res: String)
        ensures
            res@ == error_message(self@),
    {
        match self {
            TabDisplayError::UnknownIdent(ident) => {
                let mut out = String::from_str("unknown format identifier: ");
                out.append(ident.as_str());
                out
            },
            TabDisplayError::UnclosedBrace => String::from_str(
                "unclosed brace in tab display layout",
            ),
        }
    }
}

// ---------------------------------------------------------------------------
// Laws
// ---------------------------------------------------------------------------

/// Writing back the segments parsed from position `start` gives the text
/// from `start` on.
proof fn lemma_unparse_parse_from(s: Seq<char>, start: int)
    requires
        0 <= start <= s.len(),
        parse_from(s, start) is Ok,
    ensures
        unparse(parse_from(s, start)->Ok_0) == s.subrange(start, s.len() as int),
    decreases s.len() - start,
{
    lemma_find_char(s, '{', start);
    match find_char(s, '{', start) {
        None => {
            if start < s.len() {
                let segs = seq![LayoutSegment::Literal(s.subrange(start, s.len() as int))];
                assert(segs.drop_last() =~= Seq::<LayoutSegment>::empty());
                assert(unparse(Seq::<LayoutSegment>::empty()) =~= Seq::<char>::empty());
                assert(unparse(segs) =~= s.subrange(start, s.len() as int));
            } else {
                assert(unparse(Seq::<LayoutSegment>::empty()) =~= s.subrange(
                    start,
                    s.len() as int,
                ));
            }
        },
        Some(open) => {
            lemma_find_char(s, '}', open + 1);
            let close = find_char(s, '}', open + 1)->Some_0;
            let ident = s.subrange(open + 1, close);
            let p = placeholder(ident)->Some_0;
            let rest = parse_from(s, close + 1)->Ok_0;
            lemma_unparse_parse_from(s, close + 1);
            let lit = literal_between(s, start, open);
            lemma_unparse_concat(lit.push(p), rest);
            assert(lit.push(p).drop_last() =~= lit);
            if start < open {
                assert(lit.drop_last() =~= Seq::<LayoutSegment>::empty());
                assert(unparse(Seq::<LayoutSegment>::empty()) =~= Seq::<char>::empty());
                assert(unparse(lit) =~= s.subrange(start, open));
            } else {
                assert(unparse(lit) =~= s.subrange(start, open));
            }
            let token = seq!['{'] + ident + seq!['}'];
            assert(unparse(lit.push(p)) == unparse(lit) + token);
            assert(unparse(lit.push(p)) == s.subrange(start, open) + token);
            assert(s.subrange(start, open) + token + s.subrange(close + 1, s.len() as int)
                =~= s.subrange(start, s.len() as int));
        },
    }
}

/// Parsing a non-empty layout and writing its segments back gives the
/// layout itself: the segments are exactly the layout's literal text and
/// placeholders, in order.
pub proof fn lemma_parse_then_unparse(layout: Seq<char>)
    requires
        layout.len() > 0,
        parse_layout(layout) is Ok,
    ensures
        unparse(parse_layout(layout)->Ok_0) == layout,
{
    lemma_unparse_parse_from(layout, 0);
    assert(layout.subrange(0, layout.len() as int) =~= layout);
    let segs = parse_from(layout, 0)->Ok_0;
    if segs.len() == 0 {
        assert(unparse(segs) =~= Seq::<char>::empty());
    }
}

/// A successful parse always has at least one segment: an empty layout
/// stands for the index alone.
pub proof fn lemma_parse_never_empty(layout: Seq<char>)
    requires
        parse_layout(layout) is Ok,
    ensures
        parse_layout(layout)->Ok_0.len() > 0,
        layout.len() == 0 ==> parse_layout(layout)->Ok_0 == seq![LayoutSegment::Index],
{
    if layout.len() == 0 {
        assert(find_char(layout, '{', 0) is None);
    }
}

/// An unnamed tab whose layout names the tab shows its index and nothing
/// else, so no separator is left dangling.
pub proof fn lemma_unnamed_tab_shows_index(segs: Seq<LayoutSegment>, index: nat)
    requires
        has_name_segment(segs),
    ensures
        format_label(segs, index, None) == decimal(index),
{
}


/// An unnamed tab whose layout has a name placeholder anywhere, the first
/// segment included, shows exactly the decimal digits of its index.
pub proof fn lemma_unnamed_tab_with_name_at(segs: Seq<LayoutSegment>, index: nat, k: int)
    requires
        0 <= k < segs.len(),
        segs[k] is Name,
    ensures
        format_label(segs, index, None) == decimal(index),
{
    assert(has_name_segment(segs));
}

/// Rendering distributes over concatenation.
proof fn lemma_render_concat(
    a: Seq<LayoutSegment>,
    b: Seq<LayoutSegment>,
    index: nat,
    name: Option<Seq<char>>,
)
    ensures
        render(a + b, index, name) == render(a, index, name) + render(b, index, name),
    decreases b.len(),
{
    if b.len() == 0 {
        assert(a + b =~= a);
        assert(render(a, index, name) + render(b, index, name) =~= render(a, index, name));
    } else {
        lemma_render_concat(a, b.drop_last(), index, name);
        assert((a + b).drop_last() =~= a + b.drop_last());
        assert(render(a, index, name) + render(b.drop_last(), index, name) + render_segment(
            b.last(),
            index,
            name,
        ) =~= render(a, index, name) + (render(b.drop_last(), index, name) + render_segment(
            b.last(),
            index,
            name,
        )));
    }
}

/// How a label is built: an empty layout renders nothing, the index
/// placeholder renders the index's decimal digits, the name placeholder the
/// name (nothing without one), a literal itself, and a layout the texts of
/// its parts one after another in order.
pub proof fn lemma_render_parts(
    a: Seq<LayoutSegment>,
    b: Seq<LayoutSegment>,
    index: nat,
    name: Option<Seq<char>>,
    text: Seq<char>,
)
    ensures
        render(seq![], index, name) == Seq::<char>::empty(),
        render(seq![LayoutSegment::Index], index, name) == decimal(index),
        render(seq![LayoutSegment::Name], index, name) == match name {
            Some(n) => n,
            None => Seq::<char>::empty(),
        },
        render(seq![LayoutSegment::Literal(text)], index, name) == text,
        render(a + b, index, name) == render(a, index, name) + render(b, index, name),
{
    lemma_render_concat(a, b, index, name);
    let e = Seq::<LayoutSegment>::empty();
    assert(seq![LayoutSegment::Index].drop_last() =~= e);
    assert(seq![LayoutSegment::Name].drop_last() =~= e);
    assert(seq![LayoutSegment::Literal(text)].drop_last() =~= e);
    assert(render(e, index, name) + decimal(index) =~= decimal(index));
    assert(render(e, index, name) + text =~= text);
    match name {
        Some(n) => {
            assert(render(e, index, name) + n =~= n);
        },
        None => {
            assert(render(e, index, name) + Seq::<char>::empty() =~= Seq::<char>::empty());
        },
    }
}

/// A named tab, or one whose layout never mentions the name, renders its
/// layout part by part.
pub proof fn lemma_label_renders_parts(segs: Seq<LayoutSegment>, index: nat, name: Option<Seq<char>>)
    requires
        name is Some || forall|k: int| 0 <= k < segs.len() ==> !(#[trigger] segs[k] is Name),
    ensures
        format_label(segs, index, name) == render(segs, index, name),
{
}

/// The decimal digits of a number are digits: the last is the number modulo
/// ten, the rest are the digits of the number divided by ten, and only zero
/// starts with a `0`.
pub proof fn lemma_decimal_digits(n: nat)
    ensures
        decimal(n).len() >= 1,
        decimal(n).last() == digit_char(n % 10),
        n >= 10 ==> decimal(n).drop_last() == decimal(n / 10),
        n < 10 ==> decimal(n).len() == 1,
        decimal(n)[0] == digit_char(0) ==> n == 0,
        forall|d: nat| d < 10 ==> (#[trigger] digit_char(d)) as u32 == 48 + d,
        n < 10 ==> decimal(n)[0] as u32 == 48 + n,
    decreases n,
{
    if n >= 10 {
        lemma_decimal_digits(n / 10);
        assert(decimal(n).drop_last() =~= decimal(n / 10));
        assert(decimal(n)[0] == decimal(n / 10)[0]);
    }
}

/// Text without braces is one literal; a lone placeholder is its segment; a
/// placeholder other than `index` or `name` is reported with its text; a
/// `{` that no `}` follows is an unclosed brace.
pub proof fn lemma_parse_cases(text: Seq<char>, ident: Seq<char>)
    ensures
        text.len() > 0 && !text.contains('{') ==> parse_layout(text) == Ok::<
            Seq<LayoutSegment>,
            LayoutError,
        >(seq![LayoutSegment::Literal(text)]),
        parse_layout(seq!['{'] + seq!['i', 'n', 'd', 'e', 'x'] + seq!['}']) == Ok::<
            Seq<LayoutSegment>,
            LayoutError,
        >(seq![LayoutSegment::Index]),
        parse_layout(seq!['{'] + seq!['n', 'a', 'm', 'e'] + seq!['}']) == Ok::<
            Seq<LayoutSegment>,
            LayoutError,
        >(seq![LayoutSegment::Name]),
        !ident.contains('}') && ident != seq!['i', 'n', 'd', 'e', 'x'] && ident != seq![
            'n',
            'a',
            'm',
            'e',
        ] ==> parse_layout(seq!['{'] + ident + seq!['}']) == Err::<Seq<LayoutSegment>, LayoutError>(
            LayoutError::UnknownIdent(ident),
        ),
        text.contains('{') && !text.contains('}') ==> parse_layout(text) == Err::<
            Seq<LayoutSegment>,
            LayoutError,
        >(LayoutError::UnclosedBrace),
{
    lemma_find_char(text, '{', 0);
    if text.contains('{') && !text.contains('}') {
        let open = find_char(text, '{', 0)->Some_0;
        lemma_find_char(text, '}', open + 1);
    }
    if text.len() > 0 && !text.contains('{') {
        if let Some(i) = find_char(text, '{', 0) {
            assert(text.contains('{'));
        }
        assert(text.subrange(0, text.len() as int) =~= text);
    }
    lemma_placeholder_alone(seq!['i', 'n', 'd', 'e', 'x']);
    lemma_placeholder_alone(seq!['n', 'a', 'm', 'e']);
    if !ident.contains('}') {
        lemma_placeholder_alone(ident);
    }
}

proof fn lemma_placeholder_alone(ident: Seq<char>)
    requires
        !ident.contains('}'),
    ensures
        ({
            let s = seq!['{'] + ident + seq!['}'];
            &&& find_char(s, '{', 0) == Some(0int)
            &&& find_char(s, '}', 1) == Some(ident.len() + 1int)
            &&& s.subrange(1, ident.len() + 1int) == ident
            &&& parse_from(s, ident.len() + 2int) == Ok::<Seq<LayoutSegment>, LayoutError>(seq![])
            &&& match placeholder(ident) {
                Some(p) => parse_layout(s) == Ok::<Seq<LayoutSegment>, LayoutError>(seq![p]),
                None => parse_layout(s) == Err::<Seq<LayoutSegment>, LayoutError>(
                    LayoutError::UnknownIdent(ident),
                ),
            }
        }),
{
    let s = seq!['{'] + ident + seq!['}'];
    lemma_find_char(s, '}', 1);
    let c = find_char(s, '}', 1);
    assert forall|j: int| 1 <= j < ident.len() + 1int implies s[j] != '}' by {
        assert(s[j] == ident[j - 1]);
    }
    assert(s[ident.len() + 1int] == '}');
    assert(s.subrange(1, ident.len() + 1int) =~= ident);
    assert(find_char(s, '{', ident.len() + 2int) is None);
    if let Some(p) = placeholder(ident) {
        assert(literal_between(s, 0, 0).push(p) + seq![] =~= seq![p]);
    }
}

/// Parsed literals are never empty and never hold a `{`: every brace opens
/// a placeholder.
pub proof fn lemma_literals_are_plain_text(layout: Seq<char>)
    requires
        parse_layout(layout) is Ok,
    ensures
        forall|i: int|
            0 <= i < parse_layout(layout)->Ok_0.len() ==> (#[trigger] parse_layout(
                layout,
            )->Ok_0[i] matches LayoutSegment::Literal(text) ==> text.len() > 0 && !text.contains(
                '{',
            )),
{
    lemma_literals_from(layout, 0);
}

proof fn lemma_literals_from(s: Seq<char>, start: int)
    requires
        0 <= start <= s.len(),
        parse_from(s, start) is Ok,
    ensures
        forall|i: int|
            0 <= i < parse_from(s, start)->Ok_0.len() ==> (#[trigger] parse_from(
                s,
                start,
            )->Ok_0[i] matches LayoutSegment::Literal(text) ==> text.len() > 0 && !text.contains(
                '{',
            )),
    decreases s.len() - start,
{
    lemma_find_char(s, '{', start);
    match find_char(s, '{', start) {
        None => {
            if start < s.len() {
                let text = s.subrange(start, s.len() as int);
                assert forall|j: int| 0 <= j < text.len() implies text[j] != '{' by {
                    assert(text[j] == s[start + j]);
                }
            }
        },
        Some(open) => {
            lemma_find_char(s, '}', open + 1);
            let close = find_char(s, '}', open + 1)->Some_0;
            lemma_literals_from(s, close + 1);
            let text = s.subrange(start, open);
            assert forall|j: int| 0 <= j < text.len() implies text[j] != '{' by {
                assert(text[j] == s[start + j]);
            }
            let p = placeholder(s.subrange(open + 1, close))->Some_0;
            let head = literal_between(s, start, open).push(p);
            let rest = parse_from(s, close + 1)->Ok_0;
            assert forall|i: int| 0 <= i < (head + rest).len() implies (#[trigger] (head
                + rest)[i] matches LayoutSegment::Literal(t) ==> t.len() > 0 && !t.contains('{')) by {
                if i >= head.len() {
                    assert((head + rest)[i] == rest[i - head.len()]);
                }
            }
        },
    }
}

} // verus!
