//! EPUB canonical fragment identifiers.
//!
//! ```text
//! fragment  := "epubcfi(" path range? ")"
//! path      := component+ offset?
//! component := "/" integer | "[" safe-chars "]" | "!"
//! offset    := ":" integer
//! range     := ("," path){2}
//! ```
//!
//! The grammar is written down twice: as spec functions over a sequence of
//! characters, which say what a text means, and as a scanner that is proved
//! to compute exactly that.

use vstd::prelude::*;
use vstd::string::StrSliceExecFns;
use crate::error::Error;
use crate::error::ParseError;
use crate::text::chars_of;

verus! {

/// A parsed fragment identifier: a path, and for a span the two paths that
/// bound it.
#[derive(Clone, Debug, PartialEq, Eq)]
pub struct Fragment {
    pub path: Path,
    pub range: Option<Range>,
}

/// The two ends of a span.
#[derive(Clone, Debug, PartialEq, Eq)]
pub struct Range {
    pub from: Path,
    pub to: Path,
}

/// A sequence of components with an optional offset on the last one.
#[derive(Clone, Debug, PartialEq, Eq)]
pub struct Path {
    pub components: Vec<PathComponent>,
    pub offset: Option<Offset>,
}

#[derive(Clone, Debug, PartialEq, Eq)]
pub enum PathComponent {
    /// `/N`: descend to the N-th child.
    Step(u32),
    /// `[id]`: the node reached is expected to carry this id.
    Assertion(Assertion),
    /// `!`: continue in the document that the node refers to.
    Indirection,
}

#[derive(Clone, Debug, PartialEq, Eq)]
pub enum Assertion {
    Id(String),
}

#[derive(Clone, Copy, Debug, PartialEq, Eq)]
pub enum Offset {
    /// `:N`: the N-th character.
    Character(u32),
}

/// What a [`PathComponent`] stands for.
pub enum ComponentModel {
    Step(u32),
    Assertion(Seq<char>),
    Indirection,
}

/// What a [`Path`] stands for.
pub struct PathModel {
    pub components: Seq<ComponentModel>,
    pub offset: Option<u32>,
}

/// What a [`Range`] stands for.
pub struct RangeModel {
    pub from: PathModel,
    pub to: PathModel,
}

/// What a [`Fragment`] stands for.
pub struct FragmentModel {
    pub path: PathModel,
    pub range: Option<RangeModel>,
}

impl View for Assertion {
    type V = Seq<char>;

    open spec fn view(&self) -> Seq<char> {
        match self {
            Assertion::Id(id) => id@,
        }
    }
}

impl View for Offset {
    type V = u32;

    open spec fn view(&self) -> u32 {
        match self {
            Offset::Character(n) => *n,
        }
    }
}

impl View for PathComponent {
    type V = ComponentModel;

    open spec fn view(&self) -> ComponentModel {
        match self {
            PathComponent::Step(n) => ComponentModel::Step(*n),
            PathComponent::Assertion(a) => ComponentModel::Assertion(a@),
            PathComponent::Indirection => ComponentModel::Indirection,
        }
    }
}

impl View for Path {
    type V = PathModel;

    open spec fn view(&self) -> PathModel {
        PathModel {
            components: self.components@.map_values(|c: PathComponent| c@),
            offset: match self.offset {
                Some(o) => Some(o@),
                None => None,
            },
        }
    }
}

impl View for Range {
    type V = RangeModel;

    open spec fn view(&self) -> RangeModel {
        RangeModel { from: self.from@, to: self.to@ }
    }
}

impl View for Fragment {
    type V = FragmentModel;

    open spec fn view(&self) -> FragmentModel {
        FragmentModel {
            path: self.path@,
            range: match self.range {
                Some(r) => Some(r@),
                None => None,
            },
        }
    }
}

/// The text that every fragment identifier begins with.
pub open spec fn opening() -> Seq<char> {
    seq!['e', 'p', 'u', 'b', 'c', 'f', 'i', '(']
}

pub open spec fn is_digit(c: char) -> bool {
    '0' <= c && c <= '9'
}

/// The characters that may stand between square brackets.
pub open spec fn is_safe(c: char) -> bool {
    c != '^' && c != '[' && c != ']' && c != '(' && c != ')' && c != ',' && c != ';' && c != '='
}

/// The number that a run of digits denotes, leading zeros allowed.
pub open spec fn decimal_value(digits: Seq<char>) -> nat
    decreases digits.len(),
{
    if digits.len() == 0 {
        0
    } else {
        decimal_value(digits.drop_last()) * 10 + ((digits.last() as u32 - '0' as u32) as nat)
    }
}

/// Where the longest run of digits that begins at `at` ends.
pub open spec fn digits_end(s: Seq<char>, at: int) -> int
    decreases s.len() - at,
{
    if 0 <= at < s.len() && is_digit(s[at]) {
        digits_end(s, at + 1)
    } else {
        at
    }
}

/// Where the longest run of safe characters that begins at `at` ends.
pub open spec fn safe_end(s: Seq<char>, at: int) -> int
    decreases s.len() - at,
{
    if 0 <= at < s.len() && is_safe(s[at]) {
        safe_end(s, at + 1)
    } else {
        at
    }
}

/// `integer`: one or more digits whose value fits 32 bits. Gives the value
/// and the position behind the digits.
pub open spec fn spec_integer(s: Seq<char>, at: int) -> Option<(u32, int)> {
    let end = digits_end(s, at);
    let value = decimal_value(s.subrange(at, end));
    if at < end && value <= u32::MAX {
        Some((value as u32, end))
    } else {
        None
    }
}

/// `component`, read at `at`. Gives the component and the position behind
/// it.
pub open spec fn spec_component(s: Seq<char>, at: int) -> Option<(ComponentModel, int)> {
    if !(0 <= at < s.len()) {
        None
    } else if s[at] == '/' {
        match spec_integer(s, at + 1) {
            Some((n, end)) => Some((ComponentModel::Step(n), end)),
            None => None,
        }
    } else if s[at] == '!' {
        Some((ComponentModel::Indirection, at + 1))
    } else if s[at] == '[' {
        let end = safe_end(s, at + 1);
        if at + 1 < end && end < s.len() && s[end] == ']' {
            Some((ComponentModel::Assertion(s.subrange(at + 1, end)), end + 1))
        } else {
            None
        }
    } else {
        None
    }
}

/// As many components as can be read from `at` on, and where they end.
pub open spec fn spec_components(s: Seq<char>, at: int) -> (Seq<ComponentModel>, int)
    decreases s.len() - at,
{
    match spec_component(s, at) {
        Some((c, next)) => if at < next <= s.len() {
            let (rest, end) = spec_components(s, next);
            (seq![c] + rest, end)
        } else {
            (Seq::empty(), at)
        },
        None => (Seq::empty(), at),
    }
}

/// `offset?`, read at `at`: the offset, if one stands there, and the
/// position behind it.
pub open spec fn spec_offset(s: Seq<char>, at: int) -> (Option<u32>, int) {
    if 0 <= at < s.len() && s[at] == ':' {
        match spec_integer(s, at + 1) {
            Some((n, end)) => (Some(n), end),
            None => (None, at),
        }
    } else {
        (None, at)
    }
}

/// `path`, read at `at`.
pub open spec fn spec_path(s: Seq<char>, at: int) -> Option<(PathModel, int)> {
    let (components, mid) = spec_components(s, at);
    if components.len() == 0 {
        None
    } else {
        let (offset, end) = spec_offset(s, mid);
        Some((PathModel { components, offset }, end))
    }
}

/// `range`, read at `at`: a comma and a path, twice.
pub open spec fn spec_range(s: Seq<char>, at: int) -> Option<(RangeModel, int)> {
    if 0 <= at < s.len() && s[at] == ',' {
        match spec_path(s, at + 1) {
            Some((from, mid)) => if 0 <= mid < s.len() && s[mid] == ',' {
                match spec_path(s, mid + 1) {
                    Some((to, end)) => Some((RangeModel { from, to }, end)),
                    None => None,
                }
            } else {
                None
            },
            None => None,
        }
    } else {
        None
    }
}

/// What the text `s` means: the fragment that it denotes, or the position
/// of the first character that does not fit the grammar.
pub open spec fn spec_parse(s: Seq<char>) -> Result<FragmentModel, int> {
    if !(s.len() >= 8 && s.subrange(0, 8) == opening()) {
        Err(0)
    } else {
        match spec_path(s, 8) {
            None => Err(8),
            Some((path, mid)) => {
                let (range, end) = match spec_range(s, mid) {
                    Some((r, end)) => (Some(r), end),
                    None => (None, mid),
                };
                if !(0 <= end < s.len() && s[end] == ')') {
                    Err(end)
                } else if end + 1 != s.len() {
                    Err(end + 1)
                } else {
                    Ok(FragmentModel { path, range })
                }
            },
        }
    }
}


/// Reads `integer` at `at`.
fn integer(chars: &Vec<char>, at: usize) -> (res: Option<(u32, usize)>)
    requires
        at <= chars.len(),
    ensures
        match res {
            Some((n, end)) => spec_integer(chars@, at as int) == Some((n, end as int)) && at < end
                <= chars.len(),
            None => spec_integer(chars@, at as int) is None,
        },
{
    let ghost s = chars@;
    let mut end: usize = at;
    let mut value: u64 = 0;
    let mut fits: bool = true;
    while end < chars.len() && chars[end] >= '0' && chars[end] <= '9'
        invariant
            s == chars@,
            at <= end <= chars.len(),
            digits_end(s, at as int) == digits_end(s, end as int),
            fits ==> value == decimal_value(s.subrange(at as int, end as int)) && value
                <= u32::MAX,
            !fits ==> decimal_value(s.subrange(at as int, end as int)) > u32::MAX,
        decreases chars.len() - end,
    {
        let digit: u64 = (chars[end] as u32 - '0' as u32) as u64;
        proof {
            let longer = s.subrange(at as int, end + 1);
            assert(longer.drop_last() == s.subrange(at as int, end as int));
            assert(longer.last() == s[end as int]);
        }
        if fits {
            let next: u64 = value * 10 + digit;
            if next > u32::MAX as u64 {
                fits = false;
            } else {
                value = next;
            }
        }
        end = end + 1;
    }
    if at < end && fits {
        Some((value as u32, end))
    } else {
        None
    }
}

/// Finds where the run of safe characters that begins at `at` ends.
fn string(chars: &Vec<char>, at: usize) -> (end: usize)
    requires
        at <= chars.len(),
    ensures
        end == safe_end(chars@, at as int),
        at <= end <= chars.len(),
{
    let mut end: usize = at;
    while end < chars.len() && safe(chars[end])
        invariant
            at <= end <= chars.len(),
            safe_end(chars@, at as int) == safe_end(chars@, end as int),
        decreases chars.len() - end,
    {
        end = end + 1;
    }
    end
}

/// Whether `c` may stand between square brackets.
fn safe(c: char) -> (b: bool)
    ensures
        b == is_safe(c),
{
    c != '^' && c != '[' && c != ']' && c != '(' && c != ')' && c != ',' && c != ';' && c != '='
}


/// What a vector of components stands for.
pub open spec fn components_view(v: Seq<PathComponent>) -> Seq<ComponentModel> {
    v.map_values(|c: PathComponent| c@)
}

impl PathComponent {
    /// Reads `component` at `at` of `text`, whose characters are `chars`.
    fn scan(text: &str, chars: &Vec<char>, at: usize) -> (res: Option<(PathComponent, usize)>)
        requires
            chars@ == text@,
            at <= chars.len(),
        ensures
            match res {
                Some((c, end)) => spec_component(chars@, at as int) == Some((c@, end as int))
                    && at < end <= chars.len(),
                None => spec_component(chars@, at as int) is None,
            },
    {
        if at >= chars.len() {
            return None;
        }
        let first = chars[at];
        if first == '/' {
            match integer(chars, at + 1) {
                Some((n, end)) => Some((PathComponent::Step(n), end)),
                None => None,
            }
        } else if first == '!' {
            Some((PathComponent::Indirection, at + 1))
        } else if first == '[' {
            let end = string(chars, at + 1);
            if at + 1 < end && end < chars.len() && chars[end] == ']' {
                let id = text.substring_char(at + 1, end).to_owned();
                Some((PathComponent::Assertion(Assertion::Id(id)), end + 1))
            } else {
                None
            }
        } else {
            None
        }
    }
}

impl Offset {
    /// Reads `offset?` at `at`.
    fn scan(chars: &Vec<char>, at: usize) -> (res: (Option<Offset>, usize))
        requires
            at <= chars.len(),
        ensures
            spec_offset(chars@, at as int) == (
                match res.0 {
                    Some(o) => Some(o@),
                    None => None,
                },
                res.1 as int,
            ),
            at <= res.1 <= chars.len(),
    {
        if at < chars.len() && chars[at] == ':' {
            match integer(chars, at + 1) {
                Some((n, end)) => (Some(Offset::Character(n)), end),
                None => (None, at),
            }
        } else {
            (None, at)
        }
    }
}

impl Path {
    /// Reads `path` at `at` of `text`, whose characters are `chars`.
    fn scan(text: &str, chars: &Vec<char>, at: usize) -> (res: Option<(Path, usize)>)
        requires
            chars@ == text@,
            at <= chars.len(),
        ensures
            match res {
                Some((p, end)) => spec_path(chars@, at as int) == Some((p@, end as int)) && at
                    < end <= chars.len(),
                None => spec_path(chars@, at as int) is None,
            },
    {
        let ghost s = chars@;
        let mut components: Vec<PathComponent> = Vec::new();
        let mut mid: usize = at;
        loop
            invariant
                s == chars@,
                chars@ == text@,
                at <= mid <= chars.len(),
                components.len() == 0 <==> mid == at,
                spec_components(s, at as int) == (
                    components_view(components@) + spec_components(s, mid as int).0,
                    spec_components(s, mid as int).1,
                ),
            ensures
                spec_components(s, at as int) == (components_view(components@), mid as int),
                components.len() == 0 <==> mid == at,
                at <= mid <= chars.len(),
            decreases chars.len() - mid,
        {
            match PathComponent::scan(text, chars, mid) {
                Some((c, next)) => {
                    proof {
                        let rest = spec_components(s, next as int).0;
                        assert(components_view(components@.push(c)) =~= components_view(
                            components@,
                        ).push(c@));
                        assert(components_view(components@).push(c@) + rest =~= components_view(
                            components@,
                        ) + (seq![c@] + rest));
                    }
                    components.push(c);
                    mid = next;
                },
                None => {
                    assert(components_view(components@) + Seq::<ComponentModel>::empty()
                        =~= components_view(components@));
                    break ;
                },
            }
        }
        if components.len() == 0 {
            return None;
        }
        let (offset, end) = Offset::scan(chars, mid);
        Some((Path { components, offset }, end))
    }
}

impl Range {
    /// Reads `range` at `at` of `text`, whose characters are `chars`.
    fn scan(text: &str, chars: &Vec<char>, at: usize) -> (res: Option<(Range, usize)>)
        requires
            chars@ == text@,
            at <= chars.len(),
        ensures
            match res {
                Some((r, end)) => spec_range(chars@, at as int) == Some((r@, end as int)) && at
                    < end <= chars.len(),
                None => spec_range(chars@, at as int) is None,
            },
    {
        if !(at < chars.len() && chars[at] == ',') {
            return None;
        }
        let (from, mid) = match Path::scan(text, chars, at + 1) {
            Some(found) => found,
            None => { return None; },
        };
        if !(mid < chars.len() && chars[mid] == ',') {
            return None;
        }
        match Path::scan(text, chars, mid + 1) {
            Some((to, end)) => Some((Range { from, to }, end)),
            None => None,
        }
    }
}

/// Whether `chars` begins with `epubcfi(`.
fn opens(chars: &Vec<char>) -> (b: bool)
    ensures
        b == (chars@.len() >= 8 && chars@.subrange(0, 8) == opening()),
{
    if chars.len() < 8 {
        return false;
    }
    let b = chars[0] == 'e' && chars[1] == 'p' && chars[2] == 'u' && chars[3] == 'b' && chars[4]
        == 'c' && chars[5] == 'f' && chars[6] == 'i' && chars[7] == '(';
    proof {
        let head = chars@.subrange(0, 8);
        if b {
            assert(head =~= opening());
        } else {
            assert(head[0] == chars@[0] && head[1] == chars@[1] && head[2] == chars@[2]
                && head[3] == chars@[3] && head[4] == chars@[4] && head[5] == chars@[5]
                && head[6] == chars@[6] && head[7] == chars@[7]);
            assert(opening()[0] == 'e' && opening()[1] == 'p' && opening()[2] == 'u'
                && opening()[3] == 'b' && opening()[4] == 'c' && opening()[5] == 'f'
                && opening()[6] == 'i' && opening()[7] == '(');
        }
    }
    b
}

/// The error for a text that stops fitting the grammar at `position`.
fn stuck(text: &str, chars: &Vec<char>, position: usize) -> (res: Error)
    requires
        chars@ == text@,
        position <= chars.len(),
    ensures
        res matches Error::Parse(e) && e.text@ == text@ && e.position == position
            && e.remaining@ == text@.skip(position as int),
{
    let remaining = text.substring_char(position, chars.len()).to_owned();
    assert(text@.subrange(position as int, chars.len() as int) =~= text@.skip(position as int));
    Error::Parse(ParseError { text: text.to_owned(), position, remaining })
}

impl Fragment {
    /// Parses a fragment identifier.
    ///
    /// The whole text has to be one identifier: the result is `Ok` exactly
    /// when [`spec_parse`] gives a fragment, and the error otherwise tells
    /// how many characters fit the grammar and which were left over.
    pub fn parse(i: &str) -> (res: Result<Fragment, Error>)
        ensures
            match spec_parse(i@) {
                Ok(fragment) => res matches Ok(f) && f@ == fragment,
                Err(position) => res matches Err(Error::Parse(e)) && e.text@ == i@ && e.position
                    == position && e.remaining@ == i@.skip(position),
            },
    {
        let chars = chars_of(i);
        if !opens(&chars) {
            return Err(stuck(i, &chars, 0));
        }
        let (path, mid) = match Path::scan(i, &chars, 8) {
            Some(found) => found,
            None => { return Err(stuck(i, &chars, 8)); },
        };
        let (range, end) = match Range::scan(i, &chars, mid) {
            Some((r, end)) => (Some(r), end),
            None => (None, mid),
        };
        if !(end < chars.len() && chars[end] == ')') {
            return Err(stuck(i, &chars, end));
        }
        if end + 1 != chars.len() {
            return Err(stuck(i, &chars, end + 1));
        }
        Ok(Fragment { path, range })
    }
}

} // verus!
