//! The text of a fragment identifier, and the proof that parsing it gives
//! the identifier back.

use vstd::prelude::*;
use crate::cfi::decimal_value;
use crate::cfi::digits_end;
use crate::cfi::is_digit;
use crate::cfi::is_safe;
use crate::cfi::opening;
use crate::cfi::safe_end;
use crate::cfi::spec_component;
use crate::cfi::spec_components;
use crate::cfi::spec_integer;
use crate::cfi::spec_offset;
use crate::cfi::spec_parse;
use crate::cfi::spec_path;
use crate::cfi::spec_range;
use crate::cfi::ComponentModel;
use crate::cfi::FragmentModel;
use crate::cfi::PathModel;
use crate::cfi::RangeModel;

verus! {

/// The digit for a number below ten.
pub open spec fn digit_char(d: nat) -> char {
    ((48 + d) as u8) as char
}

/// A number in decimal digits, without leading zeros.
pub open spec fn decimal(n: nat) -> Seq<char>
    decreases n,
{
    if n < 10 {
        seq![digit_char(n)]
    } else {
        decimal(n / 10).push(digit_char(n % 10))
    }
}

/// The text of a component.
pub open spec fn component_text(c: ComponentModel) -> Seq<char> {
    match c {
        ComponentModel::Step(n) => seq!['/'] + decimal(n as nat),
        ComponentModel::Assertion(id) => seq!['['] + id + seq![']'],
        ComponentModel::Indirection => seq!['!'],
    }
}

/// The texts of the components, one after the other.
pub open spec fn components_text(components: Seq<ComponentModel>) -> Seq<char>
    decreases components.len(),
{
    if components.len() == 0 {
        Seq::empty()
    } else {
        component_text(components[0]) + components_text(components.drop_first())
    }
}

/// The text of an offset, if there is one.
pub open spec fn offset_text(offset: Option<u32>) -> Seq<char> {
    match offset {
        Some(n) => seq![':'] + decimal(n as nat),
        None => Seq::empty(),
    }
}

/// The text of a path.
pub open spec fn path_text(path: PathModel) -> Seq<char> {
    components_text(path.components) + offset_text(path.offset)
}

/// The text of a fragment identifier.
pub open spec fn fragment_text(fragment: FragmentModel) -> Seq<char> {
    opening() + path_text(fragment.path) + match fragment.range {
        Some(range) => seq![','] + path_text(range.from) + seq![','] + path_text(range.to),
        None => Seq::empty(),
    } + seq![')']
}

/// Whether a component can be written down: an assertion needs an id of
/// one or more safe characters.
pub open spec fn component_ok(c: ComponentModel) -> bool {
    match c {
        ComponentModel::Assertion(id) => id.len() > 0 && forall|i: int|
            0 <= i < id.len() ==> is_safe(#[trigger] id[i]),
        _ => true,
    }
}

/// Whether a path can be written down: it has a component, and each of
/// its components can be written down.
pub open spec fn path_ok(path: PathModel) -> bool {
    path.components.len() > 0 && forall|i: int|
        0 <= i < path.components.len() ==> component_ok(#[trigger] path.components[i])
}

/// Whether a fragment identifier can be written down.
pub open spec fn fragment_ok(fragment: FragmentModel) -> bool {
    path_ok(fragment.path) && match fragment.range {
        Some(range) => path_ok(range.from) && path_ok(range.to),
        None => true,
    }
}

/// The digits of a number are digits, and denote the number.
pub proof fn lemma_decimal(n: nat)
    ensures
        decimal(n).len() > 0,
        forall|i: int| 0 <= i < decimal(n).len() ==> is_digit(#[trigger] decimal(n)[i]),
        decimal_value(decimal(n)) == n,
    decreases n,
{
    if n < 10 {
        let d = decimal(n);
        assert(d.drop_last() =~= Seq::<char>::empty());
        assert(d.last() == digit_char(n));
        assert(decimal_value(d.drop_last()) == 0);
    } else {
        lemma_decimal(n / 10);
        let shorter = decimal(n / 10);
        let d = decimal(n);
        assert(d.drop_last() =~= shorter);
        assert(d.last() == digit_char(n % 10));
        assert forall|i: int| 0 <= i < d.len() implies is_digit(#[trigger] d[i]) by {
            if i < shorter.len() {
                assert(d[i] == shorter[i]);
            }
        }
    }
}

/// A run of digits that ends at `end` is the longest one.
pub proof fn lemma_digits_run(s: Seq<char>, at: int, end: int)
    requires
        0 <= at <= end <= s.len(),
        forall|i: int| at <= i < end ==> is_digit(#[trigger] s[i]),
        end == s.len() || !is_digit(s[end]),
    ensures
        digits_end(s, at) == end,
    decreases end - at,
{
    if at < end {
        lemma_digits_run(s, at + 1, end);
    }
}

/// A run of safe characters that ends at `end` is the longest one.
pub proof fn lemma_safe_run(s: Seq<char>, at: int, end: int)
    requires
        0 <= at <= end <= s.len(),
        forall|i: int| at <= i < end ==> is_safe(#[trigger] s[i]),
        end == s.len() || !is_safe(s[end]),
    ensures
        safe_end(s, at) == end,
    decreases end - at,
{
    if at < end {
        lemma_safe_run(s, at + 1, end);
    }
}

/// Whether no digit stands at `at` in `s`.
pub open spec fn no_digit_at(s: Seq<char>, at: int) -> bool {
    at >= s.len() || !is_digit(s[at])
}

/// Where the digits of a number stand and no digit follows them, the
/// number is read back.
pub proof fn lemma_integer(s: Seq<char>, at: int, n: u32)
    requires
        0 <= at,
        at + decimal(n as nat).len() <= s.len(),
        s.subrange(at, at + decimal(n as nat).len()) == decimal(n as nat),
        no_digit_at(s, at + decimal(n as nat).len()),
    ensures
        spec_integer(s, at) == Some((n, at + decimal(n as nat).len())),
{
    let digits = decimal(n as nat);
    let end = at + digits.len();
    lemma_decimal(n as nat);
    assert forall|i: int| at <= i < end implies is_digit(#[trigger] s[i]) by {
        assert(s[i] == s.subrange(at, end)[i - at]);
    }
    lemma_digits_run(s, at, end);
}


/// Whether `c` begins a component.
pub open spec fn starts_component(c: char) -> bool {
    c == '/' || c == '!' || c == '['
}

/// The text of a component is not empty and begins as a component does.
pub proof fn lemma_component_text(c: ComponentModel)
    ensures
        component_text(c).len() > 0,
        starts_component(component_text(c)[0]),
{
}

/// Where the text of a component stands and no digit follows it, the
/// component is read back.
pub proof fn lemma_component(s: Seq<char>, at: int, c: ComponentModel)
    requires
        0 <= at,
        component_ok(c),
        at + component_text(c).len() <= s.len(),
        s.subrange(at, at + component_text(c).len()) == component_text(c),
        no_digit_at(s, at + component_text(c).len()),
    ensures
        spec_component(s, at) == Some((c, at + component_text(c).len())),
{
    let text = component_text(c);
    let end = at + text.len();
    assert(s[at] == s.subrange(at, end)[0]);
    match c {
        ComponentModel::Step(n) => {
            let digits = decimal(n as nat);
            assert(s.subrange(at + 1, at + 1 + digits.len()) =~= digits) by {
                assert forall|i: int| 0 <= i < digits.len() implies s.subrange(
                    at + 1,
                    at + 1 + digits.len(),
                )[i] == digits[i] by {
                    assert(s[at + 1 + i] == s.subrange(at, end)[i + 1]);
                }
            }
            lemma_integer(s, at + 1, n);
        },
        ComponentModel::Assertion(id) => {
            let close = at + 1 + id.len();
            assert forall|i: int| at + 1 <= i < close implies is_safe(#[trigger] s[i]) by {
                assert(s[i] == s.subrange(at, end)[i - at]);
                assert(text[i - at] == id[i - at - 1]);
            }
            assert(s[close] == s.subrange(at, end)[close - at]);
            assert(s[close] == ']');
            lemma_safe_run(s, at + 1, close);
            assert(s.subrange(at + 1, close) =~= id) by {
                assert forall|i: int| 0 <= i < id.len() implies s.subrange(at + 1, close)[i]
                    == id[i] by {
                    assert(s[at + 1 + i] == s.subrange(at, end)[i + 1]);
                }
            }
        },
        ComponentModel::Indirection => {},
    }
}

/// Whether the components of a path end at `at`: nothing stands there
/// that begins a component or goes on with a number.
pub open spec fn path_ends_at(s: Seq<char>, at: int) -> bool {
    at >= s.len() || (!starts_component(s[at]) && !is_digit(s[at]))
}

/// Where the texts of components stand and neither a component nor a
/// digit follows them, the components are read back.
pub proof fn lemma_components(s: Seq<char>, at: int, components: Seq<ComponentModel>)
    requires
        0 <= at,
        forall|i: int| 0 <= i < components.len() ==> component_ok(#[trigger] components[i]),
        at + components_text(components).len() <= s.len(),
        s.subrange(at, at + components_text(components).len()) == components_text(components),
        path_ends_at(s, at + components_text(components).len()),
    ensures
        spec_components(s, at) == (components, at + components_text(components).len()),
    decreases components.len(),
{
    let text = components_text(components);
    let end = at + text.len();
    if components.len() == 0 {
        assert(spec_component(s, at) is None);
        assert(components =~= Seq::<ComponentModel>::empty());
    } else {
        let first = components[0];
        let rest = components.drop_first();
        let head = component_text(first);
        let tail = components_text(rest);
        let next = at + head.len();
        lemma_component_text(first);
        assert(text == head + tail);
        assert(s.subrange(at, next) =~= head) by {
            assert forall|i: int| 0 <= i < head.len() implies s.subrange(at, next)[i]
                == head[i] by {
                assert(s[at + i] == s.subrange(at, end)[i]);
            }
        }
        assert(s.subrange(next, end) =~= tail) by {
            assert forall|i: int| 0 <= i < tail.len() implies s.subrange(next, end)[i]
                == tail[i] by {
                assert(s[next + i] == s.subrange(at, end)[head.len() + i]);
            }
        }
        if rest.len() > 0 {
            lemma_component_text(rest[0]);
            assert(tail == component_text(rest[0]) + components_text(rest.drop_first()));
            assert(s[next] == s.subrange(next, end)[0]);
            assert(starts_component(s[next]));
        } else {
            assert(tail =~= Seq::<char>::empty());
        }
        lemma_component(s, at, first);
        assert forall|i: int| 0 <= i < rest.len() implies component_ok(#[trigger] rest[i]) by {
            assert(rest[i] == components[i + 1]);
        }
        lemma_components(s, next, rest);
        assert(seq![first] + rest =~= components);
    }
}

/// Whether a comma or the closing bracket stands at `at` in `s`.
pub open spec fn closes_path(s: Seq<char>, at: int) -> bool {
    0 <= at < s.len() && (s[at] == ',' || s[at] == ')')
}

/// Where the text of a path stands and a comma or the closing bracket
/// follows it, the path is read back.
pub proof fn lemma_path(s: Seq<char>, at: int, path: PathModel)
    requires
        0 <= at,
        path_ok(path),
        s.subrange(at, at + path_text(path).len()) == path_text(path),
        closes_path(s, at + path_text(path).len()),
    ensures
        spec_path(s, at) == Some((path, at + path_text(path).len())),
{
    let text = path_text(path);
    let end = at + text.len();
    let ctext = components_text(path.components);
    let otext = offset_text(path.offset);
    let mid = at + ctext.len();
    assert(text == ctext + otext);
    assert(s.subrange(at, mid) =~= ctext) by {
        assert forall|i: int| 0 <= i < ctext.len() implies s.subrange(at, mid)[i] == ctext[i] by {
            assert(s[at + i] == s.subrange(at, end)[i]);
        }
    }
    match path.offset {
        Some(n) => {
            let digits = decimal(n as nat);
            assert(otext == seq![':'] + digits);
            assert(s[mid] == s.subrange(at, end)[ctext.len() as int]);
            assert(s[mid] == ':');
            lemma_components(s, at, path.components);
            assert(s.subrange(mid + 1, mid + 1 + digits.len()) =~= digits) by {
                assert forall|i: int| 0 <= i < digits.len() implies s.subrange(
                    mid + 1,
                    mid + 1 + digits.len(),
                )[i] == digits[i] by {
                    assert(s[mid + 1 + i] == s.subrange(at, end)[ctext.len() + 1 + i]);
                }
            }
            lemma_integer(s, mid + 1, n);
            assert(spec_offset(s, mid) == (Some(n), end));
        },
        None => {
            assert(otext =~= Seq::<char>::empty());
            lemma_components(s, at, path.components);
            assert(spec_offset(s, mid) == (None::<u32>, mid));
        },
    }
    assert(spec_components(s, at) == (path.components, mid));
}

/// In a text made of three parts, the middle part stands behind the
/// first, and the third begins where the middle part ends.
pub proof fn lemma_middle(before: Seq<char>, part: Seq<char>, after: Seq<char>)
    ensures
        (before + part + after).len() == before.len() + part.len() + after.len(),
        (before + part + after).subrange(
            before.len() as int,
            before.len() as int + part.len(),
        ) == part,
        after.len() > 0 ==> (before + part + after)[before.len() as int + part.len()] == after[0],
{
    let s = before + part + after;
    assert(s.subrange(before.len() as int, before.len() as int + part.len()) =~= part);
}

/// The law for a fragment identifier without a range.
proof fn lemma_point_parses_back(fragment: FragmentModel)
    requires
        fragment_ok(fragment),
        fragment.range is None,
    ensures
        spec_parse(fragment_text(fragment)) == Ok::<FragmentModel, int>(fragment),
{
    let s = fragment_text(fragment);
    let ptext = path_text(fragment.path);
    let mid: int = 8 + ptext.len() as int;
    let close = seq![')'];
    assert(opening().len() == 8);
    assert(s =~= opening() + ptext + close);
    lemma_middle(opening(), ptext, close);
    lemma_middle(Seq::empty(), opening(), ptext + close);
    assert(s =~= Seq::<char>::empty() + opening() + (ptext + close));
    assert(s[mid] == ')');
    lemma_path(s, 8, fragment.path);
    assert(spec_range(s, mid) is None);
}

/// Whether `s` is laid out as the text of a fragment identifier with
/// the path `path` and the range from `from` to `to`.
spec fn span_layout(s: Seq<char>, path: PathModel, from: PathModel, to: PathModel) -> bool {
    let mid: int = 8 + path_text(path).len() as int;
    let second: int = mid + 1 + path_text(from).len();
    let end: int = second + 1 + path_text(to).len();
    &&& s.len() == end + 1
    &&& s.subrange(0, 8) == opening()
    &&& s.subrange(8, mid) == path_text(path)
    &&& s[mid] == ','
    &&& s.subrange(mid + 1, second) == path_text(from)
    &&& s[second] == ','
    &&& s.subrange(second + 1, end) == path_text(to)
    &&& s[end] == ')'
}

/// The text of a fragment identifier with a range is laid out as one.
proof fn lemma_span_layout(fragment: FragmentModel)
    requires
        fragment.range is Some,
    ensures
        span_layout(
            fragment_text(fragment),
            fragment.path,
            fragment.range->0.from,
            fragment.range->0.to,
        ),
{
    let s = fragment_text(fragment);
    let range = fragment.range->0;
    let ptext = path_text(fragment.path);
    let from = path_text(range.from);
    let to = path_text(range.to);
    let comma = seq![','];
    let close = seq![')'];
    assert(opening().len() == 8);
    lemma_middle(Seq::empty(), opening(), ptext + comma + from + comma + to + close);
    assert(s =~= Seq::<char>::empty() + opening() + (ptext + comma + from + comma + to + close));
    lemma_middle(opening(), ptext, comma + from + comma + to + close);
    assert(s =~= opening() + ptext + (comma + from + comma + to + close));
    lemma_middle(opening() + ptext + comma, from, comma + to + close);
    assert(s =~= opening() + ptext + comma + from + (comma + to + close));
    lemma_middle(opening() + ptext + comma + from + comma, to, close);
    assert(s =~= opening() + ptext + comma + from + comma + to + close);
}

/// A text that is laid out as a fragment identifier with a range is read
/// as that identifier.
proof fn lemma_span_parses(s: Seq<char>, path: PathModel, from: PathModel, to: PathModel)
    requires
        path_ok(path),
        path_ok(from),
        path_ok(to),
        span_layout(s, path, from, to),
    ensures
        spec_parse(s) == Ok::<FragmentModel, int>(
            FragmentModel { path, range: Some(RangeModel { from, to }) },
        ),
{
    let mid: int = 8 + path_text(path).len() as int;
    let second: int = mid + 1 + path_text(from).len();
    let end: int = second + 1 + path_text(to).len();
    lemma_path(s, 8, path);
    lemma_path(s, mid + 1, from);
    lemma_path(s, second + 1, to);
    assert(spec_range(s, mid) == Some((RangeModel { from, to }, end)));
}

/// The law for a fragment identifier with a range.
proof fn lemma_span_parses_back(fragment: FragmentModel)
    requires
        fragment_ok(fragment),
        fragment.range is Some,
    ensures
        spec_parse(fragment_text(fragment)) == Ok::<FragmentModel, int>(fragment),
{
    let range = fragment.range->0;
    lemma_span_layout(fragment);
    lemma_span_parses(fragment_text(fragment), fragment.path, range.from, range.to);
}

/// Parsing the text of a fragment identifier gives the identifier back.
pub proof fn law_text_parses_back(fragment: FragmentModel)
    requires
        fragment_ok(fragment),
    ensures
        spec_parse(fragment_text(fragment)) == Ok::<FragmentModel, int>(fragment),
{
    if fragment.range is Some {
        lemma_span_parses_back(fragment);
    } else {
        lemma_point_parses_back(fragment);
    }
}


/// The longest run of safe characters from `at` on holds safe characters
/// only.
pub proof fn lemma_safe_end(s: Seq<char>, at: int)
    requires
        0 <= at,
    ensures
        at <= safe_end(s, at),
        at <= s.len() ==> safe_end(s, at) <= s.len(),
        forall|i: int| at <= i < safe_end(s, at) ==> is_safe(#[trigger] s[i]),
    decreases s.len() - at,
{
    if at < s.len() && is_safe(s[at]) {
        lemma_safe_end(s, at + 1);
    }
}

/// A component that was read can be written down.
pub proof fn lemma_component_read(s: Seq<char>, at: int)
    requires
        spec_component(s, at) is Some,
    ensures
        component_ok((spec_component(s, at)->0).0),
{
    if s[at] == '[' {
        lemma_safe_end(s, at + 1);
        let end = safe_end(s, at + 1);
        let id = s.subrange(at + 1, end);
        assert forall|i: int| 0 <= i < id.len() implies is_safe(#[trigger] id[i]) by {
            assert(id[i] == s[at + 1 + i]);
        }
    }
}

/// Components that were read can be written down.
pub proof fn lemma_components_read(s: Seq<char>, at: int)
    ensures
        forall|i: int|
            0 <= i < spec_components(s, at).0.len() ==> component_ok(
                #[trigger] spec_components(s, at).0[i],
            ),
    decreases s.len() - at,
{
    match spec_component(s, at) {
        Some((c, next)) => {
            if at < next <= s.len() {
                lemma_component_read(s, at);
                lemma_components_read(s, next);
                let rest = spec_components(s, next).0;
                let all = spec_components(s, at).0;
                assert(all == seq![c] + rest);
                assert forall|i: int| 0 <= i < all.len() implies component_ok(
                    #[trigger] all[i],
                ) by {
                    if i > 0 {
                        assert(all[i] == rest[i - 1]);
                    }
                }
            }
        },
        None => {},
    }
}

/// A path that was read can be written down.
pub proof fn lemma_path_read(s: Seq<char>, at: int)
    requires
        spec_path(s, at) is Some,
    ensures
        path_ok((spec_path(s, at)->0).0),
{
    lemma_components_read(s, at);
}

/// What parsing gives can be written down: every path has a component,
/// and every assertion an id of safe characters.
pub proof fn law_parsed_is_canonical(s: Seq<char>)
    requires
        spec_parse(s) is Ok,
    ensures
        fragment_ok(spec_parse(s)->Ok_0),
{
    lemma_path_read(s, 8);
    let mid = (spec_path(s, 8)->0).1;
    if spec_range(s, mid) is Some {
        lemma_path_read(s, mid + 1);
        let second = (spec_path(s, mid + 1)->0).1;
        lemma_path_read(s, second + 1);
    }
}

/// Parsing is settled after one round: the text of what a text parses to
/// parses to the same.
pub proof fn law_parse_is_stable(s: Seq<char>)
    requires
        spec_parse(s) is Ok,
    ensures
        spec_parse(fragment_text(spec_parse(s)->Ok_0)) == spec_parse(s),
{
    law_parsed_is_canonical(s);
    law_text_parses_back(spec_parse(s)->Ok_0);
}

} // verus!
