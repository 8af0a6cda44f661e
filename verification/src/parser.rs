//! Reading the DATA section of a STEP (ISO 10303-21) physical file.
//!
//! A file holds entity records of the form `#id = TYPE_NAME(args...);`.
//! [`parse_raw`] gathers them into a map from id to [`RawEntity`];
//! the argument text is split with [`split_args`], which respects nested
//! parentheses and quoted strings.
use vstd::prelude::*;
use std::collections::HashMap;
use crate::text::{
    debug_quoted, debug_text, digit_value, is_digit, u64_to_decimal, decimal, decimal_round_trip, is_ws, lemma_decimal_digits, strip_start,
    chars_of, chars_equal, find_char, find_char_index, lines, lines_of, parse_u64_chars,
    parse_u64_spec, string_of, strip_end, to_uppercase_chars, trim, trim_chars,
    trim_end_matches_chars, uppercase_of, CharClass,
};

verus! {

broadcast use vstd::std_specs::hash::group_hash_axioms;

/// A raw, unparsed STEP entity.
pub struct RawEntity {
    pub id: u64,
    pub entity_type: String,
    /// The raw argument text inside the outermost parentheses.
    pub args: String,
}

/// The entities of a STEP file, by id.
pub struct StepFile {
    pub entities: HashMap<u64, RawEntity>,
}

/// An entity as plain values: its id, its type name and its argument text.
pub type EntityView = (u64, Seq<char>, Seq<char>);

pub open spec fn entity_view(e: RawEntity) -> EntityView {
    (e.id, e.entity_type@, e.args@)
}

/// The entities of a map, as plain values.
pub open spec fn entities_view(m: Map<u64, RawEntity>) -> Map<u64, EntityView> {
    Map::new(|k: u64| m.contains_key(k), |k: u64| entity_view(m[k]))
}

/// The texts of a sequence of strings.
pub open spec fn texts(v: Seq<String>) -> Seq<Seq<char>> {
    v.map_values(|x: String| x@)
}

// ---------------------------------------------------------------------------
// Argument splitting
// ---------------------------------------------------------------------------

/// The arguments still to be produced when splitting `s` from position `i`,
/// with the arguments `done` already produced, the open argument `cur`,
/// the parenthesis depth `depth` and whether a quoted string is open.
pub open spec fn split_from(
    s: Seq<char>,
    i: int,
    done: Seq<Seq<char>>,
    cur: Seq<char>,
    depth: int,
    in_str: bool,
) -> Seq<Seq<char>>
    decreases s.len() - i,
{
    if i < 0 || i >= s.len() {
        if trim(cur).len() > 0 {
            done.push(trim(cur))
        } else {
            done
        }
    } else {
        let c = s[i];
        if c == '\'' && !in_str {
            split_from(s, i + 1, done, cur.push(c), depth, true)
        } else if c == '\'' && in_str {
            if i + 1 < s.len() && s[i + 1] == '\'' {
                // An escaped quote `''` stands for one quote character.
                split_from(s, i + 2, done, cur.push('\''), depth, true)
            } else {
                split_from(s, i + 1, done, cur.push(c), depth, false)
            }
        } else if c == '(' && !in_str {
            split_from(s, i + 1, done, cur.push(c), depth + 1, in_str)
        } else if c == ')' && !in_str {
            split_from(s, i + 1, done, cur.push(c), depth - 1, in_str)
        } else if c == ',' && !in_str && depth == 0 {
            split_from(s, i + 1, done.push(trim(cur)), Seq::empty(), depth, in_str)
        } else {
            split_from(s, i + 1, done, cur.push(c), depth, in_str)
        }
    }
}

/// The top-level comma-separated arguments of `s`, each trimmed; commas
/// inside parentheses or quoted strings do not separate arguments, and an
/// empty last argument is dropped.
pub open spec fn split_args_spec(s: Seq<char>) -> Seq<Seq<char>> {
    split_from(s, 0, Seq::empty(), Seq::empty(), 0, false)
}

/// Split top-level comma-separated arguments (respecting nested parens and strings).
pub fn split_args(s: &str) -> (r: Vec<String>)
    ensures
        texts(r@) == split_args_spec(s@),
{
    let chars = chars_of(s);
    split_args_chars(chars.as_slice())
}

/// [`split_args`] on characters.
pub fn split_args_chars(chars: &[char]) -> (r: Vec<String>)
    ensures
        texts(r@) == split_args_spec(chars@),
{
    let ghost sq = chars@;
    let mut result: Vec<String> = Vec::new();
    let mut cur: Vec<char> = Vec::new();
    let mut opens: usize = 0;
    let mut closes: usize = 0;
    let mut in_string = false;
    let mut i: usize = 0;
    assert(texts(result@) =~= Seq::<Seq<char>>::empty());
    while i < chars.len()
        invariant
            chars@ == sq,
            i <= sq.len(),
            opens <= i,
            closes <= i,
            split_args_spec(sq) == split_from(
                sq,
                i as int,
                texts(result@),
                cur@,
                opens - closes,
                in_string,
            ),
        decreases sq.len() - i,
    {
        let c = chars[i];
        if c == '\'' && !in_string {
            in_string = true;
            cur.push(c);
            i = i + 1;
        } else if c == '\'' && in_string {
            if i + 1 < chars.len() && chars[i + 1] == '\'' {
                cur.push('\'');
                i = i + 2;
            } else {
                in_string = false;
                cur.push(c);
                i = i + 1;
            }
        } else if c == '(' && !in_string {
            opens = opens + 1;
            cur.push(c);
            i = i + 1;
        } else if c == ')' && !in_string {
            closes = closes + 1;
            cur.push(c);
            i = i + 1;
        } else if c == ',' && !in_string && opens == closes {
            let piece = string_of(trim_chars(cur.as_slice()));
            let ghost before = result@;
            result.push(piece);
            assert(texts(result@) =~= texts(before).push(trim(cur@)));
            cur = Vec::new();
            i = i + 1;
        } else {
            cur.push(c);
            i = i + 1;
        }
    }
    let last = trim_chars(cur.as_slice());
    if last.len() > 0 {
        let piece = string_of(last);
        let ghost before = result@;
        result.push(piece);
        assert(texts(result@) =~= texts(before).push(trim(cur@)));
    }
    result
}

// ---------------------------------------------------------------------------
// Entity records
// ---------------------------------------------------------------------------

/// Why an entity could not be resolved.
#[derive(Debug, PartialEq, Eq)]
pub enum ResolveError {
    /// No entity has this id.
    MissingEntity(u64),
    /// The VERTEX_POINT with this id has fewer than two arguments.
    VertexArguments(u64),
    /// The entity with this id, of the given type, is not a CARTESIAN_POINT.
    NotCartesianPoint(u64, String),
    /// A CARTESIAN_POINT has no coordinate argument.
    PointCoordinates,
    /// The entity with this id is not a DIRECTION.
    NotDirection(u64),
    /// A DIRECTION has no coordinate argument.
    DirectionCoordinates,
    /// The entity with this id is neither a VECTOR nor a DIRECTION.
    NotVectorOrDirection(u64),
    /// The entity is not a face bound.
    NotFaceBound,
    /// The entity is not an EDGE_LOOP.
    NotEdgeLoop,
    /// The entity is not an ORIENTED_EDGE.
    NotOrientedEdge,
    /// An argument, with the given trimmed text, is not a `#id` reference.
    BadReference(String),
}

/// A [`ResolveError`] as plain values.
pub enum ResolveErrorView {
    MissingEntity(u64),
    VertexArguments(u64),
    NotCartesianPoint(u64, Seq<char>),
    PointCoordinates,
    NotDirection(u64),
    DirectionCoordinates,
    NotVectorOrDirection(u64),
    NotFaceBound,
    NotEdgeLoop,
    NotOrientedEdge,
    BadReference(Seq<char>),
}

impl View for ResolveError {
    type V = ResolveErrorView;

    open spec fn view(&self) -> ResolveErrorView {
        match self {
            ResolveError::MissingEntity(id) => ResolveErrorView::MissingEntity(*id),
            ResolveError::VertexArguments(id) => ResolveErrorView::VertexArguments(*id),
            ResolveError::NotCartesianPoint(id, t) => ResolveErrorView::NotCartesianPoint(*id, t@),
            ResolveError::PointCoordinates => ResolveErrorView::PointCoordinates,
            ResolveError::NotDirection(id) => ResolveErrorView::NotDirection(*id),
            ResolveError::DirectionCoordinates => ResolveErrorView::DirectionCoordinates,
            ResolveError::NotVectorOrDirection(id) => ResolveErrorView::NotVectorOrDirection(*id),
            ResolveError::NotFaceBound => ResolveErrorView::NotFaceBound,
            ResolveError::NotEdgeLoop => ResolveErrorView::NotEdgeLoop,
            ResolveError::NotOrientedEdge => ResolveErrorView::NotOrientedEdge,
            ResolveError::BadReference(t) => ResolveErrorView::BadReference(t@),
        }
    }
}

/// A result whose error is a [`ResolveError`], as plain values.
pub open spec fn result_view<T>(r: Result<T, ResolveError>) -> Result<T, ResolveErrorView> {
    match r {
        Ok(v) => Ok(v),
        Err(e) => Err(e@),
    }
}

/// The text of the error that `str::parse::<u64>` reports on the digits
/// `d[i..]`, after the value `acc` of the digits before them: the first
/// character that is not a digit, or the first digit that takes the value
/// past `u64::MAX`, decides it.
pub open spec fn int_error_scan(d: Seq<char>, i: int, acc: nat) -> Seq<char>
    decreases d.len() - i,
{
    if i < 0 || i >= d.len() {
        "invalid digit found in string"@
    } else if !is_digit(d[i]) {
        "invalid digit found in string"@
    } else if acc * 10 + digit_value(d[i]) > u64::MAX {
        "number too large to fit in target type"@
    } else {
        int_error_scan(d, i + 1, acc * 10 + digit_value(d[i]))
    }
}

/// The text of the error that `str::parse::<u64>` reports on `d`, for a `d`
/// that it does not accept.
pub open spec fn int_error_text(d: Seq<char>) -> Seq<char> {
    if d.len() == 0 {
        "cannot parse integer from empty string"@
    } else if d == seq!['+'] || d == seq!['-'] {
        "invalid digit found in string"@
    } else if d[0] == '+' {
        int_error_scan(d, 1, 0)
    } else {
        int_error_scan(d, 0, 0)
    }
}

/// The message of an error.
pub open spec fn error_message(e: ResolveErrorView) -> Seq<char> {
    match e {
        ResolveErrorView::MissingEntity(id) => "missing entity #"@ + decimal(id as nat),
        ResolveErrorView::VertexArguments(id) => "VERTEX_POINT #"@ + decimal(id as nat)
            + " needs 2 args"@,
        ResolveErrorView::NotCartesianPoint(id, t) => "expected CARTESIAN_POINT at #"@ + decimal(
            id as nat,
        ) + ", got "@ + t,
        ResolveErrorView::PointCoordinates => "CARTESIAN_POINT needs coords"@,
        ResolveErrorView::NotDirection(id) => "expected DIRECTION at #"@ + decimal(id as nat),
        ResolveErrorView::DirectionCoordinates => "DIRECTION needs coords"@,
        ResolveErrorView::NotVectorOrDirection(id) => "expected VECTOR/DIRECTION at #"@ + decimal(
            id as nat,
        ),
        ResolveErrorView::NotFaceBound => "not a face bound"@,
        ResolveErrorView::NotEdgeLoop => "not an EDGE_LOOP"@,
        ResolveErrorView::NotOrientedEdge => "not ORIENTED_EDGE"@,
        ResolveErrorView::BadReference(t) => if t.len() > 0 && t[0] == '#' {
            "bad ref "@ + debug_text(t) + ": "@ + int_error_text(t.drop_first())
        } else {
            "expected #ref, got "@ + debug_text(t)
        },
    }
}

fn int_error_message(d: &[char]) -> (r: Vec<char>)
    ensures
        r@ == int_error_text(d@),
{
    if d.len() == 0 {
        return chars_of("cannot parse integer from empty string");
    }
    if d.len() == 1 && (d[0] == '+' || d[0] == '-') {
        proof {
            if d[0] == '+' {
                assert(d@ =~= seq!['+']);
            } else {
                assert(d@ =~= seq!['-']);
            }
        }
        return chars_of("invalid digit found in string");
    }
    assert(d@ != seq!['+'] && d@ != seq!['-']) by {
        if d@ == seq!['+'] || d@ == seq!['-'] {
            assert(d@.len() == 1);
        }
    }
    let mut i: usize = if d[0] == '+' {
        1
    } else {
        0
    };
    let mut acc: u64 = 0;
    while i < d.len()
        invariant
            i <= d@.len(),
            int_error_text(d@) == int_error_scan(d@, i as int, acc as nat),
        decreases d@.len() - i,
    {
        let c = d[i];
        let u = c as u32;
        if !(0x30 <= u && u <= 0x39) {
            return chars_of("invalid digit found in string");
        }
        let x: u64 = (u - 0x30) as u64;
        assert(x == digit_value(c));
        match acc.checked_mul(10) {
            None => {
                return chars_of("number too large to fit in target type");
            },
            Some(m) => match m.checked_add(x) {
                None => {
                    return chars_of("number too large to fit in target type");
                },
                Some(a) => {
                    acc = a;
                },
            },
        }
        i = i + 1;
    }
    chars_of("invalid digit found in string")
}

impl ResolveError {
    /// The message of the error.
    pub fn message(&self) -> (r: String)
        ensures
            r@ == error_message(self@),
    {
        let mut m: Vec<char> = match self {
            ResolveError::MissingEntity(id) => {
                let mut m = chars_of("missing entity #");
                let mut d = u64_to_decimal(*id);
                m.append(&mut d);
                m
            },
            ResolveError::VertexArguments(id) => {
                let mut m = chars_of("VERTEX_POINT #");
                let mut d = u64_to_decimal(*id);
                m.append(&mut d);
                let mut tail = chars_of(" needs 2 args");
                m.append(&mut tail);
                m
            },
            ResolveError::NotCartesianPoint(id, t) => {
                let mut m = chars_of("expected CARTESIAN_POINT at #");
                let mut d = u64_to_decimal(*id);
                m.append(&mut d);
                let mut got = chars_of(", got ");
                m.append(&mut got);
                let mut tc = chars_of(t.as_str());
                m.append(&mut tc);
                m
            },
            ResolveError::PointCoordinates => chars_of("CARTESIAN_POINT needs coords"),
            ResolveError::NotDirection(id) => {
                let mut m = chars_of("expected DIRECTION at #");
                let mut d = u64_to_decimal(*id);
                m.append(&mut d);
                m
            },
            ResolveError::DirectionCoordinates => chars_of("DIRECTION needs coords"),
            ResolveError::NotVectorOrDirection(id) => {
                let mut m = chars_of("expected VECTOR/DIRECTION at #");
                let mut d = u64_to_decimal(*id);
                m.append(&mut d);
                m
            },
            ResolveError::NotFaceBound => chars_of("not a face bound"),
            ResolveError::NotEdgeLoop => chars_of("not an EDGE_LOOP"),
            ResolveError::NotOrientedEdge => chars_of("not ORIENTED_EDGE"),
            ResolveError::BadReference(t) => {
                let tc = chars_of(t.as_str());
                let mut q = debug_quoted(tc.as_slice());
                if tc.len() > 0 && tc[0] == '#' {
                    let mut m = chars_of("bad ref ");
                    m.append(&mut q);
                    let mut sep = chars_of(": ");
                    m.append(&mut sep);
                    let rest = &tc.as_slice()[1..tc.len()];
                    assert(rest@ =~= tc@.drop_first());
                    let mut e = int_error_message(rest);
                    m.append(&mut e);
                    m
                } else {
                    let mut m = chars_of("expected #ref, got ");
                    m.append(&mut q);
                    m
                }
            },
        };
        string_of(m.as_slice())
    }
}

/// The position of the parenthesis that closes the group opened before
/// `s`, scanning from `i` at nesting `depth` (quotes are not considered).
pub open spec fn close_from(s: Seq<char>, i: int, depth: int) -> Option<int>
    decreases s.len() - i,
{
    if i < 0 || i >= s.len() {
        None
    } else if s[i] == '(' {
        close_from(s, i + 1, depth + 1)
    } else if s[i] == ')' {
        if depth - 1 == 0 {
            Some(i)
        } else {
            close_from(s, i + 1, depth - 1)
        }
    } else {
        close_from(s, i + 1, depth)
    }
}

/// The text before the parenthesis that closes an already open group,
/// or nothing when the group is never closed.
pub open spec fn balanced_args_spec(s: Seq<char>) -> Seq<char> {
    match close_from(s, 0, 1) {
        Some(e) => s.take(e),
        None => Seq::empty(),
    }
}

fn balanced_args_chars(s: &[char]) -> (r: &[char])
    ensures
        r@ == balanced_args_spec(s@),
{
    let mut opens: usize = 0;
    let mut closes: usize = 0;
    let mut i: usize = 0;
    while i < s.len()
        invariant
            i <= s@.len(),
            opens <= i,
            closes <= i,
            close_from(s@, 0, 1) == close_from(s@, i as int, 1 + opens - closes),
        decreases s@.len() - i,
    {
        let c = s[i];
        if c == '(' {
            opens = opens + 1;
        } else if c == ')' {
            if closes == opens {
                let r = &s[0..i];
                assert(r@ =~= s@.take(i as int));
                return r;
            }
            closes = closes + 1;
        }
        i = i + 1;
    }
    let r = &s[0..0];
    assert(r@ =~= Seq::<char>::empty());
    r
}

/// Extract the contents of the outermost parentheses, handling nesting:
/// `s` follows an opening parenthesis, and the result is the text up to
/// the parenthesis that closes it (empty when none does).
pub fn extract_balanced_args(s: &str) -> (r: String)
    ensures
        r@ == balanced_args_spec(s@),
{
    let chars = chars_of(s);
    string_of(balanced_args_chars(chars.as_slice()))
}

/// A text that is a single quote character.
pub open spec fn lone_quote(t: Seq<char>) -> bool {
    t.len() == 1 && t[0] == '\''
}

/// A STEP string literal `'contents'` without its quotes; other text trimmed.
pub open spec fn parse_string_spec(s: Seq<char>) -> Seq<char> {
    let t = trim(s);
    if t.len() > 0 && t[0] == '\'' && t.last() == '\'' {
        t.subrange(1, t.len() - 1)
    } else {
        t
    }
}

/// Whether the trimmed text is one quote character, on which
/// [`parse_string`] cannot take the quotes off.
pub fn is_lone_quote(s: &str) -> (b: bool)
    ensures
        b == lone_quote(trim(s@)),
{
    let chars = chars_of(s);
    let t = trim_chars(chars.as_slice());
    t.len() == 1 && t[0] == '\''
}

/// Parse a STEP string literal: `'contents'` → `contents`.
pub fn parse_string(s: &str) -> (r: String)
    requires
        !lone_quote(trim(s@)),
    ensures
        r@ == parse_string_spec(s@),
{
    let chars = chars_of(s);
    let t = trim_chars(chars.as_slice());
    if t.len() > 0 && t[0] == '\'' && t[t.len() - 1] == '\'' {
        string_of(&t[1..t.len() - 1])
    } else {
        string_of(t)
    }
}

/// The name held by the argument at `index`, or the empty text when there
/// is no such argument.
pub open spec fn arg_name_spec(args: Seq<Seq<char>>, index: int) -> Seq<char> {
    if 0 <= index < args.len() {
        parse_string_spec(args[index])
    } else {
        Seq::empty()
    }
}

/// Name argument at `index`, or empty string if missing (avoids panics on short entity args).
pub fn arg_name(args: &[String], index: usize) -> (r: String)
    requires
        index < args@.len() ==> !lone_quote(trim(args@[index as int]@)),
    ensures
        r@ == arg_name_spec(texts(args@), index as int),
{
    if index < args.len() {
        parse_string(args[index].as_str())
    } else {
        String::new()
    }
}

/// A `#id` reference: the trimmed text is `#` followed by a `u64`.
pub open spec fn parse_ref_spec(s: Seq<char>) -> Option<u64> {
    let t = trim(s);
    if t.len() > 0 && t[0] == '#' {
        parse_u64_spec(t.drop_first())
    } else {
        None
    }
}

pub fn parse_ref_chars(s: &[char]) -> (r: Option<u64>)
    ensures
        r == parse_ref_spec(s@),
{
    let t = trim_chars(s);
    if t.len() > 0 && t[0] == '#' {
        let rest = &t[1..t.len()];
        assert(rest@ =~= t@.drop_first());
        parse_u64_chars(rest)
    } else {
        None
    }
}

/// The reference in `s`, or the error naming its trimmed text.
pub open spec fn reference_result(s: Seq<char>) -> Result<u64, ResolveErrorView> {
    match parse_ref_spec(s) {
        Some(id) => Ok(id),
        None => Err(ResolveErrorView::BadReference(trim(s))),
    }
}

/// [`parse_ref`] on characters.
pub fn reference_in(s: &[char]) -> (r: Result<u64, ResolveError>)
    ensures
        result_view(r) == reference_result(s@),
{
    match parse_ref_chars(s) {
        Some(id) => Ok(id),
        None => Err(ResolveError::BadReference(string_of(trim_chars(s)))),
    }
}

/// Parse a `#id` reference.
pub fn parse_ref(s: &str) -> (r: Result<u64, ResolveError>)
    ensures
        result_view(r) == reference_result(s@),
{
    let chars = chars_of(s);
    reference_in(chars.as_slice())
}

/// The entity recorded on a line `#id = TYPE(args);`: the id, the type name
/// in upper case, and the text inside the outermost parentheses.
pub open spec fn entity_line_spec(line: Seq<char>) -> Option<EntityView> {
    let l = trim(strip_end(line, CharClass::Exactly(';')));
    match find_char(l, '#') {
        None => None,
        Some(h) => {
            let rest = l.skip(h + 1);
            match find_char(rest, '=') {
                None => None,
                Some(q) => match parse_u64_spec(trim(rest.take(q))) {
                    None => None,
                    Some(id) => {
                        let after = trim(rest.skip(q + 1));
                        match find_char(after, '(') {
                            None => None,
                            Some(p) => Some(
                                (
                                    id,
                                    uppercase_of(trim(after.take(p))),
                                    balanced_args_spec(after.skip(p + 1)),
                                ),
                            ),
                        }
                    },
                },
            }
        },
    }
}

fn parse_entity_chars(line: &[char]) -> (r: Option<RawEntity>)
    ensures
        r matches Some(e) ==> entity_line_spec(line@) == Some(entity_view(e)),
        r is None ==> entity_line_spec(line@) is None,
{
    let l = trim_chars(trim_end_matches_chars(line, ';'));
    let h = match find_char_index(l, '#') {
        Some(h) => h,
        None => return None,
    };
    let l_len = l.len();
    let rest = &l[h + 1..l_len];
    assert(rest@ =~= l@.skip(h + 1));
    let q = match find_char_index(rest, '=') {
        Some(q) => q,
        None => return None,
    };
    let id_text = &rest[0..q];
    assert(id_text@ =~= rest@.take(q as int));
    let id = match parse_u64_chars(trim_chars(id_text)) {
        Some(id) => id,
        None => return None,
    };
    let after_eq = &rest[q + 1..rest.len()];
    assert(after_eq@ =~= rest@.skip(q + 1));
    let after = trim_chars(after_eq);
    let p = match find_char_index(after, '(') {
        Some(p) => p,
        None => return None,
    };
    let name_part = &after[0..p];
    assert(name_part@ =~= after@.take(p as int));
    let upper = to_uppercase_chars(trim_chars(name_part));
    let after_len = after.len();
    let args_part = &after[p + 1..after_len];
    assert(args_part@ =~= after@.skip(p + 1));
    let args = balanced_args_chars(args_part);
    Some(RawEntity { id, entity_type: string_of(upper.as_slice()), args: string_of(args) })
}

/// Parse a single entity line like `#12 = CARTESIAN_POINT('',( 0.0,0.0,0.0));`
pub fn parse_entity_line(line: &str) -> (r: Option<RawEntity>)
    ensures
        r matches Some(e) ==> entity_line_spec(line@) == Some(entity_view(e)),
        r is None ==> entity_line_spec(line@) is None,
{
    let chars = chars_of(line);
    parse_entity_chars(chars.as_slice())
}

/// The line that opens the DATA section.
pub open spec fn data_marker() -> Seq<char> {
    seq!['D', 'A', 'T', 'A', ';']
}

/// The line that closes a section.
pub open spec fn endsec_marker() -> Seq<char> {
    seq!['E', 'N', 'D', 'S', 'E', 'C', ';']
}

/// The entities gathered after reading the lines `ls`, and whether the
/// reader is inside a DATA section after them.
pub open spec fn raw_fold(ls: Seq<Seq<char>>) -> (Map<u64, EntityView>, bool)
    decreases ls.len(),
{
    if ls.len() == 0 {
        (Map::empty(), false)
    } else {
        let (m, in_data) = raw_fold(ls.drop_last());
        let t = trim(ls.last());
        if t == data_marker() {
            (m, true)
        } else if t == endsec_marker() {
            (m, false)
        } else if !in_data || !(t.len() > 0 && t[0] == '#') {
            (m, in_data)
        } else {
            match entity_line_spec(t) {
                Some(e) => (m.insert(e.0, e), in_data),
                None => (m, in_data),
            }
        }
    }
}

/// The entities of a STEP text: every entity line inside a DATA section,
/// a later line with the same id replacing an earlier one.
pub open spec fn parse_raw_spec(text: Seq<char>) -> Map<u64, EntityView> {
    raw_fold(lines(text)).0
}

/// Parse the DATA section of a STEP file into raw entities.
pub fn parse_raw(text: &str) -> (r: StepFile)
    ensures
        entities_view(r.entities@) == parse_raw_spec(text@),
{
    let chars = chars_of(text);
    let ls = lines_of(chars.as_slice());
    let ghost lsv = lines(text@);
    let data = vec!['D', 'A', 'T', 'A', ';'];
    let endsec = vec!['E', 'N', 'D', 'S', 'E', 'C', ';'];
    assert(data@ =~= data_marker());
    assert(endsec@ =~= endsec_marker());
    let mut entities: HashMap<u64, RawEntity> = HashMap::new();
    let mut in_data = false;
    let mut i: usize = 0;
    assert(lsv.take(0) =~= Seq::<Seq<char>>::empty());
    assert(entities_view(entities@) =~= Map::<u64, EntityView>::empty());
    while i < ls.len()
        invariant
            ls@.len() == lsv.len(),
            forall|k: int| 0 <= k < ls@.len() ==> #[trigger] ls@[k]@ == lsv[k],
            lsv == lines(text@),
            data@ == data_marker(),
            endsec@ == endsec_marker(),
            i <= ls@.len(),
            raw_fold(lsv.take(i as int)) == (entities_view(entities@), in_data),
        decreases ls@.len() - i,
    {
        assert(lsv.take(i + 1).drop_last() =~= lsv.take(i as int));
        assert(lsv.take(i + 1).last() == lsv[i as int]);
        let line = trim_chars(ls[i].as_slice());
        if chars_equal(line, data.as_slice()) {
            in_data = true;
        } else if chars_equal(line, endsec.as_slice()) {
            in_data = false;
        } else if !in_data || !(line.len() > 0 && line[0] == '#') {
        } else {
            match parse_entity_chars(line) {
                Some(entity) => {
                    let ghost ev = entity_view(entity);
                    let ghost before = entities_view(entities@);
                    entities.insert(entity.id, entity);
                    assert(entities_view(entities@) =~= before.insert(ev.0, ev));
                },
                None => {},
            }
        }
        i = i + 1;
    }
    assert(lsv.take(ls@.len() as int) =~= lsv);
    StepFile { entities }
}

// ---------------------------------------------------------------------------
// Laws
// ---------------------------------------------------------------------------

proof fn lemma_trim_keeps(s: Seq<char>)
    requires
        s.len() > 0,
        !is_ws(s[0]),
        !is_ws(s.last()),
    ensures
        trim(s) == s,
{
    assert(strip_start(s, CharClass::Whitespace) == s);
    assert(strip_end(s, CharClass::Whitespace) == s);
}

/// A reference written as `#` followed by the decimal id reads back as that id.
pub proof fn reference_round_trip(id: u64)
    ensures
        parse_ref_spec(seq!['#'] + decimal(id as nat)) == Some(id),
{
    decimal_round_trip(id);
    lemma_decimal_digits(id as nat);
    let d = decimal(id as nat);
    let s = seq!['#'] + d;
    assert(crate::text::is_digit(d[0]));
    assert(crate::text::is_digit(d.last()));
    assert(s.last() == d.last());
    lemma_trim_keeps(s);
    assert(s.drop_first() =~= d);
}

/// A STEP string literal `'s'` reads back as its contents `s`.
pub proof fn string_literal_round_trip(s: Seq<char>)
    ensures
        !lone_quote(trim(seq!['\''] + s + seq!['\''])),
        parse_string_spec(seq!['\''] + s + seq!['\'']) == s,
{
    let t = seq!['\''] + s + seq!['\''];
    assert(t[0] == '\'');
    assert(t.last() == '\'');
    lemma_trim_keeps(t);
    assert(t.subrange(1, t.len() - 1) =~= s);
}

proof fn lemma_no_data_fold(ls: Seq<Seq<char>>)
    requires
        forall|k: int| 0 <= k < ls.len() ==> trim(#[trigger] ls[k]) != data_marker(),
    ensures
        raw_fold(ls) == (Map::<u64, EntityView>::empty(), false),
    decreases ls.len(),
{
    if ls.len() > 0 {
        assert forall|k: int| 0 <= k < ls.drop_last().len() implies trim(
            #[trigger] ls.drop_last()[k],
        ) != data_marker() by {
            assert(ls.drop_last()[k] == ls[k]);
        }
        lemma_no_data_fold(ls.drop_last());
        assert(trim(ls[ls.len() - 1]) != data_marker());
    }
}

/// Entities are read only inside a DATA section: a text without a
/// `DATA;` line has no entities.
pub proof fn entities_only_in_data_sections(text: Seq<char>)
    requires
        forall|k: int| 0 <= k < lines(text).len() ==> trim(#[trigger] lines(text)[k]) != data_marker(),
    ensures
        parse_raw_spec(text) == Map::<u64, EntityView>::empty(),
{
    lemma_no_data_fold(lines(text));
}

/// The pieces of `s` between commas, from position `i`, after the pieces
/// `done` and the open piece `cur` (`str::split(',')`).
pub open spec fn comma_split_from(s: Seq<char>, i: int, done: Seq<Seq<char>>, cur: Seq<char>) -> Seq<
    Seq<char>,
>
    decreases s.len() - i,
{
    if i < 0 || i >= s.len() {
        done.push(cur)
    } else if s[i] == ',' {
        comma_split_from(s, i + 1, done.push(cur), Seq::empty())
    } else {
        comma_split_from(s, i + 1, done, cur.push(s[i]))
    }
}

/// The pieces of `s` between commas, as `str::split(',')` gives them.
pub open spec fn comma_split(s: Seq<char>) -> Seq<Seq<char>> {
    comma_split_from(s, 0, Seq::empty(), Seq::empty())
}

/// Each piece trimmed.
pub open spec fn trimmed_pieces(p: Seq<Seq<char>>) -> Seq<Seq<char>> {
    p.map_values(|x: Seq<char>| trim(x))
}

/// The trimmed pieces, without the last one when it is blank.
pub open spec fn trimmed_without_blank_tail(p: Seq<Seq<char>>) -> Seq<Seq<char>> {
    if p.len() > 0 && trim(p.last()).len() == 0 {
        trimmed_pieces(p).drop_last()
    } else {
        trimmed_pieces(p)
    }
}

/// Text with no quote and no parenthesis: nothing in it nests.
pub open spec fn without_nesting(s: Seq<char>) -> bool {
    forall|k: int| 0 <= k < s.len() ==> #[trigger] s[k] != '\'' && s[k] != '(' && s[k] != ')'
}

proof fn lemma_split_without_nesting(s: Seq<char>, i: int, done: Seq<Seq<char>>, cur: Seq<char>)
    requires
        without_nesting(s),
        0 <= i <= s.len(),
    ensures
        split_from(s, i, trimmed_pieces(done), cur, 0, false) == trimmed_without_blank_tail(
            comma_split_from(s, i, done, cur),
        ),
    decreases s.len() - i,
{
    if i >= s.len() {
        let p = done.push(cur);
        assert(trimmed_pieces(p) =~= trimmed_pieces(done).push(trim(cur)));
        assert(trimmed_pieces(p).drop_last() =~= trimmed_pieces(done));
    } else {
        let c = s[i];
        assert(c != '\'' && c != '(' && c != ')');
        if c == ',' {
            assert(trimmed_pieces(done.push(cur)) =~= trimmed_pieces(done).push(trim(cur)));
            lemma_split_without_nesting(s, i + 1, done.push(cur), Seq::empty());
        } else {
            lemma_split_without_nesting(s, i + 1, done, cur.push(c));
        }
    }
}

/// On text in which nothing nests (no quote, no parenthesis), the arguments
/// are the comma-separated pieces, each trimmed, with a blank last piece
/// dropped.
pub proof fn split_args_without_nesting_is_comma_split(s: Seq<char>)
    requires
        without_nesting(s),
    ensures
        split_args_spec(s) == trimmed_without_blank_tail(comma_split(s)),
        trim(comma_split(s).last()).len() > 0 ==> split_args_spec(s) == trimmed_pieces(
            comma_split(s),
        ),
{
    assert(trimmed_pieces(Seq::<Seq<char>>::empty()) =~= Seq::<Seq<char>>::empty());
    lemma_split_without_nesting(s, 0, Seq::empty(), Seq::empty());
}

} // verus!
