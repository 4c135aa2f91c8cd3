//! Path patterns: their grammar, the expression generated for them, and
//! what they capture from a request path.
//!
//! A pattern is split at every `/` into segments. A segment that begins with
//! `:` captures one or more characters other than `/` under the name that
//! follows the colon. A last segment that is `*` alone captures the rest of
//! the path, further `/` included, under the name `*`. Every other segment
//! stands for itself. The generated expression is anchored at both ends and
//! is written for paths that end in `/`: a pattern that neither ends in `/`
//! nor in a wildcard gets one added.
//!
//! Three kinds of pattern are refused: one with a `*` segment before the
//! last segment, one with a segment that is `:` alone, and one in which
//! two captures carry the same name.

use crate::assoc::{lemma_stored_fresh, stored};
use crate::error::CompileError;
use crate::params::RouteParams;
use crate::regexp::{
    captures, compile_regex, escape, escaped, groups_of, is_match, message_of, regex_captures,
    regex_compiles, regex_is_match, regex_source, regex_text, views_of,
};
use regex::Regex;
use vstd::prelude::*;
use vstd::std_specs::iter::IteratorSpec;
use vstd::string::{StrSliceExecFns, StringExecFns};

verus! {

/// The segments of `path`: the pieces between its `/` characters, so one
/// more than there are `/` in it.
pub open spec fn split_segments(path: Seq<char>) -> Seq<Seq<char>>
    decreases path.len(),
{
    if path.len() == 0 {
        seq![Seq::empty()]
    } else {
        let before = split_segments(path.drop_last());
        if path.last() == '/' {
            before.push(Seq::empty())
        } else {
            before.drop_last().push(before.last().push(path.last()))
        }
    }
}

/// A segment that is `*` alone.
pub open spec fn is_wildcard(segment: Seq<char>) -> bool {
    segment.len() == 1 && segment[0] == '*'
}

/// A segment that begins with `:`.
pub open spec fn is_param(segment: Seq<char>) -> bool {
    segment.len() >= 1 && segment[0] == ':'
}

/// The name under which a segment captures, if it captures.
pub open spec fn capture_name(segment: Seq<char>) -> Option<Seq<char>> {
    if is_wildcard(segment) {
        Some(segment)
    } else if is_param(segment) {
        Some(segment.skip(1))
    } else {
        None
    }
}

/// The expression that stands for one segment.
pub open spec fn piece(segment: Seq<char>) -> Seq<char> {
    if is_wildcard(segment) {
        "(.*)"@
    } else if is_param(segment) {
        "([^/]+)"@
    } else {
        escaped(segment)
    }
}

/// The names of the capturing segments, in the order of the segments.
pub open spec fn capture_names(segments: Seq<Seq<char>>) -> Seq<Seq<char>>
    decreases segments.len(),
{
    if segments.len() == 0 {
        Seq::empty()
    } else {
        match capture_name(segments.last()) {
            Some(name) => capture_names(segments.drop_last()).push(name),
            None => capture_names(segments.drop_last()),
        }
    }
}

/// The expressions of the segments, with `/` between neighbours.
pub open spec fn joined_pieces(segments: Seq<Seq<char>>) -> Seq<char>
    decreases segments.len(),
{
    if segments.len() == 0 {
        Seq::empty()
    } else if segments.len() == 1 {
        piece(segments[0])
    } else {
        joined_pieces(segments.drop_last()) + "/"@ + piece(segments.last())
    }
}

/// A `*` segment stands before the last segment.
pub open spec fn has_inner_wildcard(segments: Seq<Seq<char>>) -> bool {
    exists|i: int| 0 <= i < segments.len() - 1 && is_wildcard(#[trigger] segments[i])
}

/// Some segment is `:` alone.
pub open spec fn has_unnamed_param(segments: Seq<Seq<char>>) -> bool {
    exists|i: int|
        0 <= i < segments.len() && (#[trigger] segments[i]).len() == 1 && segments[i][0] == ':'
}

/// Whether the generated expression needs a `/` added before its end: the
/// pattern neither ends in `/` nor in a wildcard.
pub open spec fn lacks_final_slash(segments: Seq<Seq<char>>) -> bool {
    segments.len() >= 1 && !is_wildcard(segments.last()) && !(segments.len() >= 2
        && segments.last().len() == 0)
}

/// What is wrong with a pattern's grammar, if anything. Of several faults
/// the first of this list is reported: a wildcard before the end, a
/// parameter without a name, a repeated name.
pub open spec fn pattern_defect(path: Seq<char>) -> Option<CompileError> {
    let segments = split_segments(path);
    if has_inner_wildcard(segments) {
        Some(CompileError::WildcardNotLast)
    } else if has_unnamed_param(segments) {
        Some(CompileError::EmptyParamName)
    } else if !capture_names(segments).no_duplicates() {
        Some(CompileError::DuplicateParam)
    } else {
        None
    }
}

/// The expression generated for a pattern.
pub open spec fn pattern_source(path: Seq<char>) -> Seq<char> {
    let segments = split_segments(path);
    if lacks_final_slash(segments) {
        "(?s)^"@ + joined_pieces(segments) + "/"@ + "$"@
    } else {
        "(?s)^"@ + joined_pieces(segments) + "$"@
    }
}

/// The names a pattern captures under, in the order of its capture groups.
pub open spec fn pattern_names(path: Seq<char>) -> Seq<Seq<char>> {
    capture_names(split_segments(path))
}

/// Whether a pattern compiles: its grammar is sound and the expression
/// engine accepts the expression generated for it.
pub open spec fn pattern_compiles(path: Seq<char>) -> bool {
    pattern_defect(path) is None && regex_compiles(pattern_source(path))
}

/// Whether `e` is the failure that compiling `path` reports: the fault of
/// its grammar, or, where the grammar is sound, the engine's refusal.
pub open spec fn reports_failure(path: Seq<char>, e: CompileError) -> bool {
    match pattern_defect(path) {
        Some(defect) => e == defect,
        None => e is Rejected,
    }
}

/// Whether a pattern matches a normalized request path.
pub open spec fn pattern_matches(path: Seq<char>, target: Seq<char>) -> bool {
    regex_is_match(pattern_source(path), target)
}

/// The parameters read off a captures result: the name at position `i`
/// goes with group `i + 1`, and a name whose group is missing or took no
/// part in the match is left out.
pub open spec fn params_of(names: Seq<Seq<char>>, groups: Option<Seq<Option<Seq<char>>>>) -> Seq<
    (Seq<char>, Seq<char>),
>
    decreases names.len(),
{
    if names.len() == 0 {
        Seq::empty()
    } else {
        let before = params_of(names.drop_last(), groups);
        let k = names.len() as int;
        if groups is Some && k < groups->0.len() && groups->0[k] is Some {
            stored(before, names.last(), groups->0[k]->0)
        } else {
            before
        }
    }
}

/// The parameters a pattern captures from a normalized request path.
pub open spec fn pattern_params(path: Seq<char>, target: Seq<char>) -> Seq<(Seq<char>, Seq<char>)> {
    params_of(pattern_names(path), regex_captures(pattern_source(path), target))
}

/// The segments put together again, with `/` between neighbours.
pub open spec fn rejoined(segments: Seq<Seq<char>>) -> Seq<char>
    decreases segments.len(),
{
    if segments.len() == 0 {
        Seq::empty()
    } else if segments.len() == 1 {
        segments[0]
    } else {
        rejoined(segments.drop_last()) + seq!['/'] + segments.last()
    }
}

/// Splitting loses nothing and cuts at every `/`: the segments of a path
/// contain no `/`, and with `/` between them they are the path again.
pub proof fn lemma_split_is_exact(path: Seq<char>)
    ensures
        rejoined(split_segments(path)) == path,
        forall|i: int, j: int|
            0 <= i < split_segments(path).len() && 0 <= j < split_segments(path)[i].len()
                ==> split_segments(path)[i][j] != '/',
    decreases path.len(),
{
    lemma_split_nonempty(path);
    if path.len() > 0 {
        let front = path.drop_last();
        let before = split_segments(front);
        let after = split_segments(path);
        lemma_split_is_exact(front);
        lemma_split_nonempty(front);
        if path.last() == '/' {
            assert(after.drop_last() =~= before);
            assert(rejoined(after) =~= path);
            assert forall|i: int, j: int|
                0 <= i < after.len() && 0 <= j < after[i].len() implies after[i][j] != '/' by {
                assert(after[i] == before[i]);
            }
        } else {
            let grown = before.last().push(path.last());
            assert(after.drop_last() =~= before.drop_last());
            assert(after.last() == grown);
            if before.len() == 1 {
                assert(rejoined(after) =~= path);
            } else {
                assert(rejoined(before.drop_last()) + seq!['/'] + grown =~= (rejoined(
                    before.drop_last(),
                ) + seq!['/'] + before.last()).push(path.last()));
                assert(rejoined(after) =~= path);
            }
            assert forall|i: int, j: int|
                0 <= i < after.len() && 0 <= j < after[i].len() implies after[i][j] != '/' by {
                if i < after.len() - 1 {
                    assert(after[i] == before[i]);
                } else if j < before.last().len() {
                    assert(after[i][j] == before[before.len() - 1][j]);
                }
            }
        }
    }
}

/// A split always yields at least one segment.
pub proof fn lemma_split_nonempty(path: Seq<char>)
    ensures
        split_segments(path).len() >= 1,
    decreases path.len(),
{
    if path.len() > 0 {
        lemma_split_nonempty(path.drop_last());
    }
}

/// Where a match fills every group, extraction returns one parameter for
/// each name of the pattern, in the order of declaration, with the text of
/// the name's group as its value.
pub proof fn lemma_params_in_declaration_order(
    names: Seq<Seq<char>>,
    groups: Seq<Option<Seq<char>>>,
)
    requires
        names.no_duplicates(),
        groups.len() == names.len() + 1,
        forall|i: int| 1 <= i < groups.len() ==> (#[trigger] groups[i]) is Some,
    ensures
        params_of(names, Some(groups)).len() == names.len(),
        forall|i: int|
            0 <= i < names.len() ==> #[trigger] params_of(names, Some(groups))[i] == (
                names[i],
                groups[i + 1]->0,
            ),
{
    lemma_params_prefix(names, groups, names.len() as int);
    assert(names.take(names.len() as int) =~= names);
}

/// For a pattern of sound grammar and a path on which the engine's match
/// has one group for each capture of the pattern, each of them filled,
/// extraction returns exactly the captured segments: one parameter for
/// each name, in the order of declaration, with the text of its group.
pub proof fn lemma_extraction(path: Seq<char>, target: Seq<char>)
    requires
        pattern_defect(path) is None,
        regex_captures(pattern_source(path), target) is Some,
        regex_captures(pattern_source(path), target)->0.len() == pattern_names(path).len() + 1,
        forall|i: int|
            1 <= i < regex_captures(pattern_source(path), target)->0.len() ==> (
            #[trigger] regex_captures(pattern_source(path), target)->0[i]) is Some,
    ensures
        pattern_params(path, target).len() == pattern_names(path).len(),
        forall|i: int|
            0 <= i < pattern_names(path).len() ==> #[trigger] pattern_params(path, target)[i] == (
                pattern_names(path)[i],
                regex_captures(pattern_source(path), target)->0[i + 1]->0,
            ),
{
    lemma_params_in_declaration_order(
        pattern_names(path),
        regex_captures(pattern_source(path), target)->0,
    );
}

proof fn lemma_params_prefix(names: Seq<Seq<char>>, groups: Seq<Option<Seq<char>>>, n: int)
    requires
        names.no_duplicates(),
        0 <= n <= names.len(),
        groups.len() == names.len() + 1,
        forall|i: int| 1 <= i < groups.len() ==> (#[trigger] groups[i]) is Some,
    ensures
        params_of(names.take(n), Some(groups)).len() == n,
        forall|i: int|
            0 <= i < n ==> #[trigger] params_of(names.take(n), Some(groups))[i] == (
                names[i],
                groups[i + 1]->0,
            ),
    decreases n,
{
    if n > 0 {
        let cur = names.take(n);
        let front = names.take(n - 1);
        assert(cur.drop_last() =~= front);
        assert(cur.last() == names[n - 1]);
        lemma_params_prefix(names, groups, n - 1);
        let before = params_of(front, Some(groups));
        assert(groups[n] is Some);
        assert forall|i: int| 0 <= i < before.len() implies (#[trigger] before[i]).0
            != cur.last() by {
            assert(before[i].0 == names[i]);
        }
        lemma_stored_fresh(before, cur.last(), groups[n]->0);
        assert(params_of(cur, Some(groups)) == before.push((cur.last(), groups[n]->0)));
    }
}

/// A compiled path pattern.
#[derive(Debug)]
pub struct PathPattern {
    path: String,
    regex: Regex,
    names: Vec<String>,
}

impl View for PathPattern {
    type V = Seq<char>;

    /// The text of the pattern.
    closed spec fn view(&self) -> Seq<char> {
        self.path@
    }
}

fn is_wildcard_segment(segment: &str) -> (b: bool)
    ensures
        b == is_wildcard(segment@),
{
    segment.unicode_len() == 1 && segment.get_char(0) == '*'
}

fn is_param_segment(segment: &str) -> (b: bool)
    ensures
        b == is_param(segment@),
{
    segment.unicode_len() >= 1 && segment.get_char(0) == ':'
}

/// Splits a pattern at every `/`.
fn split(path: &str) -> (segments: Vec<String>)
    ensures
        views_of(segments@) == split_segments(path@),
{
    let mut segments: Vec<String> = Vec::new();
    let mut current = String::new();
    let mut rest = path.chars();
    let ghost mut i: int = 0;
    assert(path@.take(0) =~= Seq::empty());
    assert(path@.skip(0) =~= path@);
    assert(views_of(segments@).push(current@) =~= seq![Seq::<char>::empty()]);
    loop
        invariant
            0 <= i <= path@.len(),
            rest.obeys_prophetic_iter_laws(),
            rest.remaining() == path@.skip(i),
            split_segments(path@.take(i)) == views_of(segments@).push(current@),
        ensures
            i == path@.len(),
            split_segments(path@.take(i)) == views_of(segments@).push(current@),
        decreases path@.len() - i,
    {
        let ghost done = views_of(segments@);
        let ghost partial = current@;
        match rest.next() {
            Some(c) => {
                assert(c == path@[i]);
                assert(path@.skip(i).drop_first() =~= path@.skip(i + 1));
                assert(path@.take(i + 1).drop_last() =~= path@.take(i));
                assert(path@.take(i + 1).last() == c);
                assert(done.push(partial).drop_last() =~= done);
                if c == '/' {
                    segments.push(current);
                    current = String::new();
                    assert(views_of(segments@) =~= done.push(partial));
                } else {
                    current.push(c);
                }
                proof {
                    i = i + 1;
                }
            },
            None => {
                break ;
            },
        }
    }
    assert(path@.take(i) =~= path@);
    let ghost done = views_of(segments@);
    segments.push(current);
    assert(views_of(segments@) =~= done.push(current@));
    segments
}

/// Whether a `*` segment stands before the last one.
fn find_inner_wildcard(segments: &Vec<String>) -> (found: bool)
    requires
        segments@.len() >= 1,
    ensures
        found == has_inner_wildcard(views_of(segments@)),
{
    let last = segments.len() - 1;
    let mut i: usize = 0;
    while i < last
        invariant
            i <= last,
            last == segments@.len() - 1,
            forall|k: int| 0 <= k < i ==> !is_wildcard(#[trigger] views_of(segments@)[k]),
        decreases last - i,
    {
        if is_wildcard_segment(segments[i].as_str()) {
            assert(is_wildcard(views_of(segments@)[i as int]));
            return true;
        }
        i += 1;
    }
    false
}

/// Whether some segment is `:` alone.
fn find_unnamed_param(segments: &Vec<String>) -> (found: bool)
    ensures
        found == has_unnamed_param(views_of(segments@)),
{
    let mut i: usize = 0;
    while i < segments.len()
        invariant
            i <= segments.len(),
            forall|k: int|
                0 <= k < i ==> !((#[trigger] views_of(segments@)[k]).len() == 1 && views_of(
                    segments@,
                )[k][0] == ':'),
        decreases segments.len() - i,
    {
        let segment = segments[i].as_str();
        if segment.unicode_len() == 1 && segment.get_char(0) == ':' {
            assert(views_of(segments@)[i as int].len() == 1);
            return true;
        }
        i += 1;
    }
    false
}

/// The names of the capturing segments, in order.
fn collect_names(segments: &Vec<String>) -> (names: Vec<String>)
    ensures
        views_of(names@) == capture_names(views_of(segments@)),
{
    let mut names: Vec<String> = Vec::new();
    let mut i: usize = 0;
    assert(views_of(segments@).take(0) =~= Seq::empty());
    assert(views_of(names@) =~= Seq::empty());
    while i < segments.len()
        invariant
            i <= segments.len(),
            views_of(names@) == capture_names(views_of(segments@).take(i as int)),
        decreases segments.len() - i,
    {
        let segment = segments[i].as_str();
        let ghost all = views_of(segments@);
        let ghost done = views_of(names@);
        assert(all.take(i + 1).drop_last() =~= all.take(i as int));
        assert(all.take(i + 1).last() == segment@);
        if is_wildcard_segment(segment) {
            names.push(String::from_str(segment));
            assert(views_of(names@) =~= done.push(segment@));
        } else if is_param_segment(segment) {
            let n = segment.unicode_len();
            names.push(String::from_str(segment.substring_char(1, n)));
            assert(segment@.subrange(1, n as int) =~= segment@.skip(1));
            assert(views_of(names@) =~= done.push(segment@.skip(1)));
        }
        i += 1;
    }
    assert(views_of(segments@).take(i as int) =~= views_of(segments@));
    names
}

/// Whether two of the names are equal.
fn has_repeated_name(names: &Vec<String>) -> (found: bool)
    ensures
        found == !views_of(names@).no_duplicates(),
{
    let mut j: usize = 0;
    while j < names.len()
        invariant
            j <= names.len(),
            forall|a: int, b: int|
                0 <= a < b < j ==> views_of(names@)[a] != views_of(names@)[b],
        decreases names.len() - j,
    {
        let mut i: usize = 0;
        while i < j
            invariant
                i <= j < names.len(),
                forall|a: int| 0 <= a < i ==> views_of(names@)[a] != views_of(names@)[j as int],
            decreases j - i,
        {
            if names[i] == names[j] {
                assert(views_of(names@)[i as int] == views_of(names@)[j as int]);
                return true;
            }
            i += 1;
        }
        j += 1;
    }
    assert forall|a: int, b: int|
        0 <= a < names@.len() && 0 <= b < names@.len() && a != b implies views_of(names@)[a]
        != views_of(names@)[b] by {
        if a < b {
        } else {
            assert(b < a);
        }
    }
    false
}

/// Writes the expression for the segments.
fn write_source(segments: &Vec<String>) -> (source: String)
    requires
        segments@.len() >= 1,
    ensures
        source@ == if lacks_final_slash(views_of(segments@)) {
            "(?s)^"@ + joined_pieces(views_of(segments@)) + "/"@ + "$"@
        } else {
            "(?s)^"@ + joined_pieces(views_of(segments@)) + "$"@
        },
{
    let ghost all = views_of(segments@);
    let mut source = String::from_str("(?s)^");
    let mut i: usize = 0;
    assert(all.take(0) =~= Seq::empty());
    assert(source@ =~= "(?s)^"@ + joined_pieces(all.take(0)));
    while i < segments.len()
        invariant
            i <= segments.len(),
            all == views_of(segments@),
            source@ == "(?s)^"@ + joined_pieces(all.take(i as int)),
        decreases segments.len() - i,
    {
        let segment = segments[i].as_str();
        let ghost before = joined_pieces(all.take(i as int));
        assert(all.take(i + 1).drop_last() =~= all.take(i as int));
        assert(all.take(i + 1).last() == segment@);
        assert(all.take(i + 1)[0] == all[0]);
        if i > 0 {
            source.append("/");
        }
        if is_wildcard_segment(segment) {
            source.append("(.*)");
        } else if is_param_segment(segment) {
            source.append("([^/]+)");
        } else {
            let literal = escape(segment);
            source.append(literal.as_str());
        }
        proof {
            if i > 0 {
                assert(source@ =~= "(?s)^"@ + (before + "/"@ + piece(segment@)));
            } else {
                assert(before =~= Seq::empty());
                assert(source@ =~= "(?s)^"@ + piece(segment@));
            }
        }
        i += 1;
    }
    assert(all.take(i as int) =~= all);
    let last = segments[segments.len() - 1].as_str();
    assert(last@ == all.last());
    if !is_wildcard_segment(last) && !(segments.len() >= 2 && last.unicode_len() == 0) {
        source.append("/");
    }
    source.append("$");
    source
}

impl PathPattern {
    /// What holds of every compiled pattern: its text compiles, its
    /// expression is the one generated for its text, and its names are
    /// those of its captures.
    #[verifier::type_invariant]
    pub closed spec fn wf(&self) -> bool {
        &&& pattern_compiles(self.path@)
        &&& regex_source(self.regex) == pattern_source(self.path@)
        &&& views_of(self.names@) == pattern_names(self.path@)
    }

    /// The text of a compiled pattern compiles.
    pub proof fn lemma_compiles(self)
        requires
            self.wf(),
        ensures
            pattern_compiles(self@),
    {
    }

    /// Compiles a pattern. This succeeds exactly where the grammar is sound
    /// and the engine accepts the generated expression; otherwise the
    /// grammar's fault is reported, or the engine's refusal.
    pub fn compile(path: &str) -> (r: Result<PathPattern, CompileError>)
        ensures
            r is Ok == pattern_compiles(path@),
            r matches Ok(pattern) ==> pattern@ == path@ && pattern.wf(),
            r matches Err(e) ==> reports_failure(path@, e),
    {
        let segments = split(path);
        proof {
            lemma_split_nonempty(path@);
        }
        if find_inner_wildcard(&segments) {
            return Err(CompileError::WildcardNotLast);
        }
        if find_unnamed_param(&segments) {
            return Err(CompileError::EmptyParamName);
        }
        let names = collect_names(&segments);
        if has_repeated_name(&names) {
            return Err(CompileError::DuplicateParam);
        }
        let source = write_source(&segments);
        match compile_regex(source.as_str()) {
            Ok(regex) => Ok(PathPattern { path: String::from_str(path), regex, names }),
            Err(e) => Err(CompileError::Rejected(message_of(&e))),
        }
    }

    /// The text of the pattern.
    pub fn path(&self) -> (path: &str)
        ensures
            path@ == self@,
            pattern_compiles(self@),
    {
        proof {
            use_type_invariant(self);
        }
        self.path.as_str()
    }

    /// The expression generated for the pattern.
    pub fn source(&self) -> (source: &str)
        ensures
            source@ == pattern_source(self@),
    {
        proof {
            use_type_invariant(self);
        }
        regex_text(&self.regex)
    }

    /// The names the pattern captures under, in the order of its groups.
    pub fn names(&self) -> (names: &Vec<String>)
        ensures
            views_of(names@) == pattern_names(self@),
    {
        proof {
            use_type_invariant(self);
        }
        &self.names
    }

    /// Whether the pattern matches the normalized request path `target`.
    pub fn matches(&self, target: &str) -> (b: bool)
        ensures
            b == pattern_matches(self@, target@),
    {
        proof {
            use_type_invariant(self);
        }
        is_match(&self.regex, target)
    }

    /// The parameters the pattern captures from the normalized request
    /// path `target`; none where the pattern does not match.
    pub fn extract(&self, target: &str) -> (params: RouteParams)
        ensures
            params@ == pattern_params(self@, target@),
    {
        proof {
            use_type_invariant(self);
        }
        if self.names.len() == 0 {
            assert(views_of(self.names@) =~= Seq::empty());
            return RouteParams::with_capacity(0);
        }
        let found = captures(&self.regex, target);
        read_params(&self.names, &found)
    }
}

/// Reads the parameters off the groups of a match: the name at position
/// `i` gets the text of group `i + 1`, and a name whose group is missing
/// or took no part in the match gets nothing. Without a match there are no
/// parameters.
pub fn read_params(names: &Vec<String>, groups: &Option<Vec<Option<String>>>) -> (params:
    RouteParams)
    ensures
        params@ == params_of(views_of(names@), groups_of(*groups)),
{
    let n = names.len();
    let mut params = RouteParams::with_capacity(n);
    let ghost all = views_of(names@);
    match groups {
        None => {
            proof {
                lemma_params_without_groups(all);
            }
        },
        Some(found) => {
            let mut i: usize = 0;
            assert(all.take(0) =~= Seq::empty());
            while i < n
                invariant
                    i <= n,
                    n == names@.len(),
                    all == views_of(names@),
                    params@ == params_of(all.take(i as int), groups_of(Some(*found))),
                decreases n - i,
            {
                assert(all.take(i + 1).drop_last() =~= all.take(i as int));
                assert(all.take(i + 1).last() == names@[i as int]@);
                if i + 1 < found.len() {
                    if let Some(text) = &found[i + 1] {
                        params.set(names[i].clone(), text.clone());
                    }
                }
                i += 1;
            }
            assert(all.take(n as int) =~= all);
        },
    }
    params
}

/// Without a captures result there are no parameters.
proof fn lemma_params_without_groups(names: Seq<Seq<char>>)
    ensures
        params_of(names, None) == Seq::<(Seq<char>, Seq<char>)>::empty(),
    decreases names.len(),
{
    if names.len() > 0 {
        lemma_params_without_groups(names.drop_last());
    }
}

} // verus!
