//! Ordered include and exclude patterns over normalized ZIP paths.
use vstd::prelude::*;
use vstd::string::*;

use crate::text::{cat2, starts_with_char, to_chars};

verus! {

/// ZIP entry selection patterns for unzip operations.
///
/// When no patterns are configured, unzip operations process every supported
/// ZIP entry. Patterns are matched against normalized ZIP paths, not local
/// filesystem paths or destination S3 keys.
#[derive(Debug, PartialEq, Eq)]
pub struct UnzipSelection {
    patterns: Vec<String>,
}

impl View for UnzipSelection {
    type V = Seq<Seq<char>>;

    closed spec fn view(&self) -> Seq<Seq<char>> {
        Seq::new(self.patterns@.len(), |i: int| self.patterns@[i]@)
    }
}

/// A pattern taken literally where it would otherwise start a marker.
pub open spec fn escaped_pattern(pattern: Seq<char>) -> Seq<char> {
    if pattern.len() > 0 && (pattern[0] == '!' || pattern[0] == '#') {
        "\\"@ + pattern
    } else {
        pattern
    }
}

fn escape_leading_gitignore_marker(pattern: &str) -> (escaped: String)
    ensures
        escaped@ == escaped_pattern(pattern@),
{
    if starts_with_char(pattern, '!') || starts_with_char(pattern, '#') {
        cat2("\\", pattern)
    } else {
        pattern.to_owned()
    }
}

impl UnzipSelection {
    /// Creates an empty selection that extracts every supported ZIP entry.
    pub fn new() -> (selection: UnzipSelection)
        ensures
            selection@ == Seq::<Seq<char>>::empty(),
    {
        let selection = UnzipSelection { patterns: Vec::new() };
        assert(selection@ =~= Seq::<Seq<char>>::empty());
        selection
    }

    /// Creates a selection from ordered include/exclude patterns.
    ///
    /// Patterns use gitignore-style matching. Later patterns override earlier
    /// patterns, and patterns prefixed with `!` exclude matching ZIP paths.
    /// If only exclude patterns are configured, every non-excluded ZIP path is
    /// selected.
    pub fn patterns(patterns: Vec<String>) -> (selection: UnzipSelection)
        ensures
            selection@ == Seq::new(patterns@.len(), |i: int| patterns@[i]@),
    {
        UnzipSelection { patterns }
    }

    /// Adds an include pattern.
    ///
    /// Leading `!` and `#` characters are treated as literal path characters.
    /// Use [`UnzipSelection::patterns`] for raw selection lines.
    pub fn including(self, pattern: &str) -> (selection: UnzipSelection)
        ensures
            selection@ == self@.push(escaped_pattern(pattern@)),
    {
        let mut patterns = self.patterns;
        patterns.push(escape_leading_gitignore_marker(pattern));
        let selection = UnzipSelection { patterns };
        assert(selection@ =~= self@.push(escaped_pattern(pattern@)));
        selection
    }

    /// Adds an exclude pattern.
    ///
    /// Leading `!` and `#` characters are treated as literal path characters.
    /// Use [`UnzipSelection::patterns`] for raw selection lines.
    pub fn exclude(self, pattern: &str) -> (selection: UnzipSelection)
        ensures
            selection@ == self@.push("!"@ + escaped_pattern(pattern@)),
    {
        let mut patterns = self.patterns;
        patterns.push(cat2("!", &escape_leading_gitignore_marker(pattern)));
        let selection = UnzipSelection { patterns };
        assert(selection@ =~= self@.push("!"@ + escaped_pattern(pattern@)));
        selection
    }

    /// Returns true when no selection patterns have been configured.
    pub fn is_empty(&self) -> (empty: bool)
        ensures
            empty == (self@.len() == 0),
    {
        self.patterns.len() == 0
    }

    /// Returns the ordered selection patterns.
    pub fn as_patterns(&self) -> (patterns: &[String])
        ensures
            patterns@.len() == self@.len(),
            forall|i: int| 0 <= i < patterns@.len() ==> patterns@[i]@ == #[trigger] self@[i],
    {
        self.patterns.as_slice()
    }
}

impl Default for UnzipSelection {
    fn default() -> (selection: UnzipSelection)
        ensures
            selection@ == Seq::<Seq<char>>::empty(),
    {
        UnzipSelection::new()
    }
}

impl From<Vec<String>> for UnzipSelection {
    fn from(patterns: Vec<String>) -> (selection: UnzipSelection) {
        UnzipSelection { patterns }
    }
}

impl vstd::std_specs::convert::FromSpecImpl<Vec<String>> for UnzipSelection {
    open spec fn obeys_from_spec() -> bool {
        true
    }

    closed spec fn from_spec(patterns: Vec<String>) -> UnzipSelection {
        UnzipSelection { patterns }
    }
}

impl Clone for UnzipSelection {
    fn clone(&self) -> (copy: UnzipSelection)
        ensures
            copy@ == self@,
    {
        let mut patterns: Vec<String> = Vec::new();
        let mut i: usize = 0;
        while i < self.patterns.len()
            invariant
                i <= self.patterns.len(),
                patterns.len() == i,
                forall|j: int| 0 <= j < i ==> patterns@[j]@ == #[trigger] self.patterns@[j]@,
            decreases self.patterns.len() - i,
        {
            patterns.push(self.patterns[i].clone());
            i += 1;
        }
        let copy = UnzipSelection { patterns };
        assert(copy@ =~= self@);
        copy
    }
}

/// Whether position `i` of a pattern starts a path component.
pub open spec fn at_component_start(p: Seq<char>, i: int) -> bool {
    i == 0 || p[i - 1] == '/'
}

/// Whether the pattern holds `**/` at `i`, standing for any number of directories.
pub open spec fn any_dirs_at(p: Seq<char>, i: int) -> bool {
    at_component_start(p, i) && i + 2 < p.len() && p[i] == '*' && p[i + 1] == '*' && p[i + 2]
        == '/'
}

/// Whether the pattern ends in `/**` at `i`, standing for everything inside a directory.
pub open spec fn all_inside_at(p: Seq<char>, i: int) -> bool {
    i + 3 == p.len() && p[i] == '/' && p[i + 1] == '*' && p[i + 2] == '*'
}

/// Where the members of a bracket expression that opens at `i` begin.
pub open spec fn class_start(p: Seq<char>, i: int) -> int {
    if i + 1 < p.len() && (p[i + 1] == '!' || p[i + 1] == '^') {
        i + 2
    } else {
        i + 1
    }
}

/// The first `]` at or after `k`, or the length of the pattern.
pub open spec fn next_bracket(p: Seq<char>, k: int) -> int
    decreases p.len() - k,
{
    if k >= p.len() {
        p.len() as int
    } else if p[k] == ']' {
        k
    } else {
        next_bracket(p, k + 1)
    }
}

/// Where the bracket expression that opens at `i` closes, or the length of
/// the pattern where it does not. The first member may be `]`.
pub open spec fn class_end(p: Seq<char>, i: int) -> int {
    next_bracket(p, class_start(p, i) + 1)
}

/// Whether `c` is one of the members `p[from..to]` of a bracket expression.
pub open spec fn in_class(p: Seq<char>, from: int, to: int, c: char) -> bool
    decreases to - from,
{
    if from >= to {
        false
    } else if from + 2 < to && p[from + 1] == '-' {
        (p[from] <= c <= p[from + 2]) || in_class(p, from + 3, to, c)
    } else {
        p[from] == c || in_class(p, from + 1, to, c)
    }
}

/// Whether the bracket expression that opens at `i` and is closed matches `c`.
pub open spec fn class_matches(p: Seq<char>, i: int, c: char) -> bool {
    c != '/' && in_class(p, class_start(p, i), class_end(p, i), c) == (class_start(p, i) == i
        + 1)
}

/// Whether the pattern from `i` on matches the path from `j` on.
///
/// `*` matches any run of characters within one component, `?` one character,
/// `[..]` one of several, `\` takes the next character literally, `**/` any
/// number of directories and a final `/**` everything below a directory.
pub open spec fn glob_at(p: Seq<char>, i: int, s: Seq<char>, j: int) -> bool
    decreases p.len() - i, s.len() - j, 1int,
{
    if i < 0 || j < 0 || j > s.len() {
        false
    } else if i >= p.len() {
        j == s.len()
    } else if any_dirs_at(p, i) {
        glob_at(p, i + 3, s, j) || glob_below(p, i + 3, s, j)
    } else if all_inside_at(p, i) {
        j + 1 < s.len() && s[j] == '/'
    } else if p[i] == '*' {
        glob_at(p, i + 1, s, j) || (j < s.len() && s[j] != '/' && glob_at(p, i, s, j + 1))
    } else if j >= s.len() {
        false
    } else if p[i] == '?' {
        s[j] != '/' && glob_at(p, i + 1, s, j + 1)
    } else if p[i] == '[' && class_end(p, i) < p.len() && class_end(p, i) > i {
        class_matches(p, i, s[j]) && glob_at(p, class_end(p, i) + 1, s, j + 1)
    } else if p[i] == '\\' && i + 1 < p.len() {
        s[j] == p[i + 1] && glob_at(p, i + 2, s, j + 1)
    } else {
        s[j] == p[i] && glob_at(p, i + 1, s, j + 1)
    }
}

/// Whether the pattern from `i` on matches the path below some directory at or
/// after `j`.
pub open spec fn glob_below(p: Seq<char>, i: int, s: Seq<char>, j: int) -> bool
    decreases p.len() - i, s.len() - j, 2int,
{
    0 <= i && 0 <= j < s.len() && ((s[j] == '/' && glob_at(p, i, s, j + 1)) || glob_below(
        p,
        i,
        s,
        j + 1,
    ))
}

/// Whether a pattern matches a whole path.
pub open spec fn glob_matches(p: Seq<char>, s: Seq<char>) -> bool {
    glob_at(p, 0, s, 0)
}

fn find_next_bracket(p: &Vec<char>, k: usize) -> (at: usize)
    requires
        k <= p.len(),
    ensures
        at == next_bracket(p@, k as int),
        at <= p.len(),
{
    let mut at: usize = k;
    while at < p.len() && p[at] != ']'
        invariant
            k <= at <= p.len(),
            next_bracket(p@, at as int) == next_bracket(p@, k as int),
        decreases p.len() - at,
    {
        at += 1;
    }
    at
}

fn class_contains(p: &Vec<char>, from: usize, to: usize, c: char) -> (found: bool)
    requires
        to <= p.len(),
    ensures
        found == in_class(p@, from as int, to as int, c),
{
    let mut at: usize = from;
    while at < to
        invariant
            to <= p.len(),
            in_class(p@, at as int, to as int, c) == in_class(p@, from as int, to as int, c),
        decreases to - at,
    {
        if to - at > 2 && p[at + 1] == '-' {
            if p[at] <= c && c <= p[at + 2] {
                return true;
            }
            at += 3;
        } else {
            if p[at] == c {
                return true;
            }
            at += 1;
        }
    }
    false
}

proof fn lemma_next_bracket(p: Seq<char>, k: int)
    ensures
        next_bracket(p, k) <= p.len(),
        k <= p.len() ==> next_bracket(p, k) >= k,
    decreases p.len() - k,
{
    if k < p.len() && p[k] != ']' {
        lemma_next_bracket(p, k + 1);
    }
}

/// Whether `row` says of every path position whether the pattern from `i` on
/// matches there.
spec fn is_row(row: Seq<bool>, p: Seq<char>, i: int, s: Seq<char>) -> bool {
    &&& row.len() == s.len() + 1
    &&& forall|j: int| 0 <= j <= s.len() ==> #[trigger] row[j] == glob_at(p, i, s, j)
}

/// The row of pattern position `i`, from the rows of the positions after it.
///
/// `rows[k]` is the row of position `p.len() - k`.
fn glob_row(p: &Vec<char>, i: usize, s: &Vec<char>, rows: &Vec<Vec<bool>>) -> (row: Vec<bool>)
    requires
        i < p.len(),
        rows.len() == p.len() - i,
        forall|k: int|
            0 <= k < rows.len() ==> is_row((#[trigger] rows@[k])@, p@, p.len() - k, s@),
    ensures
        is_row(row@, p@, i as int, s@),
{
    let n: usize = p.len();
    let m: usize = s.len();
    let start: bool = i == 0 || p[i - 1] == '/';
    let any_dirs: bool = start && n - i > 2 && p[i] == '*' && p[i + 1] == '*' && p[i + 2] == '/';
    let all_inside: bool = n - i == 3 && p[i] == '/' && p[i + 1] == '*' && p[i + 2] == '*';
    let members: usize = if n - i > 1 && (p[i + 1] == '!' || p[i + 1] == '^') {
        i + 2
    } else {
        i + 1
    };
    let close: usize = if members < n {
        find_next_bracket(p, members + 1)
    } else {
        n
    };
    proof {
        lemma_next_bracket(p@, class_start(p@, i as int) + 1);
    }
    let mut row: Vec<bool> = Vec::new();
    let mut fill: usize = 0;
    while fill < m
        invariant
            fill <= m == s.len(),
            row.len() == fill,
        decreases m - fill,
    {
        row.push(false);
        fill += 1;
    }
    row.push(false);
    let mut below: bool = false;
    let mut left: usize = m;
    loop
        invariant_except_break
            any_dirs ==> below == (left < m && glob_below(p@, i + 3, s@, left + 1)),
            forall|j: int| left < j <= m ==> #[trigger] row@[j] == glob_at(p@, i as int, s@, j),
        invariant
            i < n == p.len(),
            m == s.len(),
            left <= m,
            row.len() == m + 1,
            rows.len() == n - i,
            forall|k: int|
                0 <= k < rows.len() ==> is_row((#[trigger] rows@[k])@, p@, n - k, s@),
            any_dirs == any_dirs_at(p@, i as int),
            all_inside == all_inside_at(p@, i as int),
            members == class_start(p@, i as int),
            i < members,
            close == class_end(p@, i as int),
            close <= n,
            members < n ==> members < close,
            !any_dirs ==> !below,
        ensures
            forall|j: int| 0 <= j <= m ==> #[trigger] row@[j] == glob_at(p@, i as int, s@, j),
            row.len() == m + 1,
        decreases left,
    {
        let j: usize = left;
        let value: bool = if any_dirs {
            let after: &Vec<bool> = &rows[n - (i + 3)];
            assert(is_row(rows@[n - (i + 3)]@, p@, i + 3, s@));
            below = below || (j < m && s[j] == '/' && after[j + 1]);
            assert(j < m ==> after@[j + 1] == glob_at(p@, i + 3, s@, j + 1));
            assert(below == glob_below(p@, i + 3, s@, j as int));
            after[j] || below
        } else if all_inside {
            j < m && m - j > 1 && s[j] == '/'
        } else if p[i] == '*' {
            let next: &Vec<bool> = &rows[n - (i + 1)];
            assert(is_row(rows@[n - (i + 1)]@, p@, i + 1, s@));
            next[j] || (j < m && s[j] != '/' && row[j + 1])
        } else if j >= m {
            false
        } else if p[i] == '?' {
            let next: &Vec<bool> = &rows[n - (i + 1)];
            assert(is_row(rows@[n - (i + 1)]@, p@, i + 1, s@));
            s[j] != '/' && next[j + 1]
        } else if p[i] == '[' && close < n && close > i {
            let next: &Vec<bool> = &rows[n - (close + 1)];
            assert(is_row(rows@[n - (close + 1)]@, p@, close + 1, s@));
            s[j] != '/' && class_contains(p, members, close, s[j]) == (members == i + 1)
                && next[j + 1]
        } else if p[i] == '\\' && n - i > 1 {
            let next: &Vec<bool> = &rows[n - (i + 2)];
            assert(is_row(rows@[n - (i + 2)]@, p@, i + 2, s@));
            s[j] == p[i + 1] && next[j + 1]
        } else {
            let next: &Vec<bool> = &rows[n - (i + 1)];
            assert(is_row(rows@[n - (i + 1)]@, p@, i + 1, s@));
            s[j] == p[i] && next[j + 1]
        };
        assert(value == glob_at(p@, i as int, s@, j as int));
        row[j] = value;
        if left == 0 {
            break;
        }
        left -= 1;
    }
    row
}

fn glob(p: &Vec<char>, s: &Vec<char>) -> (matched: bool)
    ensures
        matched == glob_matches(p@, s@),
{
    let n: usize = p.len();
    let m: usize = s.len();
    let mut rows: Vec<Vec<bool>> = Vec::new();
    let mut last: Vec<bool> = Vec::new();
    let mut j: usize = 0;
    while j < m
        invariant
            j <= m == s.len(),
            last.len() == j,
            forall|k: int| 0 <= k < j ==> !(#[trigger] last@[k]),
        decreases m - j,
    {
        last.push(false);
        j += 1;
    }
    last.push(true);
    assert(is_row(last@, p@, n as int, s@));
    rows.push(last);
    let mut i: usize = n;
    while i > 0
        invariant
            n == p.len(),
            i <= n,
            rows.len() == n - i + 1,
            forall|k: int|
                0 <= k < rows.len() ==> is_row((#[trigger] rows@[k])@, p@, n - k, s@),
        decreases i,
    {
        i -= 1;
        let row = glob_row(p, i, s, &rows);
        rows.push(row);
    }
    assert(is_row(rows@[n as int]@, p@, 0, s@));
    rows[n][0]
}

/// What one selection line asks for.
pub struct RuleView {
    /// The line excludes what it matches.
    pub exclude: bool,
    /// The line matches directories only.
    pub dir_only: bool,
    /// The pattern, matched against a whole path.
    pub glob: Seq<char>,
}

/// A line without its trailing spaces; a backslash keeps the space it precedes.
pub open spec fn trim_spaces(line: Seq<char>) -> Seq<char>
    decreases line.len(),
{
    if line.len() > 0 && line.last() == ' ' && !(line.len() > 1 && line[line.len() - 2] == '\\') {
        trim_spaces(line.drop_last())
    } else {
        line
    }
}

/// The rule of a selection line. Blank lines and comments hold none.
///
/// A pattern with a slash before its end is matched from the root; any other
/// pattern is matched at every depth.
pub open spec fn line_rule(line: Seq<char>) -> Option<RuleView> {
    let text = trim_spaces(line);
    if text.len() == 0 || text[0] == '#' {
        None
    } else {
        let exclude = text[0] == '!';
        let body = if exclude {
            text.skip(1)
        } else {
            text
        };
        let dir_only = body.len() > 0 && body.last() == '/';
        let path = if dir_only {
            body.drop_last()
        } else {
            body
        };
        let relative = if path.len() > 0 && path[0] == '/' {
            path.skip(1)
        } else {
            path
        };
        if relative.len() == 0 {
            None
        } else if path.contains('/') {
            Some(RuleView { exclude, dir_only, glob: relative })
        } else {
            Some(RuleView { exclude, dir_only, glob: "**/"@ + relative })
        }
    }
}

pub open spec fn rule_matches(rule: RuleView, path: Seq<char>, is_dir: bool) -> bool {
    (is_dir || !rule.dir_only) && glob_matches(rule.glob, path)
}

/// What the last of the first `n` lines that matches says: whether it excludes.
pub open spec fn last_match(
    lines: Seq<Seq<char>>,
    n: int,
    path: Seq<char>,
    is_dir: bool,
) -> Option<bool>
    decreases n,
{
    if n <= 0 {
        None
    } else {
        match line_rule(lines[n - 1]) {
            Some(rule) => if rule_matches(rule, path, is_dir) {
                Some(rule.exclude)
            } else {
                last_match(lines, n - 1, path, is_dir)
            },
            None => last_match(lines, n - 1, path, is_dir),
        }
    }
}

/// The position of the last slash before `n`, or -1.
pub open spec fn last_slash(path: Seq<char>, n: int) -> int
    decreases n,
{
    if n <= 0 {
        -1
    } else if path[n - 1] == '/' {
        n - 1
    } else {
        last_slash(path, n - 1)
    }
}

/// What the lines say of a path: the path itself decides first, then the
/// directories that hold it, nearest first.
pub open spec fn selection_decision(lines: Seq<Seq<char>>, path: Seq<char>, is_dir: bool) -> Option<
    bool,
>
    decreases path.len(),
{
    match last_match(lines, lines.len() as int, path, is_dir) {
        Some(exclude) => Some(exclude),
        None => {
            let slash = last_slash(path, path.len() as int);
            if 0 <= slash < path.len() {
                selection_decision(lines, path.take(slash), true)
            } else {
                None
            }
        },
    }
}

pub open spec fn line_includes(line: Seq<char>) -> bool {
    line_rule(line) is Some && !line_rule(line)->Some_0.exclude
}

/// Whether some line includes paths.
pub open spec fn any_includes(lines: Seq<Seq<char>>) -> bool {
    exists|i: int| 0 <= i < lines.len() && #[trigger] line_includes(lines[i])
}

/// A normalized ZIP path without the slash that marks a directory.
pub open spec fn entry_body(zip_path: Seq<char>) -> Seq<char> {
    if zip_path.len() > 0 && zip_path.last() == '/' {
        zip_path.drop_last()
    } else {
        zip_path
    }
}

pub open spec fn is_directory_path(zip_path: Seq<char>) -> bool {
    zip_path.len() > 0 && zip_path.last() == '/'
}

/// Whether the lines select a normalized ZIP path.
pub open spec fn selection_selects(lines: Seq<Seq<char>>, zip_path: Seq<char>) -> bool {
    match selection_decision(lines, entry_body(zip_path), is_directory_path(zip_path)) {
        Some(exclude) => !exclude,
        None => !any_includes(lines),
    }
}

struct Rule {
    exclude: bool,
    dir_only: bool,
    glob: Vec<char>,
}

spec fn rule_view(rule: Option<Rule>) -> Option<RuleView> {
    match rule {
        Some(rule) => Some(
            RuleView { exclude: rule.exclude, dir_only: rule.dir_only, glob: rule.glob@ },
        ),
        None => None,
    }
}

fn compile_line(line: &str) -> (rule: Option<Rule>)
    ensures
        rule_view(rule) == line_rule(line@),
{
    let chars = to_chars(line);
    let mut end: usize = chars.len();
    assert(chars@.take(end as int) =~= line@);
    while end > 0 && chars[end - 1] == ' ' && !(end > 1 && chars[end - 2] == '\\')
        invariant
            end <= chars.len(),
            trim_spaces(chars@.take(end as int)) == trim_spaces(line@),
        decreases end,
    {
        assert(chars@.take(end as int).drop_last() =~= chars@.take(end - 1));
        end -= 1;
    }
    let ghost text = chars@.take(end as int);
    if end == 0 || chars[0] == '#' {
        return None;
    }
    let exclude: bool = chars[0] == '!';
    let mut from: usize = if exclude {
        1
    } else {
        0
    };
    let dir_only: bool = end > from && chars[end - 1] == '/';
    let ghost body = chars@.subrange(from as int, end as int);
    assert(body =~= if exclude {
        text.skip(1)
    } else {
        text
    });
    let to: usize = if dir_only {
        end - 1
    } else {
        end
    };
    let ghost path = chars@.subrange(from as int, to as int);
    assert(path =~= if dir_only {
        body.drop_last()
    } else {
        body
    });
    let mut anchored: bool = false;
    let mut k: usize = from;
    while k < to
        invariant
            from <= k <= to <= chars.len(),
            path == chars@.subrange(from as int, to as int),
            anchored == path.take(k - from).contains('/'),
        decreases to - k,
    {
        proof {
            let seen = path.take(k - from);
            assert(path.take(k + 1 - from) =~= seen.push(chars@[k as int]));
            assert(seen.push(chars@[k as int]).contains('/') == (seen.contains('/')
                || chars@[k as int] == '/')) by {
                if seen.contains('/') {
                    let w = choose|w: int| 0 <= w < seen.len() && seen[w] == '/';
                    assert(seen.push(chars@[k as int])[w] == '/');
                }
                if chars@[k as int] == '/' {
                    assert(seen.push(chars@[k as int])[seen.len() as int] == '/');
                }
                if seen.push(chars@[k as int]).contains('/') && chars@[k as int] != '/' {
                    let w = choose|w: int|
                        0 <= w < seen.len() + 1 && seen.push(chars@[k as int])[w] == '/';
                    assert(seen[w] == '/');
                }
            }
        }
        anchored = anchored || chars[k] == '/';
        k += 1;
    }
    assert(path.take(to - from) =~= path);
    if to > from && chars[from] == '/' {
        from += 1;
    }
    let ghost relative = chars@.subrange(from as int, to as int);
    assert(relative =~= if path.len() > 0 && path[0] == '/' {
        path.skip(1)
    } else {
        path
    });
    if from == to {
        return None;
    }
    let mut glob: Vec<char> = Vec::new();
    if !anchored {
        glob.push('*');
        glob.push('*');
        glob.push('/');
        proof {
            reveal_strlit("**/");
        }
        assert(glob@ =~= "**/"@);
    }
    let ghost lead = glob@;
    let mut at: usize = from;
    while at < to
        invariant
            from <= at <= to <= chars.len(),
            relative == chars@.subrange(from as int, to as int),
            glob@ == lead + relative.take(at - from),
        decreases to - at,
    {
        glob.push(chars[at]);
        assert(relative.take(at + 1 - from) =~= relative.take(at - from).push(chars@[at as int]));
        at += 1;
        assert(glob@ =~= lead + relative.take(at - from));
    }
    assert(relative.take(to - from) =~= relative);
    assert(anchored ==> lead + relative =~= relative);
    Some(Rule { exclude, dir_only, glob })
}

impl UnzipSelection {
    /// Whether the selection takes the entry at a normalized ZIP path.
    ///
    /// Directory paths end in a slash.
    pub fn selects(&self, zip_path: &str) -> (selected: bool)
        ensures
            selected == selection_selects(self@, zip_path@),
    {
        let mut rules: Vec<Option<Rule>> = Vec::new();
        let mut includes: bool = false;
        let mut i: usize = 0;
        while i < self.patterns.len()
            invariant
                i <= self.patterns.len(),
                rules.len() == i,
                forall|k: int|
                    0 <= k < i ==> rule_view(#[trigger] rules@[k]) == line_rule(self@[k]),
                includes == (exists|k: int| 0 <= k < i && #[trigger] line_includes(self@[k])),
            decreases self.patterns.len() - i,
        {
            let rule = compile_line(self.patterns[i].as_str());
            assert(self@[i as int] == self.patterns@[i as int]@);
            let includes_here: bool = match &rule {
                Some(rule) => !rule.exclude,
                None => false,
            };
            assert(includes_here == line_includes(self@[i as int]));
            includes = includes || includes_here;
            rules.push(rule);
            i += 1;
        }
        let mut path = to_chars(zip_path);
        let mut is_dir: bool = path.len() > 0 && path[path.len() - 1] == '/';
        if is_dir {
            path.pop();
        }
        assert(path@ =~= entry_body(zip_path@));
        let ghost lines = self@;
        loop
            invariant
                rules.len() == lines.len(),
                lines == self@,
                forall|k: int|
                    0 <= k < rules.len() ==> rule_view(#[trigger] rules@[k]) == line_rule(lines[k]),
                includes == any_includes(lines),
                selection_decision(lines, path@, is_dir) == selection_decision(
                    lines,
                    entry_body(zip_path@),
                    is_directory_path(zip_path@),
                ),
            decreases path.len(),
        {
            let mut n: usize = rules.len();
            while n > 0
                invariant
                    n <= rules.len() == lines.len(),
                    lines == self@,
                    forall|k: int|
                        0 <= k < rules.len() ==> rule_view(#[trigger] rules@[k]) == line_rule(
                            lines[k],
                        ),
                    last_match(lines, n as int, path@, is_dir) == last_match(
                        lines,
                        lines.len() as int,
                        path@,
                        is_dir,
                    ),
                    selection_decision(lines, path@, is_dir) == selection_decision(
                        lines,
                        entry_body(zip_path@),
                        is_directory_path(zip_path@),
                    ),
                decreases n,
            {
                n -= 1;
                assert(rule_view(rules@[n as int]) == line_rule(lines[n as int]));
                if let Some(rule) = &rules[n] {
                    if (is_dir || !rule.dir_only) && glob(&rule.glob, &path) {
                        return !rule.exclude;
                    }
                }
            }
            let mut slash: usize = path.len();
            while slash > 0 && path[slash - 1] != '/'
                invariant
                    slash <= path.len(),
                    last_slash(path@, slash as int) == last_slash(path@, path.len() as int),
                decreases slash,
            {
                slash -= 1;
            }
            if slash == 0 {
                return !includes;
            }
            let ghost whole = path@;
            path.truncate(slash - 1);
            assert(path@ =~= whole.take(slash - 1));
            is_dir = true;
        }
    }
}

/// Without patterns every path is selected.
pub proof fn law_empty_selection_selects_everything(zip_path: Seq<char>)
    ensures
        selection_selects(Seq::empty(), zip_path),
{
    lemma_no_lines_decide_nothing(entry_body(zip_path), is_directory_path(zip_path));
}

proof fn lemma_no_lines_decide_nothing(path: Seq<char>, is_dir: bool)
    ensures
        selection_decision(Seq::empty(), path, is_dir) is None,
    decreases path.len(),
{
    let slash = last_slash(path, path.len() as int);
    if 0 <= slash < path.len() {
        lemma_no_lines_decide_nothing(path.take(slash), true);
    }
}

/// Where no line includes, a path is selected exactly when no line excludes
/// it: what no line decides is kept.
pub proof fn law_exclude_only_selection_keeps_the_rest(lines: Seq<Seq<char>>, zip_path: Seq<char>)
    requires
        !any_includes(lines),
    ensures
        selection_selects(lines, zip_path) <==> selection_decision(
            lines,
            entry_body(zip_path),
            is_directory_path(zip_path),
        ) != Some(true),
{
}

/// A later line that matches a path overrides the lines before it.
pub proof fn law_later_lines_override(lines: Seq<Seq<char>>, line: Seq<char>, zip_path: Seq<char>)
    requires
        line_rule(line) is Some,
        rule_matches(
            line_rule(line)->Some_0,
            entry_body(zip_path),
            is_directory_path(zip_path),
        ),
    ensures
        selection_selects(lines.push(line), zip_path) == !line_rule(line)->Some_0.exclude,
{
    assert(lines.push(line)[lines.len() as int] == line);
}

} // verus!
