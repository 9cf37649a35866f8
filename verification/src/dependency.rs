//! Dependency constraints: a package name, alone or with a comparison
//! operator and a version, as in `libfoo >= 1.2`.

use vstd::prelude::*;
use vstd::string::*;

use crate::error::{AppError, ErrorKind, ErrorView};
use crate::text::{chars_of, piece};

verus! {

/// How the version of a dependency is compared.
#[derive(Debug, Clone, Copy, PartialEq, Eq, Structural)]
pub enum Operator {
    /// Any version will do.
    Any,
    /// `=`
    Equal,
    /// `<`
    Less,
    /// `<=`
    LessEqual,
    /// `>`
    Greater,
    /// `>=`
    GreaterEqual,
}

/// A relation to another package: its name and, unless any version will do,
/// the operator and the version to compare with.
#[derive(Debug, Clone, PartialEq, Eq)]
pub struct DependencyConstraint {
    pub name: String,
    pub operator: Operator,
    pub version: Option<String>,
}

/// The mathematical value of a [`DependencyConstraint`].
pub struct DependencyView {
    pub name: Seq<char>,
    pub operator: Operator,
    pub version: Option<Seq<char>>,
}

impl DependencyView {
    /// The name is a non-empty run of name characters, a version is there
    /// exactly when the operator compares with one, and a version that is
    /// there is not empty.
    pub open spec fn wf(self) -> bool {
        &&& self.name.len() > 0
        &&& is_name(self.name)
        &&& (self.operator == Operator::Any <==> self.version is None)
        &&& (self.version matches Some(v) ==> v.len() > 0)
    }
}

impl View for DependencyConstraint {
    type V = DependencyView;

    open spec fn view(&self) -> DependencyView {
        DependencyView {
            name: self.name@,
            operator: self.operator,
            version: match self.version {
                Some(v) => Some(v@),
                None => None,
            },
        }
    }
}

/// A character of a package name: an ASCII letter, an ASCII digit or a hyphen.
pub open spec fn is_name_char(c: char) -> bool {
    ('a' <= c <= 'z') || ('A' <= c <= 'Z') || ('0' <= c <= '9') || c == '-'
}

/// A white-space character, as Unicode's property `White_Space` has it.
pub open spec fn is_space(c: char) -> bool {
    ||| '\u{9}' <= c <= '\u{d}'
    ||| c == ' '
    ||| c == '\u{85}'
    ||| c == '\u{a0}'
    ||| c == '\u{1680}'
    ||| '\u{2000}' <= c <= '\u{200a}'
    ||| c == '\u{2028}'
    ||| c == '\u{2029}'
    ||| c == '\u{202f}'
    ||| c == '\u{205f}'
    ||| c == '\u{3000}'
}

/// The length of the longest prefix of `s` whose characters are all in `class`.
pub open spec fn run_len(s: Seq<char>, class: spec_fn(char) -> bool) -> nat
    decreases s.len(),
{
    if s.len() > 0 && class(s[0]) {
        1 + run_len(s.drop_first(), class)
    } else {
        0
    }
}

/// The length of the name that `s` starts with.
pub open spec fn name_len(s: Seq<char>) -> nat {
    run_len(s, |c: char| is_name_char(c))
}

/// The length of the white space that `s` starts with.
pub open spec fn space_len(s: Seq<char>) -> nat {
    run_len(s, |c: char| is_space(c))
}

/// `s` without the white space that it starts with.
pub open spec fn skip_spaces(s: Seq<char>) -> Seq<char> {
    s.skip(space_len(s) as int)
}

/// The version that stands in `tail`, the text behind an operator: `tail`
/// without the white space that it starts with; and `tail` as it is written
/// where it is white space alone, so that a version is never empty.
pub open spec fn version_in(tail: Seq<char>) -> Seq<char> {
    if space_len(tail) < tail.len() {
        skip_spaces(tail)
    } else {
        tail
    }
}

/// How an operator is written. `Any` is not written at all.
pub open spec fn token_of(op: Operator) -> Seq<char> {
    match op {
        Operator::Any => Seq::empty(),
        Operator::Equal => seq!['='],
        Operator::Less => seq!['<'],
        Operator::LessEqual => seq!['<', '='],
        Operator::Greater => seq!['>'],
        Operator::GreaterEqual => seq!['>', '='],
    }
}

/// What may follow an operator: at least one character, all on one line.
pub open spec fn is_version_tail(tail: Seq<char>) -> bool {
    tail.len() > 0 && forall|i: int| 0 <= i < tail.len() ==> tail[i] != '\n'
}

/// `s` starts with the token of `op`, and what follows may follow an operator.
pub open spec fn fits(s: Seq<char>, op: Operator) -> bool {
    token_of(op).is_prefix_of(s) && is_version_tail(s.skip(token_of(op).len() as int))
}

/// The operator that `s` starts with: the first of `>=`, `>`, `=`, `<=`, `<`,
/// tried in this order, that fits. The two-character tokens come before the
/// tokens that they start with, so `>=1` is never read as `>` and `=1`.
pub open spec fn operator_at(s: Seq<char>) -> Option<Operator> {
    if fits(s, Operator::GreaterEqual) {
        Some(Operator::GreaterEqual)
    } else if fits(s, Operator::Greater) {
        Some(Operator::Greater)
    } else if fits(s, Operator::Equal) {
        Some(Operator::Equal)
    } else if fits(s, Operator::LessEqual) {
        Some(Operator::LessEqual)
    } else if fits(s, Operator::Less) {
        Some(Operator::Less)
    } else {
        None
    }
}

/// The constraint that `line` expresses, if it expresses one.
///
/// A line is a name, and then either nothing, or white space (possibly none),
/// an operator, and the rest of the line, which is not empty and holds no
/// line feed. The version is that rest without the white space that it starts
/// with; a rest of white space alone is the version as it is written.
pub open spec fn dependency_of(line: Seq<char>) -> Option<DependencyView> {
    let n = name_len(line) as int;
    let after_name = line.skip(n);
    if n == 0 {
        None
    } else if after_name.len() == 0 {
        Some(DependencyView { name: line, operator: Operator::Any, version: None })
    } else {
        let after_space = skip_spaces(after_name);
        match operator_at(after_space) {
            Some(op) => {
                let tail = after_space.skip(token_of(op).len() as int);
                Some(
                    DependencyView {
                        name: line.take(n),
                        operator: op,
                        version: Some(version_in(tail)),
                    },
                )
            },
            None => None,
        }
    }
}

/// The error for a line that expresses no constraint.
pub open spec fn dependency_error(line: Seq<char>) -> ErrorView {
    ErrorView {
        kind: ErrorKind::InvalidDependencyExpression,
        cause: "invalid pattern in dependency block "@ + line,
    }
}

/// `run_len` is where the run ends: every character before it is in `class`,
/// and it is either the end of `s` or a character outside `class`.
pub proof fn lemma_run_len(s: Seq<char>, class: spec_fn(char) -> bool)
    ensures
        run_len(s, class) <= s.len(),
        forall|j: int| 0 <= j < run_len(s, class) ==> class(#[trigger] s[j]),
        run_len(s, class) < s.len() ==> !class(s[run_len(s, class) as int]),
    decreases s.len(),
{
    if s.len() > 0 && class(s[0]) {
        let t = s.drop_first();
        lemma_run_len(t, class);
        assert forall|j: int| 0 <= j < run_len(s, class) implies class(#[trigger] s[j]) by {
            if j > 0 {
                assert(s[j] == t[j - 1]);
            }
        }
        if run_len(s, class) < s.len() {
            assert(s[run_len(s, class) as int] == t[run_len(t, class) as int]);
        }
    }
}

/// An index that only characters of `class` precede, and that is the end of
/// `s` or holds a character outside `class`, is `run_len`.
pub proof fn lemma_run_len_is(s: Seq<char>, class: spec_fn(char) -> bool, k: int)
    requires
        0 <= k <= s.len(),
        forall|j: int| 0 <= j < k ==> class(#[trigger] s[j]),
        k < s.len() ==> !class(s[k]),
    ensures
        run_len(s, class) == k,
{
    lemma_run_len(s, class);
    let r = run_len(s, class) as int;
    if r < k {
        assert(class(s[r]));
    } else if k < r {
        assert(class(s[k]));
    }
}

/// What `dependency_of` yields is well formed.
pub proof fn lemma_dependency_of_wf(line: Seq<char>)
    ensures
        dependency_of(line) matches Some(d) ==> d.wf(),
{
    lemma_run_len(line, |c: char| is_name_char(c));
    if dependency_of(line) is Some && dependency_of(line)->Some_0.operator != Operator::Any {
        let d = dependency_of(line)->Some_0;
        let after_name = line.skip(name_len(line) as int);
        let after_space = skip_spaces(after_name);
        let tail = after_space.skip(token_of(d.operator).len() as int);
        lemma_run_len(tail, |c: char| is_space(c));
        assert(is_version_tail(tail));
        assert(d.version == Some(version_in(tail)));
    }
}

/// Every character of `s` is a name character.
pub open spec fn is_name(s: Seq<char>) -> bool {
    forall|i: int| 0 <= i < s.len() ==> is_name_char(#[trigger] s[i])
}

/// Every character of `s` is white space.
pub open spec fn is_blank(s: Seq<char>) -> bool {
    forall|i: int| 0 <= i < s.len() ==> is_space(#[trigger] s[i])
}

/// A name alone is a constraint that any version meets: it has no version.
pub proof fn law_name_alone(name: Seq<char>)
    requires
        name.len() > 0,
        is_name(name),
    ensures
        dependency_of(name) == Some(
            DependencyView { name, operator: Operator::Any, version: None },
        ),
{
    lemma_run_len_is(name, |c: char| is_name_char(c), name.len() as int);
}

/// A name, an operator and a version, with or without white space round the
/// operator, is a constraint with exactly that name, operator and version.
///
/// The version is one that can be told from what stands before it: it is not
/// empty, holds no line feed, and does not start with white space; and where
/// it follows `>` or `<` directly, it does not start with `=`, since `>=` and
/// `<=` are always read as the two-character operators.
pub proof fn law_name_operator_version(
    name: Seq<char>,
    gap: Seq<char>,
    op: Operator,
    pad: Seq<char>,
    version: Seq<char>,
)
    requires
        name.len() > 0,
        is_name(name),
        is_blank(gap),
        op != Operator::Any,
        is_blank(pad),
        is_version_tail(pad + version),
        version.len() > 0,
        !is_space(version[0]),
        (op == Operator::Greater || op == Operator::Less) && pad.len() == 0 ==> version[0] != '=',
    ensures
        dependency_of(name + gap + token_of(op) + pad + version) == Some(
            DependencyView { name, operator: op, version: Some(version) },
        ),
{
    let token = token_of(op);
    let line = name + gap + token + pad + version;
    let after_name = gap + token + pad + version;
    let after_space = token + pad + version;
    let tail = pad + version;
    assert(token.len() > 0 && !is_name_char(token[0]) && !is_space(token[0]));

    assert forall|j: int| 0 <= j < name.len() implies is_name_char(#[trigger] line[j]) by {
        assert(line[j] == name[j]);
    }
    assert(!is_name_char(line[name.len() as int])) by {
        if gap.len() > 0 {
            assert(line[name.len() as int] == gap[0]);
            assert(is_space(gap[0]));
        } else {
            assert(line[name.len() as int] == token[0]);
        }
    }
    lemma_run_len_is(line, |c: char| is_name_char(c), name.len() as int);
    assert(line.skip(name.len() as int) == after_name);
    assert(line.take(name.len() as int) == name);

    assert forall|j: int| 0 <= j < gap.len() implies is_space(#[trigger] after_name[j]) by {
        assert(after_name[j] == gap[j]);
    }
    assert(after_name[gap.len() as int] == token[0]);
    lemma_run_len_is(after_name, |c: char| is_space(c), gap.len() as int);
    assert(after_name.skip(gap.len() as int) == after_space);

    assert(after_space.subrange(0, token.len() as int) == token);
    assert(after_space.skip(token.len() as int) == tail);
    assert(fits(after_space, op));
    assert(after_space[0] == token[0]);
    if op == Operator::Greater || op == Operator::Less {
        assert(after_space[1] == tail[0]);
        assert(tail[0] != '=') by {
            if pad.len() > 0 {
                assert(tail[0] == pad[0]);
                assert(is_space(pad[0]));
            } else {
                assert(tail[0] == version[0]);
            }
        }
        assert(token_of(Operator::GreaterEqual)[1] == '=');
        assert(token_of(Operator::LessEqual)[1] == '=');
        assert(!fits(after_space, Operator::GreaterEqual));
        assert(!fits(after_space, Operator::LessEqual));
    }
    assert(operator_at(after_space) == Some(op)) by {
        assert(token_of(Operator::GreaterEqual)[0] == '>');
        assert(token_of(Operator::Greater)[0] == '>');
        assert(token_of(Operator::Equal)[0] == '=');
        assert(token_of(Operator::LessEqual)[0] == '<');
        assert(token_of(Operator::Less)[0] == '<');
    }

    assert forall|j: int| 0 <= j < pad.len() implies is_space(#[trigger] tail[j]) by {
        assert(tail[j] == pad[j]);
    }
    assert(tail[pad.len() as int] == version[0]);
    lemma_run_len_is(tail, |c: char| is_space(c), pad.len() as int);
    assert(tail.skip(pad.len() as int) == version);
    assert(version_in(tail) == version);
}

/// Whether `c` may stand in a package name.
pub fn name_char(c: char) -> (b: bool)
    ensures
        b == is_name_char(c),
{
    (c >= 'a' && c <= 'z') || (c >= 'A' && c <= 'Z') || (c >= '0' && c <= '9') || c == '-'
}

/// Whether `c` is white space.
pub fn space_char(c: char) -> (b: bool)
    ensures
        b == is_space(c),
{
    (c >= '\u{9}' && c <= '\u{d}') || c == ' ' || c == '\u{85}' || c == '\u{a0}' || c
        == '\u{1680}' || (c >= '\u{2000}' && c <= '\u{200a}') || c == '\u{2028}' || c
        == '\u{2029}' || c == '\u{202f}' || c == '\u{205f}' || c == '\u{3000}'
}

/// The index at which the name that starts at `from` ends.
fn name_end(chars: &Vec<char>, from: usize) -> (end: usize)
    requires
        from <= chars.len(),
    ensures
        from <= end <= chars.len(),
        end == from + name_len(chars@.skip(from as int)),
{
    let mut end: usize = from;
    while end < chars.len() && name_char(chars[end])
        invariant
            from <= end <= chars.len(),
            forall|j: int| from <= j < end ==> is_name_char(chars@[j]),
        decreases chars.len() - end,
    {
        end += 1;
    }
    proof {
        let rest = chars@.skip(from as int);
        let class = |c: char| is_name_char(c);
        assert forall|j: int| 0 <= j < end - from implies class(#[trigger] rest[j]) by {
            assert(rest[j] == chars@[from + j]);
        }
        lemma_run_len_is(rest, class, end - from);
    }
    end
}

/// The index at which the white space that starts at `from` ends.
fn space_end(chars: &Vec<char>, from: usize) -> (end: usize)
    requires
        from <= chars.len(),
    ensures
        from <= end <= chars.len(),
        end == from + space_len(chars@.skip(from as int)),
{
    let mut end: usize = from;
    while end < chars.len() && space_char(chars[end])
        invariant
            from <= end <= chars.len(),
            forall|j: int| from <= j < end ==> is_space(chars@[j]),
        decreases chars.len() - end,
    {
        end += 1;
    }
    proof {
        let rest = chars@.skip(from as int);
        let class = |c: char| is_space(c);
        assert forall|j: int| 0 <= j < end - from implies class(#[trigger] rest[j]) by {
            assert(rest[j] == chars@[from + j]);
        }
        lemma_run_len_is(rest, class, end - from);
    }
    end
}

/// Whether the characters from `from` on may follow an operator.
fn version_tail_at(chars: &Vec<char>, from: usize) -> (b: bool)
    requires
        from <= chars.len(),
    ensures
        b == is_version_tail(chars@.skip(from as int)),
{
    if from == chars.len() {
        return false;
    }
    let mut i: usize = from;
    while i < chars.len()
        invariant
            from <= i <= chars.len(),
            forall|j: int| from <= j < i ==> chars@[j] != '\n',
        decreases chars.len() - i,
    {
        if chars[i] == '\n' {
            proof {
                let tail = chars@.skip(from as int);
                assert(tail[i - from] == '\n');
            }
            return false;
        }
        i += 1;
    }
    proof {
        let tail = chars@.skip(from as int);
        assert forall|j: int| 0 <= j < tail.len() implies tail[j] != '\n' by {
            assert(tail[j] == chars@[from + j]);
        }
    }
    true
}

/// Whether `op` fits at index `at`.
fn fits_at(chars: &Vec<char>, at: usize, op: Operator) -> (b: bool)
    requires
        at <= chars.len(),
    ensures
        b == fits(chars@.skip(at as int), op),
{
    let ghost s = chars@.skip(at as int);
    let n: usize = chars.len();
    let (first, second): (char, Option<char>) = match op {
        Operator::Any => {
            assert(s.skip(0) == s);
            assert(s.subrange(0, 0) == token_of(op));
            return version_tail_at(chars, at);
        },
        Operator::Equal => ('=', None),
        Operator::Less => ('<', None),
        Operator::LessEqual => ('<', Some('=')),
        Operator::Greater => ('>', None),
        Operator::GreaterEqual => ('>', Some('=')),
    };
    if at >= n || chars[at] != first {
        proof {
            if at < n {
                assert(s[0] == chars@[at as int]);
                assert(token_of(op)[0] == first);
            }
        }
        return false;
    }
    assert(s[0] == chars@[at as int]);
    match second {
        None => {
            assert(s.subrange(0, 1) == token_of(op));
            assert(s.skip(1) == chars@.skip(at + 1));
            version_tail_at(chars, at + 1)
        },
        Some(c) => {
            if at + 1 >= n || chars[at + 1] != c {
                proof {
                    if at + 1 < n {
                        assert(s[1] == chars@[at + 1]);
                        assert(token_of(op)[1] == c);
                    }
                }
                return false;
            }
            assert(s[1] == chars@[at + 1]);
            assert(s.subrange(0, 2) == token_of(op));
            assert(s.skip(2) == chars@.skip(at + 2));
            version_tail_at(chars, at + 2)
        },
    }
}

/// The operator at index `at`, with the index at which its token ends.
fn operator_from(chars: &Vec<char>, at: usize) -> (r: Option<(Operator, usize)>)
    requires
        at <= chars.len(),
    ensures
        match operator_at(chars@.skip(at as int)) {
            Some(op) => r == Some((op, (at + token_of(op).len()) as usize)) && at + token_of(
                op,
            ).len() <= chars.len(),
            None => r is None,
        },
{
    if fits_at(chars, at, Operator::GreaterEqual) {
        Some((Operator::GreaterEqual, at + 2))
    } else if fits_at(chars, at, Operator::Greater) {
        Some((Operator::Greater, at + 1))
    } else if fits_at(chars, at, Operator::Equal) {
        Some((Operator::Equal, at + 1))
    } else if fits_at(chars, at, Operator::LessEqual) {
        Some((Operator::LessEqual, at + 2))
    } else if fits_at(chars, at, Operator::Less) {
        Some((Operator::Less, at + 1))
    } else {
        None
    }
}

/// Reads one dependency expression, such as `libfoo` or `libfoo >= 1.2`.
///
/// Fails with `InvalidDependencyExpression`, and a message that quotes the
/// line, on every line that expresses no constraint.
pub fn parse_dependency(line: &str) -> (r: Result<DependencyConstraint, AppError>)
    ensures
        match dependency_of(line@) {
            Some(d) => r is Ok && r->Ok_0@ == d && d.wf(),
            None => r is Err && r->Err_0@ == dependency_error(line@),
        },
{
    proof {
        lemma_dependency_of_wf(line@);
    }
    let chars = chars_of(line);
    let n: usize = chars.len();
    assert(chars@.skip(0) == line@);
    let name_to: usize = name_end(&chars, 0);
    if name_to == 0 {
        return Err(dependency_failure(line));
    }
    if name_to == n {
        assert(line@.subrange(0, n as int) == line@);
        return Ok(
            DependencyConstraint { name: piece(line, 0, n), operator: Operator::Any, version: None },
        );
    }
    let op_at: usize = space_end(&chars, name_to);
    let ghost after_name = line@.skip(name_to as int);
    assert(after_name.skip(op_at - name_to) == line@.skip(op_at as int));
    match operator_from(&chars, op_at) {
        None => Err(dependency_failure(line)),
        Some((operator, tail_at)) => {
            let after_pad: usize = space_end(&chars, tail_at);
            let version_at: usize = if after_pad < n {
                after_pad
            } else {
                tail_at
            };
            let ghost after_space = line@.skip(op_at as int);
            let ghost tail = after_space.skip(token_of(operator).len() as int);
            assert(tail == line@.skip(tail_at as int));
            assert(tail.skip(after_pad - tail_at) == line@.subrange(after_pad as int, n as int));
            assert(tail == line@.subrange(tail_at as int, n as int));
            Ok(
                DependencyConstraint {
                    name: piece(line, 0, name_to),
                    operator,
                    version: Some(piece(line, version_at, n)),
                },
            )
        },
    }
}

/// The error for `line`.
fn dependency_failure(line: &str) -> (e: AppError)
    ensures
        e@ == dependency_error(line@),
{
    AppError::new(
        ErrorKind::InvalidDependencyExpression,
        String::from_str("invalid pattern in dependency block ").concat(line),
    )
}

} // verus!
