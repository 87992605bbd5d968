// Versions and requirements on versions.
use crate::numng_error::{NumngError, NumngErrorView};
use crate::plain::Plain;
use crate::text::{
    chars_are, chars_of, lemma_deep_view_chars, number_digits, number_of, owned, parse_number,
    push_char, push_chars, split_chars, split_on,
};
use crate::text::{
    decimal_digits, is_digit, lemma_decimal_digits, lemma_split_on_append,
    lemma_split_on_separator, lemma_split_on_single,
};
use vstd::prelude::*;

verus! {

/// More than 65535 major, minor or patch releases seem unlikely.
pub type SVNum = u16;

/// A version, or a requirement on versions.
#[derive(PartialEq, Eq, Debug)]
pub enum SemVer {
    /// A free-form version without any digit, such as `git`.
    Custom(String),
    Latest,
    Normal { major: SVNum, minor: Option<SVNum>, patch: Option<SVNum>, operator: SemVerOperator },
    /// The key under which a registry keeps the defaults of all versions.
    RegistryFallbackValues,
}

/// How a numbered requirement compares a version with its numbers.
#[derive(PartialEq, Eq, Debug, Clone, Copy, Structural)]
pub enum SemVerOperator {
    /// ~
    Close,
    /// ^
    Compatible,
    /// =
    Exact,
    /// >
    Greater,
    /// <
    Smaller,
}

/// What a `SemVer` holds, as mathematical values.
pub enum SemVerView {
    Custom(Seq<char>),
    Latest,
    Normal { major: SVNum, minor: Option<SVNum>, patch: Option<SVNum>, operator: SemVerOperator },
    RegistryFallbackValues,
}

impl View for SemVer {
    type V = SemVerView;

    open spec fn view(&self) -> SemVerView {
        match *self {
            SemVer::Custom(s) => SemVerView::Custom(s@),
            SemVer::Latest => SemVerView::Latest,
            SemVer::Normal { major, minor, patch, operator } => SemVerView::Normal {
                major,
                minor,
                patch,
                operator,
            },
            SemVer::RegistryFallbackValues => SemVerView::RegistryFallbackValues,
        }
    }
}

impl DeepView for SemVer {
    type V = SemVerView;

    open spec fn deep_view(&self) -> SemVerView {
        self.view()
    }
}

impl Plain for SemVer {
    fn same(&self, other: &Self) -> (r: bool) {
        match (self, other) {
            (SemVer::Custom(a), SemVer::Custom(b)) => a.same(b),
            (SemVer::Latest, SemVer::Latest) => true,
            (
                SemVer::Normal { major, minor, patch, operator },
                SemVer::Normal { major: o_major, minor: o_minor, patch: o_patch,
                    operator: o_operator },
            ) => *major == *o_major && *minor == *o_minor && *patch == *o_patch && *operator
                == *o_operator,
            (SemVer::RegistryFallbackValues, SemVer::RegistryFallbackValues) => true,
            _ => false,
        }
    }

    fn copy(&self) -> (r: Self) {
        match self {
            SemVer::Custom(s) => SemVer::Custom(s.clone()),
            SemVer::Latest => SemVer::Latest,
            SemVer::Normal { major, minor, patch, operator } => SemVer::Normal {
                major: *major,
                minor: *minor,
                patch: *patch,
                operator: *operator,
            },
            SemVer::RegistryFallbackValues => SemVer::RegistryFallbackValues,
        }
    }
}

impl Clone for SemVer {
    fn clone(&self) -> (r: Self)
        ensures
            r@ == self@,
    {
        self.copy()
    }
}

/// The character that an operator is written with.
pub open spec fn operator_char(operator: SemVerOperator) -> char {
    match operator {
        SemVerOperator::Close => '~',
        SemVerOperator::Compatible => '^',
        SemVerOperator::Exact => '=',
        SemVerOperator::Greater => '>',
        SemVerOperator::Smaller => '<',
    }
}

/// The operator that `c` is the character of, if any.
pub open spec fn operator_of(c: char) -> Option<SemVerOperator> {
    if c == '~' {
        Some(SemVerOperator::Close)
    } else if c == '^' {
        Some(SemVerOperator::Compatible)
    } else if c == '=' {
        Some(SemVerOperator::Exact)
    } else if c == '>' {
        Some(SemVerOperator::Greater)
    } else if c == '<' {
        Some(SemVerOperator::Smaller)
    } else {
        None
    }
}

impl SemVerOperator {
    /// The character that the operator is written with.
    pub fn as_char(&self) -> (c: char)
        ensures
            c == operator_char(*self),
            operator_of(c) == Some(*self),
    {
        match self {
            SemVerOperator::Close => '~',
            SemVerOperator::Compatible => '^',
            SemVerOperator::Exact => '=',
            SemVerOperator::Greater => '>',
            SemVerOperator::Smaller => '<',
        }
    }

    /// The operator as a string of one character.
    pub fn into_string(self) -> (s: String)
        ensures
            s@ == seq![operator_char(self)],
    {
        let mut s = String::new();
        push_char(&mut s, self.as_char());
        s
    }
}

/// What is wrong with a version one of whose parts is no number.
pub open spec fn issue_not_a_number() -> Seq<char> {
    "Part is not a number"@
}

/// What is wrong with a version of more than three parts.
pub open spec fn issue_too_many_parts() -> Seq<char> {
    "More than 2 dots found"@
}

/// Whether `s` holds an ASCII digit.
pub open spec fn has_digit(s: Seq<char>) -> bool {
    exists|i: int| 0 <= i < s.len() && crate::text::is_digit(#[trigger] s[i])
}

/// The operator that a version text starts with; `=` where it names none.
pub open spec fn leading_operator(text: Seq<char>) -> SemVerOperator {
    if text.len() > 0 && operator_of(text[0]) is Some {
        operator_of(text[0])->0
    } else {
        SemVerOperator::Exact
    }
}

/// A version text without the operator that it starts with.
pub open spec fn without_operator(text: Seq<char>) -> Seq<char> {
    if text.len() > 0 && operator_of(text[0]) is Some {
        text.drop_first()
    } else {
        text
    }
}

/// Whether each of `parts` spells a number of at most sixteen bits.
pub open spec fn all_numbers(parts: Seq<Seq<char>>) -> bool {
    forall|i: int| 0 <= i < parts.len() ==> number_of(#[trigger] parts[i]) is Some
}

/// The number at position `i` of `parts`, if there is such a position.
pub open spec fn part_number(parts: Seq<Seq<char>>, i: int) -> Option<SVNum> {
    if 0 <= i < parts.len() {
        number_of(parts[i])
    } else {
        None
    }
}

/// What a version text means.
///
/// The empty text and `latest` are `Latest`; `_` is the registry's fallback
/// key; a text without any digit is a custom version. Any other text is an
/// optional operator followed by one to three numbers separated by dots.
pub open spec fn parse_version(text: Seq<char>) -> Result<SemVerView, NumngErrorView> {
    if text.len() == 0 || text == "latest"@ {
        Ok(SemVerView::Latest)
    } else if text == "_"@ {
        Ok(SemVerView::RegistryFallbackValues)
    } else if !has_digit(text) {
        Ok(SemVerView::Custom(text))
    } else {
        let parts = split_on(without_operator(text), '.');
        if !all_numbers(parts) {
            Err(NumngErrorView::InvalidSemVer { semver: text, issue: issue_not_a_number() })
        } else if parts.len() > 3 {
            Err(NumngErrorView::InvalidSemVer { semver: text, issue: issue_too_many_parts() })
        } else {
            Ok(
                SemVerView::Normal {
                    major: number_of(parts[0])->0,
                    minor: part_number(parts, 1),
                    patch: part_number(parts, 2),
                    operator: leading_operator(text),
                },
            )
        }
    }
}

/// The numbers of a version, separated by dots. A patch number without a
/// minor number is left out.
pub open spec fn numbers_text(major: SVNum, minor: Option<SVNum>, patch: Option<SVNum>) -> Seq<
    char,
> {
    let first = decimal_digits(major as nat);
    match minor {
        None => first,
        Some(minor) => {
            let two = first.push('.') + decimal_digits(minor as nat);
            match patch {
                None => two,
                Some(patch) => two.push('.') + decimal_digits(patch as nat),
            }
        },
    }
}

/// How a version is written.
///
/// A `Normal` version is written as its operator, its major number and, where
/// it has them, a dot and its minor number, and a dot and its patch number.
pub open spec fn render_version(v: SemVerView) -> Seq<char> {
    match v {
        SemVerView::RegistryFallbackValues => "_"@,
        SemVerView::Custom(c) => c,
        SemVerView::Latest => "latest"@,
        SemVerView::Normal { major, minor, patch, operator } => seq![operator_char(operator)]
            + numbers_text(major, minor, patch),
    }
}

/// Whether `x` is known and above `y`; an unknown `y` is below every number.
pub open spec fn known_and_above(x: Option<SVNum>, y: Option<SVNum>) -> bool {
    x is Some && (y is None || x->0 > y->0)
}

/// Whether `a` is the later of two versions of one package.
///
/// `Latest` is later than everything. A numbered version is later than a
/// custom one and than the registry's fallback key. Among numbered versions
/// the major numbers decide, then the minor, then the patch numbers; a number
/// that `a` lacks never makes `a` the later one. Operators play no part.
pub open spec fn version_greater(a: SemVerView, b: SemVerView) -> bool {
    match a {
        SemVerView::RegistryFallbackValues => false,
        SemVerView::Custom(_) => false,
        SemVerView::Latest => true,
        SemVerView::Normal { major, minor, patch, operator: _ } => match b {
            SemVerView::RegistryFallbackValues => true,
            SemVerView::Custom(_) => true,
            SemVerView::Latest => false,
            SemVerView::Normal { major: b_major, minor: b_minor, patch: b_patch, operator: _ } => {
                major > b_major || (major == b_major && (known_and_above(minor, b_minor) || (minor
                    is Some && minor == b_minor && known_and_above(patch, b_patch))))
            },
        },
    }
}

/// A number, or zero where it is missing.
pub open spec fn or_zero(x: Option<SVNum>) -> int {
    match x {
        Some(n) => n as int,
        None => 0,
    }
}

/// Whether the numbers of a candidate satisfy a numbered pattern.
///
/// Numbers that the candidate lacks count as zero.
///  - `=`: equal in each number that the pattern gives.
///  - `~`: same major and minor number, patch number not below the pattern's.
///  - `^`: same major number; a greater minor number, or the same with a patch
///    number not below the pattern's.
///  - `<`: below the pattern, the major number deciding first, then the minor,
///    then the patch number.
///  - `>`: above the pattern in the same order; a candidate that equals the
///    pattern in all three numbers is not above it.
/// For `~`, `^`, `<` and `>`, numbers that the pattern lacks count as zero.
pub open spec fn numbers_match(
    operator: SemVerOperator,
    major: SVNum,
    minor: Option<SVNum>,
    patch: Option<SVNum>,
    c_major: SVNum,
    c_minor: Option<SVNum>,
    c_patch: Option<SVNum>,
) -> bool {
    let n = or_zero(c_minor);
    let p = or_zero(c_patch);
    match operator {
        SemVerOperator::Exact => c_major == major && (minor is None || (n == minor->0 && (patch
            is None || p == patch->0))),
        SemVerOperator::Close => c_major == major && n == or_zero(minor) && p >= or_zero(patch),
        SemVerOperator::Compatible => c_major == major && (n > or_zero(minor) || (n == or_zero(
            minor,
        ) && p >= or_zero(patch))),
        SemVerOperator::Smaller => c_major < major || (c_major == major && (n < or_zero(minor) || (n
            == or_zero(minor) && p < or_zero(patch)))),
        SemVerOperator::Greater => c_major > major || (c_major == major && (n > or_zero(minor)
            || (n == or_zero(minor) && p > or_zero(patch)))),
    }
}

/// Whether the version `candidate` satisfies the requirement `pattern`.
///
/// The fallback key matches only itself, a custom pattern only the same
/// custom version, and `Latest` everything but custom versions. A numbered
/// pattern matches `Latest` only under `>`, never a custom version or the
/// fallback key, and a numbered candidate as `numbers_match` says; the
/// candidate's operator plays no part.
pub open spec fn version_matches(pattern: SemVerView, candidate: SemVerView) -> bool {
    match pattern {
        SemVerView::RegistryFallbackValues => candidate is RegistryFallbackValues,
        SemVerView::Custom(c) => candidate == SemVerView::Custom(c),
        SemVerView::Latest => !(candidate is Custom),
        SemVerView::Normal { major, minor, patch, operator } => match candidate {
            SemVerView::RegistryFallbackValues => false,
            SemVerView::Latest => operator == SemVerOperator::Greater,
            SemVerView::Custom(_) => false,
            SemVerView::Normal { major: c_major, minor: c_minor, patch: c_patch, operator: _ } => {
                numbers_match(operator, major, minor, patch, c_major, c_minor, c_patch)
            },
        },
    }
}

/// The spelling of a number reads back as that number and holds no dot.
proof fn lemma_number_spelling(n: SVNum)
    ensures
        number_of(decimal_digits(n as nat)) == Some(n),
        decimal_digits(n as nat).len() > 0,
        is_digit(decimal_digits(n as nat)[0]),
        forall|i: int|
            0 <= i < decimal_digits(n as nat).len() ==> decimal_digits(n as nat)[i] != '.',
{
    lemma_decimal_digits(n as nat);
}

/// The numbers of a version, written with dots, split into their spellings.
proof fn lemma_numbers_text_split(major: SVNum, minor: Option<SVNum>, patch: Option<SVNum>)
    requires
        patch is Some ==> minor is Some,
    ensures
        split_on(numbers_text(major, minor, patch), '.') == match (minor, patch) {
            (Some(minor), Some(patch)) => seq![
                decimal_digits(major as nat),
                decimal_digits(minor as nat),
                decimal_digits(patch as nat),
            ],
            (Some(minor), None) => seq![decimal_digits(major as nat), decimal_digits(minor as nat)],
            _ => seq![decimal_digits(major as nat)],
        },
        numbers_text(major, minor, patch).len() > 0,
        is_digit(numbers_text(major, minor, patch)[0]),
{
    let d1 = decimal_digits(major as nat);
    lemma_number_spelling(major);
    lemma_split_on_single(d1, '.');
    match minor {
        None => {},
        Some(minor) => {
            let d2 = decimal_digits(minor as nat);
            lemma_number_spelling(minor);
            lemma_split_on_separator(d1, '.');
            lemma_split_on_append(d1.push('.'), d2, '.');
            let two = d1.push('.') + d2;
            match patch {
                None => {},
                Some(patch) => {
                    let d3 = decimal_digits(patch as nat);
                    lemma_number_spelling(patch);
                    lemma_split_on_separator(two, '.');
                    lemma_split_on_append(two.push('.'), d3, '.');
                },
            }
        },
    }
}

/// A rendered numbered version starts with its operator, holds a digit, and
/// is neither `latest` nor the fallback key.
proof fn lemma_render_shape(v: SemVerView)
    requires
        v is Normal,
        v->patch is Some ==> v->minor is Some,
    ensures
        render_version(v).len() >= 2,
        render_version(v) != "latest"@,
        render_version(v) != "_"@,
        has_digit(render_version(v)),
        leading_operator(render_version(v)) == v->operator,
        without_operator(render_version(v)) == numbers_text(v->major, v->minor, v->patch),
{
    let text = render_version(v);
    let body = numbers_text(v->major, v->minor, v->patch);
    lemma_numbers_text_split(v->major, v->minor, v->patch);
    reveal_strlit("latest");
    reveal_strlit("_");
    assert(text[1] == body[0]);
}

/// Rendering, then reading.
///
/// A numbered version whose patch number, if any, comes with a minor number
/// is read back from its rendering as it was: operator, major, minor and
/// patch number. (A patch number without a minor number is not rendered, so
/// it cannot come back.)
pub proof fn lemma_render_then_parse(v: SemVerView)
    requires
        v is Normal,
        v->patch is Some ==> v->minor is Some,
    ensures
        parse_version(render_version(v)) == Ok::<SemVerView, NumngErrorView>(v),
{
    lemma_render_shape(v);
    lemma_numbers_text_split(v->major, v->minor, v->patch);
    lemma_number_spelling(v->major);
    let parts = split_on(numbers_text(v->major, v->minor, v->patch), '.');
    match v->minor {
        None => {},
        Some(minor) => {
            lemma_number_spelling(minor);
            match v->patch {
                None => {},
                Some(patch) => {
                    lemma_number_spelling(patch);
                },
            }
        },
    }
}

/// Of a candidate and the numbers of a pattern, exactly one holds: the
/// candidate satisfies the pattern under `<`, it satisfies it under `>`, or
/// its three numbers are the pattern's, missing numbers counting as zero. So
/// `>` asks for a strictly greater version: `>1` is not met by `1` or `1.0.0`.
pub proof fn lemma_smaller_equal_or_greater(
    major: SVNum,
    minor: Option<SVNum>,
    patch: Option<SVNum>,
    c_major: SVNum,
    c_minor: Option<SVNum>,
    c_patch: Option<SVNum>,
)
    ensures
        ({
            let below = numbers_match(
                SemVerOperator::Smaller,
                major,
                minor,
                patch,
                c_major,
                c_minor,
                c_patch,
            );
            let above = numbers_match(
                SemVerOperator::Greater,
                major,
                minor,
                patch,
                c_major,
                c_minor,
                c_patch,
            );
            let equal = c_major == major && or_zero(c_minor) == or_zero(minor) && or_zero(c_patch)
                == or_zero(patch);
            &&& below || above || equal
            &&& !(below && above)
            &&& !(below && equal)
            &&& !(above && equal)
        }),
{
}

/// Whether two numbered versions give the same of their three numbers.
pub open spec fn same_numbers_present(a: SemVerView, b: SemVerView) -> bool {
    a is Normal && b is Normal && (a->minor is Some <==> b->minor is Some) && (a->patch is Some
        <==> b->patch is Some)
}

/// Whether two numbered versions agree in the numbers that decide which of
/// them is later: the major and minor number, and the patch number where
/// there is a minor number.
pub open spec fn same_numbers(a: SemVerView, b: SemVerView) -> bool {
    a is Normal && b is Normal && a->major == b->major && a->minor == b->minor && (a->minor is Some
        ==> a->patch == b->patch)
}

/// Among numbered versions that give the same of their three numbers,
/// `version_greater` is a strict total order: no version is later than
/// itself, of two versions at most one is later than the other, exactly the
/// versions that agree in their numbers are neither, and "later" carries over
/// from one pair to the next.
pub proof fn lemma_greater_is_total_order(a: SemVerView, b: SemVerView, c: SemVerView)
    requires
        same_numbers_present(a, b),
        same_numbers_present(b, c),
    ensures
        !version_greater(a, a),
        version_greater(a, b) ==> !version_greater(b, a),
        version_greater(a, b) || version_greater(b, a) || same_numbers(a, b),
        same_numbers(a, b) ==> !version_greater(a, b) && !version_greater(b, a),
        version_greater(a, b) && version_greater(b, c) ==> version_greater(a, c),
{
}

/// A number, or zero where it is missing.
fn number_or_zero(x: &Option<SVNum>) -> (r: SVNum)
    ensures
        r == or_zero(*x),
{
    match x {
        Some(n) => *n,
        None => 0,
    }
}

/// Whether `s` holds an ASCII digit.
fn contains_digit(s: &Vec<char>) -> (r: bool)
    ensures
        r == has_digit(s@),
{
    let mut i: usize = 0;
    while i < s.len()
        invariant
            i <= s.len(),
            forall|j: int| 0 <= j < i ==> !crate::text::is_digit(#[trigger] s@[j]),
        decreases s.len() - i,
    {
        if s[i] >= '0' && s[i] <= '9' {
            return true;
        }
        i += 1;
    }
    false
}

/// The operator that `c` is the character of, if any.
fn operator_from_char(c: char) -> (r: Option<SemVerOperator>)
    ensures
        r == operator_of(c),
{
    if c == '~' {
        Some(SemVerOperator::Close)
    } else if c == '^' {
        Some(SemVerOperator::Compatible)
    } else if c == '=' {
        Some(SemVerOperator::Exact)
    } else if c == '>' {
        Some(SemVerOperator::Greater)
    } else if c == '<' {
        Some(SemVerOperator::Smaller)
    } else {
        None
    }
}

/// Reads each of `parts` as a number; `None` if one of them is none.
fn parse_numbers(parts: &Vec<Vec<char>>) -> (r: Option<Vec<SVNum>>)
    ensures
        r is Some <==> all_numbers(parts.deep_view()),
        r is Some ==> r->0.len() == parts.len() && forall|i: int|
            0 <= i < parts.len() ==> number_of(#[trigger] parts.deep_view()[i]) == Some(r->0@[i]),
{
    let mut numbers: Vec<SVNum> = Vec::new();
    let mut i: usize = 0;
    while i < parts.len()
        invariant
            i <= parts.len(),
            numbers.len() == i,
            forall|j: int|
                0 <= j < i ==> number_of(#[trigger] parts.deep_view()[j]) == Some(numbers@[j]),
        decreases parts.len() - i,
    {
        proof {
            lemma_deep_view_chars(parts@[i as int]);
        }
        match parse_number(&parts[i]) {
            Some(n) => {
                numbers.push(n);
            },
            None => {
                assert(number_of(parts.deep_view()[i as int]) is None);
                return None;
            },
        }
        i += 1;
    }
    Some(numbers)
}

impl SemVer {
    /// Writes the version as `from_string` reads it.
    pub fn to_string(&self) -> (s: String)
        ensures
            s@ == render_version(self@),
    {
        match self {
            SemVer::RegistryFallbackValues => owned("_"),
            SemVer::Custom(c) => c.clone(),
            SemVer::Latest => owned("latest"),
            SemVer::Normal { major, minor, patch, operator } => {
                let mut numbers = number_digits(*major as u64);
                if let Some(minor) = minor {
                    numbers.push('.');
                    let mut digits = number_digits(*minor as u64);
                    numbers.append(&mut digits);
                    if let Some(patch) = patch {
                        numbers.push('.');
                        let mut digits = number_digits(*patch as u64);
                        numbers.append(&mut digits);
                    }
                }
                let mut out = operator.into_string();
                push_chars(&mut out, &numbers);
                out
            },
        }
    }

    /// Reads a version, or a requirement on versions.
    pub fn from_string(value: &String) -> (r: Result<SemVer, NumngError>)
        ensures
            match r {
                Ok(v) => parse_version(value@) == Ok::<SemVerView, NumngErrorView>(v@),
                Err(e) => parse_version(value@) == Err::<SemVerView, NumngErrorView>(e@),
            },
    {
        let text = chars_of(value.as_str());
        if text.len() == 0 || chars_are(&text, "latest") {
            return Ok(SemVer::Latest);
        }
        if chars_are(&text, "_") {
            return Ok(SemVer::RegistryFallbackValues);
        }
        if !contains_digit(&text) {
            return Ok(SemVer::Custom(value.clone()));
        }
        let first = operator_from_char(text[0]);
        let (operator, start): (SemVerOperator, usize) = match first {
            Some(operator) => (operator, 1),
            None => (SemVerOperator::Exact, 0),
        };
        let parts = split_chars(&text, start, '.');
        assert(text@.skip(start as int) =~= without_operator(value@));
        let numbers = match parse_numbers(&parts) {
            Some(numbers) => numbers,
            None => {
                return Err(
                    NumngError::InvalidSemVer {
                        semver: value.clone(),
                        issue: owned("Part is not a number"),
                    },
                );
            },
        };
        if numbers.len() > 3 {
            return Err(
                NumngError::InvalidSemVer {
                    semver: value.clone(),
                    issue: owned("More than 2 dots found"),
                },
            );
        }
        let minor: Option<SVNum> = if numbers.len() > 1 {
            Some(numbers[1])
        } else {
            None
        };
        let patch: Option<SVNum> = if numbers.len() > 2 {
            Some(numbers[2])
        } else {
            None
        };
        Ok(SemVer::Normal { major: numbers[0], minor, patch, operator })
    }

    /// Whether `self` is the later of two versions of one package, for picking
    /// the best version that a registry offers.
    pub fn greater_than(&self, other: &SemVer) -> (r: bool)
        ensures
            r == version_greater(self@, other@),
    {
        match self {
            SemVer::RegistryFallbackValues => false,
            SemVer::Custom(_) => false,
            SemVer::Latest => true,
            SemVer::Normal { major, minor, patch, operator: _ } => match other {
                SemVer::RegistryFallbackValues => true,
                SemVer::Custom(_) => true,
                SemVer::Latest => false,
                SemVer::Normal { major: o_major, minor: o_minor, patch: o_patch, operator: _ } => {
                    if *major != *o_major {
                        return *major > *o_major;
                    }
                    let minor: SVNum = match minor {
                        Some(minor) => *minor,
                        None => {
                            return false;
                        },
                    };
                    let o_minor: SVNum = match o_minor {
                        Some(o_minor) => *o_minor,
                        None => {
                            return true;
                        },
                    };
                    if minor != o_minor {
                        return minor > o_minor;
                    }
                    match (patch, o_patch) {
                        (None, _) => false,
                        (Some(_), None) => true,
                        (Some(patch), Some(o_patch)) => *patch > *o_patch,
                    }
                },
            },
        }
    }

    /// Whether the version `other` satisfies the requirement `self`.
    pub fn matches(&self, other: &SemVer) -> (r: bool)
        ensures
            r == version_matches(self@, other@),
    {
        match self {
            SemVer::RegistryFallbackValues => match other {
                SemVer::RegistryFallbackValues => true,
                _ => false,
            },
            SemVer::Custom(c) => match other {
                SemVer::Custom(d) => *c == *d,
                _ => false,
            },
            SemVer::Latest => match other {
                SemVer::Custom(_) => false,
                _ => true,
            },
            SemVer::Normal { major, minor, patch, operator } => match other {
                SemVer::RegistryFallbackValues => false,
                SemVer::Latest => match operator {
                    SemVerOperator::Greater => true,
                    _ => false,
                },
                SemVer::Custom(_) => false,
                SemVer::Normal { major: c_major, minor: c_minor, patch: c_patch, operator: _ } => {
                    let n: SVNum = number_or_zero(c_minor);
                    let p: SVNum = number_or_zero(c_patch);
                    match operator {
                        SemVerOperator::Close => {
                            *major == *c_major && number_or_zero(minor) == n && number_or_zero(
                                patch,
                            ) <= p
                        },
                        SemVerOperator::Compatible => {
                            *major == *c_major && (number_or_zero(minor) < n || (number_or_zero(
                                minor,
                            ) == n && number_or_zero(patch) <= p))
                        },
                        SemVerOperator::Exact => {
                            *major == *c_major && match minor {
                                None => true,
                                Some(minor) => *minor == n && match patch {
                                    None => true,
                                    Some(patch) => *patch == p,
                                },
                            }
                        },
                        SemVerOperator::Greater => {
                            *major < *c_major || (*major == *c_major && (number_or_zero(minor) < n
                                || (number_or_zero(minor) == n && number_or_zero(patch) < p)))
                        },
                        SemVerOperator::Smaller => {
                            *major > *c_major || (*major == *c_major && (number_or_zero(minor) > n
                                || (number_or_zero(minor) == n && number_or_zero(patch) > p)))
                        },
                    }
                },
            },
        }
    }
}

} // verus!
