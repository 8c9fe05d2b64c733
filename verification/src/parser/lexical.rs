//! The text being parsed, and the lexical pieces of the grammar: blanks,
//! keywords, names and numbers.
use vstd::prelude::*;

verus! {

broadcast use vstd::string::group_string_axioms;

/// The text being parsed, with its characters at hand.
pub struct Source<'a> {
    text: &'a str,
    chars: Vec<char>,
}

impl<'a> View for Source<'a> {
    type V = Seq<char>;

    closed spec fn view(&self) -> Seq<char> {
        self.chars@
    }
}

impl<'a> Source<'a> {
    #[verifier::type_invariant]
    closed spec fn inv(self) -> bool {
        self.chars@ == self.text@
    }

    pub fn new(text: &'a str) -> (r: Source<'a>)
        ensures
            r@ == text@,
    {
        let n = text.unicode_len();
        let mut chars: Vec<char> = Vec::new();
        let mut i: usize = 0;
        while i < n
            invariant
                i <= n,
                n == text@.len(),
                chars@ == text@.take(i as int),
            decreases n - i,
        {
            let c = text.get_char(i);
            chars.push(c);
            i = i + 1;
            assert(chars@ =~= text@.take(i as int));
        }
        assert(chars@ =~= text@);
        Source { text, chars }
    }

    pub fn len(&self) -> (r: usize)
        ensures
            r == self@.len(),
    {
        self.chars.len()
    }

    pub fn at(&self, i: usize) -> (r: char)
        requires
            i < self@.len(),
        ensures
            r == self@[i as int],
    {
        self.chars[i]
    }

    /// The characters from `i` to `j`.
    pub fn slice(&self, i: usize, j: usize) -> (r: String)
        requires
            i <= j <= self@.len(),
        ensures
            r@ == self@.subrange(i as int, j as int),
    {
        proof {
            use_type_invariant(self);
        }
        self.text.substring_char(i, j).to_owned()
    }

    /// The text from `i` to `j`, borrowed from the text itself.
    pub fn part(&self, i: usize, j: usize) -> (r: &'a str)
        requires
            i <= j <= self@.len(),
        ensures
            r@ == self@.subrange(i as int, j as int),
    {
        proof {
            use_type_invariant(self);
        }
        self.text.substring_char(i, j)
    }

    /// The text from `i` to the end.
    pub fn rest(&self, i: usize) -> (r: &'a str)
        requires
            i <= self@.len(),
        ensures
            r@ == self@.subrange(i as int, self@.len() as int),
    {
        proof {
            use_type_invariant(self);
        }
        self.text.substring_char(i, self.chars.len())
    }
}

/// A position `j` reached from `i` without going back nor past the end.
pub open spec fn after(s: Seq<char>, i: int, j: int) -> bool {
    i <= j <= s.len()
}

// ------------------------------------------------------------------
// Blanks
// ------------------------------------------------------------------
pub open spec fn is_space(c: char) -> bool {
    c == ' ' || c == '\t'
}

pub open spec fn is_multispace(c: char) -> bool {
    c == ' ' || c == '\t' || c == '\r' || c == '\n'
}

/// The end of the spaces and tabs that start at `i`.
pub open spec fn skip_space(s: Seq<char>, i: int) -> int
    decreases s.len() - i,
{
    if 0 <= i < s.len() && is_space(s[i]) {
        skip_space(s, i + 1)
    } else {
        i
    }
}

/// The end of the blanks (line ends too) that start at `i`.
pub open spec fn skip_multispace(s: Seq<char>, i: int) -> int
    decreases s.len() - i,
{
    if 0 <= i < s.len() && is_multispace(s[i]) {
        skip_multispace(s, i + 1)
    } else {
        i
    }
}

/// At least one space or tab.
pub open spec fn space1(s: Seq<char>, i: int) -> Option<int> {
    if skip_space(s, i) > i {
        Some(skip_space(s, i))
    } else {
        None
    }
}

/// The text `t` at `i`.
pub open spec fn tag(s: Seq<char>, i: int, t: Seq<char>) -> Option<int> {
    if 0 <= i && i + t.len() <= s.len() && s.subrange(i, i + t.len()) == t {
        Some(i + t.len())
    } else {
        None
    }
}

/// The character `c` at `i`.
pub open spec fn char_at(s: Seq<char>, i: int, c: char) -> Option<int> {
    if 0 <= i < s.len() && s[i] == c {
        Some(i + 1)
    } else {
        None
    }
}

pub fn space0_at(src: &Source, i: usize) -> (r: usize)
    requires
        i <= src@.len(),
    ensures
        r == skip_space(src@, i as int),
        i <= r <= src@.len(),
{
    let mut j = i;
    while j < src.len() && (src.at(j) == ' ' || src.at(j) == '\t')
        invariant
            i <= j <= src@.len(),
            skip_space(src@, i as int) == skip_space(src@, j as int),
        decreases src@.len() - j,
    {
        j = j + 1;
    }
    j
}

pub fn multispace0_at(src: &Source, i: usize) -> (r: usize)
    requires
        i <= src@.len(),
    ensures
        r == skip_multispace(src@, i as int),
        i <= r <= src@.len(),
{
    let mut j = i;
    while j < src.len() && (src.at(j) == ' ' || src.at(j) == '\t' || src.at(j) == '\r' || src.at(j)
        == '\n')
        invariant
            i <= j <= src@.len(),
            skip_multispace(src@, i as int) == skip_multispace(src@, j as int),
        decreases src@.len() - j,
    {
        j = j + 1;
    }
    j
}

pub fn space1_at(src: &Source, i: usize) -> (r: Option<usize>)
    requires
        i <= src@.len(),
    ensures
        pos_of_opt(r) == space1(src@, i as int),
        r matches Some(j) ==> i < j <= src@.len(),
{
    let j = space0_at(src, i);
    if j > i {
        Some(j)
    } else {
        None
    }
}

pub open spec fn pos_of_opt(r: Option<usize>) -> Option<int> {
    match r {
        Some(j) => Some(j as int),
        None => None,
    }
}

pub fn tag_at(src: &Source, i: usize, t: &str) -> (r: Option<usize>)
    requires
        i <= src@.len(),
    ensures
        pos_of_opt(r) == tag(src@, i as int, t@),
        r matches Some(j) ==> j == i + t@.len() && j <= src@.len(),
{
    let n = t.unicode_len();
    let len = src.len();
    if n > len - i {
        return None;
    }
    let mut k: usize = 0;
    while k < n
        invariant
            k <= n,
            n == t@.len(),
            len == src@.len(),
            i + n <= len,
            forall|m: int| 0 <= m < k ==> src@[i + m] == t@[m],
        decreases n - k,
    {
        if src.at(i + k) != t.get_char(k) {
            assert(src@.subrange(i as int, i + n)[k as int] != t@[k as int]);
            return None;
        }
        k = k + 1;
    }
    assert(src@.subrange(i as int, i + n) =~= t@);
    Some(i + n)
}

pub fn char_at_exec(src: &Source, i: usize, c: char) -> (r: Option<usize>)
    requires
        i <= src@.len(),
    ensures
        pos_of_opt(r) == char_at(src@, i as int, c),
        r matches Some(j) ==> j == i + 1 && j <= src@.len(),
{
    if i < src.len() && src.at(i) == c {
        Some(i + 1)
    } else {
        None
    }
}

// ------------------------------------------------------------------
// Characters of names and numbers
// ------------------------------------------------------------------
/// Whether `char::is_alphabetic` holds: the Unicode property `Alphabetic`.
pub uninterp spec fn alphabetic(c: char) -> bool;

/// Whether `char::is_numeric` holds: the Unicode general categories of numbers.
pub uninterp spec fn numeric(c: char) -> bool;

/// `char::is_alphabetic`: whether the character has the Unicode property
/// `Alphabetic`, as the tables of the standard library give it.
#[verifier::external_body]
fn is_alphabetic(c: char) -> (r: bool)
    ensures
        r == alphabetic(c),
{
    c.is_alphabetic()
}

/// `char::is_numeric`: whether the character is in one of the Unicode
/// general categories `Nd`, `Nl`, `No`, as the tables of the standard
/// library give them.
#[verifier::external_body]
fn is_numeric(c: char) -> (r: bool)
    ensures
        r == numeric(c),
{
    c.is_numeric()
}

pub open spec fn is_digit(c: char) -> bool {
    '0' <= c && c <= '9'
}

/// Characters of variable names.
pub open spec fn is_name_char(c: char) -> bool {
    alphabetic(c) || c == '_'
}

/// Characters of function names.
pub open spec fn is_ident_char(c: char) -> bool {
    alphabetic(c) || numeric(c) || c == '_'
}

pub open spec fn skip_name(s: Seq<char>, i: int) -> int
    decreases s.len() - i,
{
    if 0 <= i < s.len() && is_name_char(s[i]) {
        skip_name(s, i + 1)
    } else {
        i
    }
}

pub open spec fn skip_ident(s: Seq<char>, i: int) -> int
    decreases s.len() - i,
{
    if 0 <= i < s.len() && is_ident_char(s[i]) {
        skip_ident(s, i + 1)
    } else {
        i
    }
}

pub open spec fn skip_digits(s: Seq<char>, i: int) -> int
    decreases s.len() - i,
{
    if 0 <= i < s.len() && is_digit(s[i]) {
        skip_digits(s, i + 1)
    } else {
        i
    }
}

pub open spec fn skip_line(s: Seq<char>, i: int) -> int
    decreases s.len() - i,
{
    if 0 <= i < s.len() && s[i] != '\n' {
        skip_line(s, i + 1)
    } else {
        i
    }
}

fn name_end(src: &Source, i: usize) -> (r: usize)
    requires
        i <= src@.len(),
    ensures
        r == skip_name(src@, i as int),
        i <= r <= src@.len(),
{
    let mut j = i;
    while j < src.len() && (is_alphabetic(src.at(j)) || src.at(j) == '_')
        invariant
            i <= j <= src@.len(),
            skip_name(src@, i as int) == skip_name(src@, j as int),
        decreases src@.len() - j,
    {
        j = j + 1;
    }
    j
}

fn ident_end(src: &Source, i: usize) -> (r: usize)
    requires
        i <= src@.len(),
    ensures
        r == skip_ident(src@, i as int),
        i <= r <= src@.len(),
{
    let mut j = i;
    while j < src.len() && (is_alphabetic(src.at(j)) || is_numeric(src.at(j)) || src.at(j) == '_')
        invariant
            i <= j <= src@.len(),
            skip_ident(src@, i as int) == skip_ident(src@, j as int),
        decreases src@.len() - j,
    {
        j = j + 1;
    }
    j
}

fn digits_end(src: &Source, i: usize) -> (r: usize)
    requires
        i <= src@.len(),
    ensures
        r == skip_digits(src@, i as int),
        i <= r <= src@.len(),
{
    let mut j = i;
    while j < src.len() && ('0' <= src.at(j) && src.at(j) <= '9')
        invariant
            i <= j <= src@.len(),
            skip_digits(src@, i as int) == skip_digits(src@, j as int),
        decreases src@.len() - j,
    {
        j = j + 1;
    }
    j
}

pub fn line_end(src: &Source, i: usize) -> (r: usize)
    requires
        i <= src@.len(),
    ensures
        r == skip_line(src@, i as int),
        i <= r <= src@.len(),
{
    let mut j = i;
    while j < src.len() && src.at(j) != '\n'
        invariant
            i <= j <= src@.len(),
            skip_line(src@, i as int) == skip_line(src@, j as int),
        decreases src@.len() - j,
    {
        j = j + 1;
    }
    j
}

/// The first `*/` at or after `i`.
pub open spec fn find_close(s: Seq<char>, i: int) -> Option<int>
    decreases s.len() - i,
{
    if i < 0 || i + 2 > s.len() {
        None
    } else if s[i] == '*' && s[i + 1] == '/' {
        Some(i)
    } else {
        find_close(s, i + 1)
    }
}

pub fn find_close_at(src: &Source, i: usize) -> (r: Option<usize>)
    requires
        i <= src@.len(),
    ensures
        pos_of_opt(r) == find_close(src@, i as int),
        r matches Some(j) ==> i <= j && j + 2 <= src@.len(),
{
    let mut j = i;
    let len = src.len();
    while len - j >= 2
        invariant
            len == src@.len(),
            i <= j <= src@.len(),
            find_close(src@, i as int) == find_close(src@, j as int),
        decreases src@.len() - j,
    {
        if src.at(j) == '*' && src.at(j + 1) == '/' {
            return Some(j);
        }
        j = j + 1;
    }
    None
}

// ------------------------------------------------------------------
// Names
// ------------------------------------------------------------------
/// Words that cannot name a variable.
pub open spec fn keyword(w: Seq<char>) -> bool {
    w == "let"@ || w == "true"@ || w == "false"@ || w == "&&"@ || w == "||"@ || w == "!"@ || w == "_"@
}

/// A variable name: letters and underscores, possibly followed by `'old`,
/// and not a keyword.
pub open spec fn variable_name(s: Seq<char>, i: int) -> Option<(int, Seq<char>)> {
    let j = skip_name(s, i);
    if j <= i {
        None
    } else {
        let k = match tag(s, j, "'old"@) {
            Some(k) => k,
            None => j,
        };
        if keyword(s.subrange(i, k)) {
            None
        } else {
            Some((k, s.subrange(i, k)))
        }
    }
}

/// A function name: letters, digits and underscores.
pub open spec fn function_name(s: Seq<char>, i: int) -> Option<(int, Seq<char>)> {
    let j = skip_ident(s, i);
    if j <= i {
        None
    } else {
        Some((j, s.subrange(i, j)))
    }
}

pub open spec fn name_view(r: Option<(usize, String)>) -> Option<(int, Seq<char>)> {
    match r {
        Some((j, w)) => Some((j as int, w@)),
        None => None,
    }
}

fn is_word(src: &Source, i: usize, k: usize, w: &str) -> (r: bool)
    requires
        i <= k <= src@.len(),
    ensures
        r == (src@.subrange(i as int, k as int) == w@),
{
    match tag_at(src, i, w) {
        Some(j) => {
            if j == k {
                true
            } else {
                assert(src@.subrange(i as int, k as int).len() != w@.len());
                false
            }
        },
        None => {
            if k - i == w.unicode_len() {
                assert(src@.subrange(i as int, k as int) != w@) by {
                    if src@.subrange(i as int, k as int) == w@ {
                        assert(src@.subrange(i as int, i + w@.len()) == w@);
                    }
                }
            }
            false
        },
    }
}

pub fn variable_name_at(src: &Source, i: usize) -> (r: Option<(usize, String)>)
    requires
        i <= src@.len(),
    ensures
        name_view(r) == variable_name(src@, i as int),
        r matches Some((j, _)) ==> i < j <= src@.len(),
{
    let j = name_end(src, i);
    if j <= i {
        return None;
    }
    let k = match tag_at(src, j, "'old") {
        Some(k) => k,
        None => j,
    };
    let kw = is_word(src, i, k, "let") || is_word(src, i, k, "true") || is_word(src, i, k, "false")
        || is_word(src, i, k, "&&") || is_word(src, i, k, "||") || is_word(src, i, k, "!")
        || is_word(src, i, k, "_");
    if kw {
        None
    } else {
        Some((k, src.slice(i, k)))
    }
}

pub fn function_name_at(src: &Source, i: usize) -> (r: Option<(usize, String)>)
    requires
        i <= src@.len(),
    ensures
        name_view(r) == function_name(src@, i as int),
        r matches Some((j, _)) ==> i < j <= src@.len(),
{
    let j = ident_end(src, i);
    if j <= i {
        None
    } else {
        Some((j, src.slice(i, j)))
    }
}

// ------------------------------------------------------------------
// Numbers
// ------------------------------------------------------------------
pub open spec fn digit_value(c: char) -> int {
    (c as int) - ('0' as int)
}

/// The value of the decimal digits from `i` to `j`.
pub open spec fn digits_value(s: Seq<char>, i: int, j: int) -> int
    decreases j - i,
{
    if j <= i {
        0
    } else {
        10 * digits_value(s, i, j - 1) + digit_value(s[j - 1])
    }
}

/// A decimal number that fits in an `i32`.
pub open spec fn number(s: Seq<char>, i: int) -> Option<(int, i32)> {
    let j = skip_digits(s, i);
    if j > i && digits_value(s, i, j) <= i32::MAX {
        Some((j, digits_value(s, i, j) as i32))
    } else {
        None
    }
}

proof fn lemma_skip_digits(s: Seq<char>, i: int, k: int)
    requires
        0 <= i <= k <= skip_digits(s, i),
        i <= s.len(),
    ensures
        k <= s.len(),
        forall|m: int| i <= m < k ==> is_digit(#[trigger] s[m]),
    decreases k - i,
{
    if i < k {
        assert(0 <= i < s.len() && is_digit(s[i]));
        lemma_skip_digits(s, i + 1, k);
    }
}

proof fn lemma_digits_grow(s: Seq<char>, i: int, k: int, j: int)
    requires
        i <= k <= j,
        forall|m: int| i <= m < j ==> is_digit(#[trigger] s[m]),
    ensures
        digits_value(s, i, k) <= digits_value(s, i, j),
        digits_value(s, i, k) >= 0,
    decreases j - i,
{
    if k < j {
        lemma_digits_grow(s, i, k, j - 1);
        assert(is_digit(s[j - 1]));
    } else if k > i {
        lemma_digits_grow(s, i, k - 1, k - 1);
        assert(is_digit(s[k - 1]));
    }
}

pub fn number_at(src: &Source, i: usize) -> (r: Option<(usize, i32)>)
    requires
        i <= src@.len(),
    ensures
        match r {
            Some((j, v)) => number(src@, i as int) == Some((j as int, v)),
            None => number(src@, i as int) is None,
        },
        r matches Some((j, v)) ==> i < j <= src@.len() && v >= 0,
{
    let j = digits_end(src, i);
    if j <= i {
        return None;
    }
    proof {
        lemma_skip_digits(src@, i as int, j as int);
    }
    let mut acc: i32 = 0;
    let mut k = i;
    while k < j
        invariant
            i <= k <= j,
            j == skip_digits(src@, i as int),
            j <= src@.len(),
            forall|m: int| i <= m < j ==> is_digit(#[trigger] src@[m]),
            acc as int == digits_value(src@, i as int, k as int),
            0 <= acc,
        decreases j - k,
    {
        let c = src.at(k);
        assert(is_digit(src@[k as int]));
        let d: i32 = ((c as u32) - ('0' as u32)) as i32;
        assert(d as int == digit_value(c));
        if acc > (2147483647 - d) / 10 {
            proof {
                lemma_digits_grow(src@, i as int, k + 1, j as int);
                assert(10 * (acc as int) + (d as int) > 2147483647) by (nonlinear_arith)
                    requires
                        acc > (2147483647 - d) / 10,
                        0 <= d <= 9,
                ;
            }
            return None;
        }
        proof {
            assert(10 * (acc as int) + (d as int) <= 2147483647) by (nonlinear_arith)
                requires
                    acc <= (2147483647 - d) / 10,
                    0 <= d <= 9,
                    0 <= acc,
            ;
        }
        acc = 10 * acc + d;
        k = k + 1;
    }
    Some((j, acc))
}

} // verus!
