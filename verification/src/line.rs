//! One annotation line: five fields separated by white space, each the text of
//! a number.
//!
//! The fields are, in order: the class, the centre of the box along x and
//! along y, and its width and height, the last four as fractions of the
//! image's width or height.

use vstd::prelude::*;
use vstd::string::*;
use crate::text::{chars_of, join, texts};

verus! {

/// Appending one character to a `String`, as `String::push` of std does it:
/// the string afterwards is the string before with `c` at its end.
pub assume_specification[ String::push ](s: &mut String, c: char)
    ensures
        final(s)@ == old(s)@.push(c),
;

/// The Unicode code points with the property `White_Space`.
pub open spec fn is_whitespace(c: char) -> bool {
    let u = c as u32;
    ||| 0x09 <= u <= 0x0D
    ||| u == 0x20
    ||| u == 0x85
    ||| u == 0xA0
    ||| u == 0x1680
    ||| 0x2000 <= u <= 0x200A
    ||| u == 0x2028
    ||| u == 0x2029
    ||| u == 0x202F
    ||| u == 0x205F
    ||| u == 0x3000
}

/// An ASCII decimal digit.
pub open spec fn is_digit(c: char) -> bool {
    0x30 <= c as u32 <= 0x39
}

/// A plus or minus sign.
pub open spec fn is_sign(c: char) -> bool {
    c == '+' || c == '-'
}

/// `c` is the lower-case ASCII letter `letter` or its upper-case form.
pub open spec fn is_letter(c: char, letter: char) -> bool {
    c == letter || c as u32 + 0x20 == letter as u32
}

/// The index of the first character at or after `i` that is not white space,
/// or the length of `s` where there is none.
pub open spec fn spaces_end(s: Seq<char>, i: int) -> int
    decreases s.len() - i,
{
    if 0 <= i < s.len() && is_whitespace(s[i]) {
        spaces_end(s, i + 1)
    } else {
        i
    }
}

/// The index of the first white space at or after `i`, or the length of `s`
/// where there is none.
pub open spec fn word_end(s: Seq<char>, i: int) -> int
    decreases s.len() - i,
{
    if 0 <= i < s.len() && !is_whitespace(s[i]) {
        word_end(s, i + 1)
    } else {
        i
    }
}

/// The maximal runs of characters other than white space that start at or
/// after `i`, in order.
///
/// A run starts at the first character that is no white space and ends before
/// the next white space. For an index within `s` the first test fails only
/// where white space alone is left; its other parts never hold, and are there
/// to make the definition total.
pub open spec fn tokens_from(s: Seq<char>, i: int) -> Seq<Seq<char>>
    decreases s.len() - i,
{
    let a = spaces_end(s, i);
    let b = word_end(s, a);
    if i < 0 || a < i || a >= s.len() || b <= a || b > s.len() {
        Seq::empty()
    } else {
        seq![s.subrange(a, b)] + tokens_from(s, b)
    }
}

/// The fields of a line: its maximal runs of characters other than white
/// space. A line of white space only has none.
pub open spec fn tokens(s: Seq<char>) -> Seq<Seq<char>> {
    tokens_from(s, 0)
}

/// The index of the first character at or after `i` that is not a digit, or
/// the length of `s` where there is none.
pub open spec fn digits_end(s: Seq<char>, i: int) -> int
    decreases s.len() - i,
{
    if 0 <= i < s.len() && is_digit(s[i]) {
        digits_end(s, i + 1)
    } else {
        i
    }
}

/// From `i` to its end, `s` spells `word` (given in lower case), in any mix
/// of upper and lower case.
pub open spec fn spells(s: Seq<char>, i: int, word: Seq<char>) -> bool {
    &&& s.len() - i == word.len()
    &&& forall|k: int| 0 <= k < word.len() ==> is_letter(#[trigger] s[i + k], word[k])
}

/// From `i` to its end, `s` is an exponent: `e` or `E`, an optional sign, and
/// one digit or more.
pub open spec fn is_exponent(s: Seq<char>, i: int) -> bool {
    &&& 0 <= i < s.len()
    &&& is_letter(s[i], 'e')
    &&& {
        let j = if i + 1 < s.len() && is_sign(s[i + 1]) {
            i + 2
        } else {
            i + 1
        };
        j < digits_end(s, j) == s.len()
    }
}

/// From `i` to its end, `s` is a decimal number: digits with at most one
/// point among them, one digit at least before or after the point, and
/// optionally an exponent.
pub open spec fn is_number(s: Seq<char>, i: int) -> bool {
    let a = digits_end(s, i);
    if a < s.len() && s[a] == '.' {
        let b = digits_end(s, a + 1);
        (a > i || b > a + 1) && (b == s.len() || is_exponent(s, b))
    } else {
        a > i && (a == s.len() || is_exponent(s, a))
    }
}

/// The word `inf`.
pub open spec fn inf_word() -> Seq<char> {
    seq!['i', 'n', 'f']
}

/// The word `infinity`.
pub open spec fn infinity_word() -> Seq<char> {
    seq!['i', 'n', 'f', 'i', 'n', 'i', 't', 'y']
}

/// The word `nan`.
pub open spec fn nan_word() -> Seq<char> {
    seq!['n', 'a', 'n']
}

/// The texts that read as a floating-point number: an optional sign, then
/// either a decimal number or one of the words `inf`, `infinity` and `nan`
/// in any case.
pub open spec fn is_float_literal(s: Seq<char>) -> bool {
    let start: int = if s.len() > 0 && is_sign(s[0]) {
        1
    } else {
        0
    };
    ||| spells(s, start, inf_word())
    ||| spells(s, start, infinity_word())
    ||| spells(s, start, nan_word())
    ||| is_number(s, start)
}

/// The five fields of an annotation line, each as text.
#[derive(Debug)]
pub struct AnnotationFields {
    pub class_id: String,
    pub x_center: String,
    pub y_center: String,
    pub width: String,
    pub height: String,
}

impl View for AnnotationFields {
    type V = Seq<Seq<char>>;

    /// The fields in the order in which a line holds them.
    open spec fn view(&self) -> Seq<Seq<char>> {
        seq![self.class_id@, self.x_center@, self.y_center@, self.width@, self.height@]
    }
}

/// The text of an annotation line with the given fields: the fields in
/// order, one space between each two.
pub open spec fn line_text(fields: Seq<Seq<char>>) -> Seq<char> {
    join(fields, seq![' '])
}

/// Whether a character is white space.
pub fn is_space(c: char) -> (r: bool)
    ensures
        r == is_whitespace(c),
{
    let u: u32 = c as u32;
    (0x09 <= u && u <= 0x0D) || u == 0x20 || u == 0x85 || u == 0xA0 || u == 0x1680 || (0x2000 <= u
        && u <= 0x200A) || u == 0x2028 || u == 0x2029 || u == 0x202F || u == 0x205F || u == 0x3000
}

fn digit(c: char) -> (r: bool)
    ensures
        r == is_digit(c),
{
    let u: u32 = c as u32;
    0x30 <= u && u <= 0x39
}

fn sign(c: char) -> (r: bool)
    ensures
        r == is_sign(c),
{
    c == '+' || c == '-'
}

fn letter(c: char, l: char) -> (r: bool)
    ensures
        r == is_letter(c, l),
{
    c == l || (c as u32) + 0x20 == l as u32
}

fn skip_spaces(s: &Vec<char>, i: usize) -> (j: usize)
    requires
        i <= s.len(),
    ensures
        i <= j <= s.len(),
        j == spaces_end(s@, i as int),
        j < s.len() ==> !is_whitespace(s@[j as int]),
{
    let mut j: usize = i;
    while j < s.len() && is_space(s[j])
        invariant
            i <= j <= s.len(),
            spaces_end(s@, i as int) == spaces_end(s@, j as int),
        decreases s.len() - j,
    {
        j = j + 1;
    }
    j
}

fn skip_word(s: &Vec<char>, i: usize) -> (j: usize)
    requires
        i <= s.len(),
    ensures
        i <= j <= s.len(),
        j == word_end(s@, i as int),
        i < s.len() && !is_whitespace(s@[i as int]) ==> i < j,
{
    let mut j: usize = i;
    while j < s.len() && !is_space(s[j])
        invariant
            i <= j <= s.len(),
            word_end(s@, i as int) == word_end(s@, j as int),
        decreases s.len() - j,
    {
        j = j + 1;
    }
    j
}

fn skip_digits(s: &Vec<char>, i: usize) -> (j: usize)
    requires
        i <= s.len(),
    ensures
        i <= j <= s.len(),
        j == digits_end(s@, i as int),
{
    let mut j: usize = i;
    while j < s.len() && digit(s[j])
        invariant
            i <= j <= s.len(),
            digits_end(s@, i as int) == digits_end(s@, j as int),
        decreases s.len() - j,
    {
        j = j + 1;
    }
    j
}

fn spells_word(s: &Vec<char>, i: usize, word: &Vec<char>) -> (r: bool)
    requires
        i <= s.len(),
    ensures
        r == spells(s@, i as int, word@),
{
    if s.len() - i != word.len() {
        return false;
    }
    let mut k: usize = 0;
    while k < word.len()
        invariant
            k <= word.len(),
            i + word.len() == s.len(),
            forall|m: int| 0 <= m < k ==> is_letter(#[trigger] s@[i + m], word@[m]),
        decreases word.len() - k,
    {
        if !letter(s[i + k], word[k]) {
            assert(!is_letter(s@[i + k], word@[k as int]));
            return false;
        }
        k = k + 1;
    }
    true
}

fn exponent_at(s: &Vec<char>, i: usize) -> (r: bool)
    requires
        i <= s.len(),
    ensures
        r == is_exponent(s@, i as int),
{
    if i >= s.len() || !letter(s[i], 'e') {
        return false;
    }
    let j: usize = if i + 1 < s.len() && sign(s[i + 1]) {
        i + 2
    } else {
        i + 1
    };
    let end = skip_digits(s, j);
    j < end && end == s.len()
}

fn number_at(s: &Vec<char>, i: usize) -> (r: bool)
    requires
        i <= s.len(),
    ensures
        r == is_number(s@, i as int),
{
    let a = skip_digits(s, i);
    if a < s.len() && s[a] == '.' {
        let b = skip_digits(s, a + 1);
        (a > i || b > a + 1) && (b == s.len() || exponent_at(s, b))
    } else {
        a > i && (a == s.len() || exponent_at(s, a))
    }
}

/// Decides whether a text reads as a floating-point number.
pub fn is_float_text(text: &str) -> (r: bool)
    ensures
        r == is_float_literal(text@),
{
    let s = chars_of(text);
    let start: usize = if s.len() > 0 && sign(s[0]) {
        1
    } else {
        0
    };
    let inf: Vec<char> = vec!['i', 'n', 'f'];
    let infinity: Vec<char> = vec!['i', 'n', 'f', 'i', 'n', 'i', 't', 'y'];
    let nan: Vec<char> = vec!['n', 'a', 'n'];
    assert(inf@ =~= inf_word());
    assert(infinity@ =~= infinity_word());
    assert(nan@ =~= nan_word());
    spells_word(&s, start, &inf) || spells_word(&s, start, &infinity) || spells_word(
        &s,
        start,
        &nan,
    ) || number_at(&s, start)
}

/// Splits a line into its fields.
pub fn split_fields(line: &Vec<char>) -> (fields: Vec<String>)
    ensures
        texts(fields@) == tokens(line@),
{
    let mut fields: Vec<String> = Vec::new();
    let mut pos: usize = 0;
    loop
        invariant
            pos <= line.len(),
            texts(fields@) + tokens_from(line@, pos as int) == tokens(line@),
        ensures
            texts(fields@) == tokens(line@),
        decreases line.len() - pos,
    {
        let a = skip_spaces(line, pos);
        if a >= line.len() {
            assert(texts(fields@) + Seq::<Seq<char>>::empty() =~= texts(fields@));
            break ;
        }
        let b = skip_word(line, a);
        let mut field = String::new();
        let mut k: usize = a;
        while k < b
            invariant
                a <= k <= b <= line.len(),
                field@ == line@.subrange(a as int, k as int),
            decreases b - k,
        {
            field.push(line[k]);
            assert(line@.subrange(a as int, k + 1) =~= line@.subrange(a as int, k as int).push(
                line@[k as int],
            ));
            k = k + 1;
        }
        let ghost before = texts(fields@);
        fields.push(field);
        assert(texts(fields@) =~= before.push(line@.subrange(a as int, b as int)));
        assert(texts(fields@) + tokens_from(line@, b as int) =~= before + tokens_from(
            line@,
            pos as int,
        ));
        pos = b;
    }
    fields
}

/// Lays out an annotation line: the five fields in order, separated by single
/// spaces.
pub fn format_line(fields: &AnnotationFields) -> (line: String)
    ensures
        line@ == line_text(fields@),
{
    proof {
        reveal_strlit(" ");
        assert(" "@ =~= seq![' ']);
    }
    let mut line = fields.class_id.clone();
    line.append(" ");
    line.append(fields.x_center.as_str());
    line.append(" ");
    line.append(fields.y_center.as_str());
    line.append(" ");
    line.append(fields.width.as_str());
    line.append(" ");
    line.append(fields.height.as_str());
    proof {
        let f = fields@;
        let sp = seq![' '];
        let f4 = f.drop_last();
        let f3 = f4.drop_last();
        let f2 = f3.drop_last();
        let f1 = f2.drop_last();
        assert(join(f1, sp) == f[0]);
        assert(join(f2, sp) == f[0] + sp + f[1]);
        assert(join(f3, sp) == join(f2, sp) + sp + f[2]);
        assert(join(f4, sp) == join(f3, sp) + sp + f[3]);
        assert(join(f, sp) == join(f4, sp) + sp + f[4]);
    }
    line
}

} // verus!
