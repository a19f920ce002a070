//! What is written can be read back: splitting undoes joining, for fields
//! within a line and for lines within a file, and the content laid out for
//! an export reads back as the very fields that went into it.

use vstd::prelude::*;
use crate::export::{content_text, line_texts};
use crate::import::{
    entries_of, entry_id, line_end, line_problem, lines, lines_from, parsed, EntryView,
};
use crate::line::{
    digits_end, inf_word, infinity_word, is_digit, is_exponent, is_float_literal, is_letter,
    is_number, is_sign, is_whitespace, line_text, nan_word, spaces_end, spells, tokens,
    tokens_from, word_end, AnnotationFields,
};
use crate::text::join;

verus! {

/// A word: one character or more, none of them white space.
pub open spec fn is_word(w: Seq<char>) -> bool {
    w.len() > 0 && forall|k: int| 0 <= k < w.len() ==> !is_whitespace(#[trigger] w[k])
}

/// A text without a newline.
pub open spec fn is_single_line(l: Seq<char>) -> bool {
    forall|k: int| 0 <= k < l.len() ==> #[trigger] l[k] != '\n'
}

proof fn spaces_end_is(s: Seq<char>, i: int, j: int)
    requires
        0 <= i <= j <= s.len(),
        forall|k: int| i <= k < j ==> is_whitespace(#[trigger] s[k]),
        j < s.len() ==> !is_whitespace(s[j]),
    ensures
        spaces_end(s, i) == j,
    decreases j - i,
{
    if i < j {
        assert(is_whitespace(s[i]));
        spaces_end_is(s, i + 1, j);
    }
}

proof fn spaces_end_found(s: Seq<char>, i: int)
    requires
        0 <= i <= s.len(),
    ensures
        i <= spaces_end(s, i) <= s.len(),
        forall|k: int| i <= k < spaces_end(s, i) ==> is_whitespace(#[trigger] s[k]),
        spaces_end(s, i) < s.len() ==> !is_whitespace(s[spaces_end(s, i)]),
    decreases s.len() - i,
{
    if i < s.len() && is_whitespace(s[i]) {
        spaces_end_found(s, i + 1);
    }
}

proof fn word_end_is(s: Seq<char>, i: int, j: int)
    requires
        0 <= i <= j <= s.len(),
        forall|k: int| i <= k < j ==> !is_whitespace(#[trigger] s[k]),
        j < s.len() ==> is_whitespace(s[j]),
    ensures
        word_end(s, i) == j,
    decreases j - i,
{
    if i < j {
        assert(!is_whitespace(s[i]));
        word_end_is(s, i + 1, j);
    }
}

proof fn word_end_found(s: Seq<char>, i: int)
    requires
        0 <= i <= s.len(),
    ensures
        i <= word_end(s, i) <= s.len(),
        forall|k: int| i <= k < word_end(s, i) ==> !is_whitespace(#[trigger] s[k]),
        word_end(s, i) < s.len() ==> is_whitespace(s[word_end(s, i)]),
    decreases s.len() - i,
{
    if i < s.len() && !is_whitespace(s[i]) {
        word_end_found(s, i + 1);
    }
}

proof fn line_end_is(s: Seq<char>, i: int, j: int)
    requires
        0 <= i <= j <= s.len(),
        forall|k: int| i <= k < j ==> #[trigger] s[k] != '\n',
        j < s.len() ==> s[j] == '\n',
    ensures
        line_end(s, i) == j,
    decreases j - i,
{
    if i < j {
        assert(s[i] != '\n');
        line_end_is(s, i + 1, j);
    }
}

proof fn line_end_found(s: Seq<char>, i: int)
    requires
        0 <= i <= s.len(),
    ensures
        i <= line_end(s, i) <= s.len(),
        forall|k: int| i <= k < line_end(s, i) ==> #[trigger] s[k] != '\n',
        line_end(s, i) < s.len() ==> s[line_end(s, i)] == '\n',
    decreases s.len() - i,
{
    if i < s.len() && s[i] != '\n' {
        line_end_found(s, i + 1);
    }
}

proof fn tokens_after_appended_word(s: Seq<char>, w: Seq<char>, i: int)
    requires
        is_word(w),
        0 <= i <= s.len(),
    ensures
        tokens_from(s + seq![' '] + w, i) == tokens_from(s, i).push(w),
    decreases s.len() - i,
{
    let u = s + seq![' '] + w;
    let n = s.len() as int;
    assert(is_whitespace(' '));
    assert(u[n] == ' ');
    assert(forall|k: int| 0 <= k < n ==> u[k] == s[k]);
    assert(forall|k: int| 0 <= k < w.len() ==> u[n + 1 + k] == w[k]);
    spaces_end_found(s, i);
    let a = spaces_end(s, i);
    if a == n {
        assert(!is_whitespace(u[n + 1])) by {
            assert(u[n + 1 + 0] == w[0]);
        }
        spaces_end_is(u, i, n + 1);
        assert forall|k: int| n + 1 <= k < u.len() implies !is_whitespace(#[trigger] u[k]) by {
            assert(u[n + 1 + (k - n - 1)] == w[k - n - 1]);
        }
        word_end_is(u, n + 1, u.len() as int);
        assert(tokens_from(u, u.len() as int) =~= Seq::<Seq<char>>::empty());
        assert(u.subrange(n + 1, u.len() as int) =~= w);
        assert(tokens_from(s, i) =~= Seq::<Seq<char>>::empty());
        assert(tokens_from(u, i) =~= seq![w] + tokens_from(u, u.len() as int));
        assert(tokens_from(u, i) =~= tokens_from(s, i).push(w));
    } else {
        word_end_found(s, a);
        let b = word_end(s, a);
        assert(!is_whitespace(s[a]));
        assert(a < b);
        spaces_end_is(u, i, a);
        word_end_is(u, a, b);
        tokens_after_appended_word(s, w, b);
        assert(u.subrange(a, b) =~= s.subrange(a, b));
        assert(tokens_from(s, i) == seq![s.subrange(a, b)] + tokens_from(s, b));
        assert(tokens_from(u, i) == seq![u.subrange(a, b)] + tokens_from(u, b));
        assert(tokens_from(u, i) =~= tokens_from(s, i).push(w));
    }
}

/// The fields of a line made of words are those words: splitting a line
/// undoes joining its fields.
pub proof fn tokens_of_joined_words(fields: Seq<Seq<char>>)
    requires
        fields.len() > 0,
        forall|k: int| 0 <= k < fields.len() ==> is_word(#[trigger] fields[k]),
    ensures
        tokens(line_text(fields)) == fields,
    decreases fields.len(),
{
    if fields.len() == 1 {
        let w = fields[0];
        assert(is_word(w));
        spaces_end_is(w, 0, 0);
        word_end_is(w, 0, w.len() as int);
        assert(tokens_from(w, w.len() as int) =~= Seq::<Seq<char>>::empty());
        assert(w.subrange(0, w.len() as int) =~= w);
        assert(tokens_from(w, 0) =~= seq![w] + tokens_from(w, w.len() as int));
        assert(tokens(line_text(fields)) =~= fields);
    } else {
        let init = fields.drop_last();
        let last = fields.last();
        assert forall|k: int| 0 <= k < init.len() implies is_word(#[trigger] init[k]) by {
            assert(init[k] == fields[k]);
        }
        tokens_of_joined_words(init);
        tokens_after_appended_word(line_text(init), last, 0);
        assert(tokens(line_text(fields)) =~= fields);
    }
}

proof fn lines_after_appended_line(s: Seq<char>, l: Seq<char>, i: int)
    requires
        is_single_line(l),
        0 <= i <= s.len(),
    ensures
        lines_from(s + seq!['\n'] + l, i) == lines_from(s, i).push(l),
    decreases s.len() - i,
{
    let u = s + seq!['\n'] + l;
    let n = s.len() as int;
    assert(u[n] == '\n');
    assert(forall|k: int| 0 <= k < n ==> u[k] == s[k]);
    line_end_found(s, i);
    let e = line_end(s, i);
    line_end_is(u, i, e);
    assert(u.subrange(i, e) =~= s.subrange(i, e));
    if e == n {
        assert forall|k: int| n + 1 <= k < u.len() implies #[trigger] u[k] != '\n' by {
            assert(u[k] == l[k - n - 1]);
        }
        line_end_is(u, n + 1, u.len() as int);
        assert(u.subrange(n + 1, u.len() as int) =~= l);
        assert(lines_from(u, n + 1) =~= seq![l]);
        assert(s.subrange(i, e) =~= s.subrange(i, s.len() as int));
        assert(lines_from(u, i) =~= lines_from(s, i).push(l));
    } else {
        lines_after_appended_line(s, l, e + 1);
        assert(lines_from(u, i) =~= lines_from(s, i).push(l));
    }
}

/// The lines of a text made of single lines are those lines: splitting a
/// text undoes joining its lines.
pub proof fn lines_of_joined_lines(ls: Seq<Seq<char>>)
    requires
        ls.len() > 0,
        forall|k: int| 0 <= k < ls.len() ==> is_single_line(#[trigger] ls[k]),
    ensures
        lines(join(ls, seq!['\n'])) == ls,
    decreases ls.len(),
{
    if ls.len() == 1 {
        let l = ls[0];
        assert(is_single_line(l));
        line_end_is(l, 0, l.len() as int);
        assert(l.subrange(0, l.len() as int) =~= l);
        assert(lines(join(ls, seq!['\n'])) =~= ls);
    } else {
        let init = ls.drop_last();
        assert forall|k: int| 0 <= k < init.len() implies is_single_line(#[trigger] init[k]) by {
            assert(init[k] == ls[k]);
        }
        lines_of_joined_lines(init);
        lines_after_appended_line(join(init, seq!['\n']), ls.last(), 0);
        assert(lines(join(ls, seq!['\n'])) =~= ls);
    }
}

proof fn tokens_from_are_words(s: Seq<char>, i: int)
    requires
        0 <= i <= s.len(),
    ensures
        forall|k: int|
            0 <= k < tokens_from(s, i).len() ==> is_word(#[trigger] tokens_from(s, i)[k]),
    decreases s.len() - i,
{
    spaces_end_found(s, i);
    let a = spaces_end(s, i);
    if a < s.len() {
        word_end_found(s, a);
        let b = word_end(s, a);
        assert(!is_whitespace(s[a]));
        assert(a < b);
        tokens_from_are_words(s, b);
        let first = s.subrange(a, b);
        let t = tokens_from(s, i);
        assert(t == seq![first] + tokens_from(s, b));
        assert(is_word(first)) by {
            assert forall|m: int| 0 <= m < first.len() implies !is_whitespace(
                #[trigger] first[m],
            ) by {
                assert(first[m] == s[a + m]);
            }
        }
        assert forall|k: int| 0 <= k < t.len() implies is_word(#[trigger] t[k]) by {
            if k > 0 {
                assert(t[k] == tokens_from(s, b)[k - 1]);
            }
        }
    }
}

/// Every field of a line is a word.
pub proof fn tokens_are_words(line: Seq<char>)
    ensures
        forall|k: int| 0 <= k < tokens(line).len() ==> is_word(#[trigger] tokens(line)[k]),
{
    tokens_from_are_words(line, 0);
}

proof fn join_after_first(first: Seq<char>, rest: Seq<Seq<char>>, sep: Seq<char>)
    requires
        rest.len() > 0,
    ensures
        join(seq![first] + rest, sep) == first + sep + join(rest, sep),
    decreases rest.len(),
{
    let all = seq![first] + rest;
    if rest.len() == 1 {
        assert(all.drop_last() =~= seq![first]);
        assert(all.last() == rest[0]);
        assert(join(seq![first], sep) == first);
        assert(join(rest, sep) == rest[0]);
        assert(join(all, sep) == join(all.drop_last(), sep) + sep + all.last());
    } else {
        assert(all.drop_last() =~= seq![first] + rest.drop_last());
        assert(all.last() == rest.last());
        join_after_first(first, rest.drop_last(), sep);
        assert(join(all, sep) =~= first + sep + join(rest, sep));
    }
}

proof fn lines_from_rejoin(s: Seq<char>, i: int)
    requires
        0 <= i <= s.len(),
    ensures
        lines_from(s, i).len() > 0,
        join(lines_from(s, i), seq!['\n']) == s.subrange(i, s.len() as int),
        forall|k: int|
            0 <= k < lines_from(s, i).len() ==> is_single_line(#[trigger] lines_from(s, i)[k]),
    decreases s.len() - i,
{
    line_end_found(s, i);
    let e = line_end(s, i);
    let ls = lines_from(s, i);
    if e < s.len() {
        lines_from_rejoin(s, e + 1);
        let first = s.subrange(i, e);
        let rest = lines_from(s, e + 1);
        assert(ls == seq![first] + rest);
        join_after_first(first, rest, seq!['\n']);
        assert(first + seq!['\n'] + s.subrange(e + 1, s.len() as int) =~= s.subrange(
            i,
            s.len() as int,
        ));
        assert forall|k: int| 0 <= k < ls.len() implies is_single_line(#[trigger] ls[k]) by {
            if k > 0 {
                assert(ls[k] == rest[k - 1]);
            }
        }
    } else {
        assert(ls =~= seq![s.subrange(i, s.len() as int)]);
    }
}

/// A text splits into single lines, at least one, which joined by newlines
/// give the text again: splitting into lines loses nothing.
pub proof fn lines_rejoin(s: Seq<char>)
    ensures
        lines(s).len() > 0,
        join(lines(s), seq!['\n']) == s,
        forall|k: int| 0 <= k < lines(s).len() ==> is_single_line(#[trigger] lines(s)[k]),
{
    lines_from_rejoin(s, 0);
    assert(s.subrange(0, s.len() as int) =~= s);
}

proof fn digits_end_found(s: Seq<char>, i: int)
    requires
        0 <= i <= s.len(),
    ensures
        i <= digits_end(s, i) <= s.len(),
        forall|k: int| i <= k < digits_end(s, i) ==> is_digit(#[trigger] s[k]),
    decreases s.len() - i,
{
    if i < s.len() && is_digit(s[i]) {
        digits_end_found(s, i + 1);
    }
}

proof fn spelled_word_has_no_space(s: Seq<char>, i: int, word: Seq<char>)
    requires
        0 <= i,
        spells(s, i, word),
        forall|k: int| 0 <= k < word.len() ==> 0x61 <= #[trigger] word[k] as u32 <= 0x7A,
    ensures
        forall|j: int| i <= j < s.len() ==> !is_whitespace(#[trigger] s[j]),
{
    assert forall|j: int| i <= j < s.len() implies !is_whitespace(#[trigger] s[j]) by {
        let k = j - i;
        assert(is_letter(s[i + k], word[k]));
        assert(0x61 <= word[k] as u32 <= 0x7A);
    }
}

proof fn exponent_has_no_space(s: Seq<char>, i: int)
    requires
        is_exponent(s, i),
    ensures
        forall|j: int| i <= j < s.len() ==> !is_whitespace(#[trigger] s[j]),
{
    let d = if i + 1 < s.len() && is_sign(s[i + 1]) {
        i + 2
    } else {
        i + 1
    };
    digits_end_found(s, d);
    assert forall|j: int| i <= j < s.len() implies !is_whitespace(#[trigger] s[j]) by {
        if j >= d {
            assert(is_digit(s[j]));
        }
    }
}

/// A text that reads as a number is a word: it is not empty and holds no
/// white space.
pub proof fn float_literal_is_word(s: Seq<char>)
    requires
        is_float_literal(s),
    ensures
        is_word(s),
{
    let start: int = if s.len() > 0 && is_sign(s[0]) {
        1
    } else {
        0
    };
    if spells(s, start, inf_word()) {
        spelled_word_has_no_space(s, start, inf_word());
    } else if spells(s, start, infinity_word()) {
        spelled_word_has_no_space(s, start, infinity_word());
    } else if spells(s, start, nan_word()) {
        spelled_word_has_no_space(s, start, nan_word());
    } else {
        assert(is_number(s, start));
        digits_end_found(s, start);
        let a = digits_end(s, start);
        if a < s.len() && s[a] == '.' {
            digits_end_found(s, a + 1);
            let b = digits_end(s, a + 1);
            if b < s.len() {
                exponent_has_no_space(s, b);
            }
            assert forall|j: int| start <= j < s.len() implies !is_whitespace(#[trigger] s[j]) by {
                if j < a {
                    assert(is_digit(s[j]));
                } else if a < j < b {
                    assert(is_digit(s[j]));
                }
            }
        } else {
            if a < s.len() {
                exponent_has_no_space(s, a);
            }
            assert forall|j: int| start <= j < s.len() implies !is_whitespace(#[trigger] s[j]) by {
                if j < a {
                    assert(is_digit(s[j]));
                }
            }
        }
    }
    assert forall|j: int| 0 <= j < s.len() implies !is_whitespace(#[trigger] s[j]) by {
        if j < start {
            assert(is_sign(s[0]));
        }
    }
}

proof fn joined_words_are_single_line(fields: Seq<Seq<char>>)
    requires
        forall|k: int| 0 <= k < fields.len() ==> is_word(#[trigger] fields[k]),
    ensures
        is_single_line(line_text(fields)),
    decreases fields.len(),
{
    assert(is_whitespace('\n'));
    if fields.len() == 1 {
        assert(is_word(fields[0]));
    } else if fields.len() > 1 {
        let init = fields.drop_last();
        let last = fields.last();
        assert forall|k: int| 0 <= k < init.len() implies is_word(#[trigger] init[k]) by {
            assert(init[k] == fields[k]);
        }
        joined_words_are_single_line(init);
        assert(is_word(last));
        let head = line_text(init);
        let l = line_text(fields);
        assert(l == head + seq![' '] + last);
        assert forall|k: int| 0 <= k < l.len() implies #[trigger] l[k] != '\n' by {
            if k < head.len() {
                assert(l[k] == head[k]);
            } else if k > head.len() {
                assert(l[k] == last[k - head.len() - 1]);
            }
        }
    }
}

/// Every field of the line reads as a number.
pub open spec fn holds_numbers(fields: AnnotationFields) -> bool {
    forall|k: int| 0 <= k < 5 ==> is_float_literal(#[trigger] fields@[k])
}

/// The entries that stand for the given boxes when they are read back: one
/// for each box, in order, on the line with the box's index and with the
/// box's fields.
pub open spec fn entries_for(rectangles: Seq<AnnotationFields>) -> Seq<EntryView> {
    Seq::new(
        rectangles.len(),
        |i: int|
            EntryView {
                line_index: i as nat,
                id: entry_id(i as nat),
                fields: rectangles[i]@,
            },
    )
}

proof fn entries_of_line_texts(rectangles: Seq<AnnotationFields>)
    requires
        forall|i: int|
            0 <= i < rectangles.len() ==> tokens(line_text(#[trigger] rectangles[i]@))
                == rectangles[i]@,
    ensures
        entries_of(line_texts(rectangles)) == entries_for(rectangles),
    decreases rectangles.len(),
{
    if rectangles.len() == 0 {
        assert(entries_of(line_texts(rectangles)) =~= entries_for(rectangles));
    } else {
        let init = rectangles.drop_last();
        let last = rectangles.last();
        assert forall|i: int| 0 <= i < init.len() implies tokens(line_text(#[trigger] init[i]@))
            == init[i]@ by {
            assert(init[i] == rectangles[i]);
        }
        entries_of_line_texts(init);
        assert(line_texts(rectangles).drop_last() =~= line_texts(init));
        assert(line_texts(rectangles).last() == line_text(last@));
        assert(tokens(line_text(last@)) == last@);
        assert(last@.len() == 5);
        assert(entries_of(line_texts(rectangles)) =~= entries_for(rectangles));
    }
}

/// Reading back what an export lays out gives the fields that went in.
///
/// For boxes whose fields all read as numbers, every line of the content is
/// well formed, and the entries read from it are the boxes' fields, one
/// entry for each box, in order, on the line with the box's index.
pub proof fn exported_content_reads_back(rectangles: Seq<AnnotationFields>)
    requires
        forall|i: int| 0 <= i < rectangles.len() ==> holds_numbers(#[trigger] rectangles[i]),
    ensures
        parsed(lines(content_text(rectangles)), Ok(entries_for(rectangles))),
{
    let ls = line_texts(rectangles);
    assert forall|i: int| 0 <= i < rectangles.len() implies {
        &&& tokens(line_text(#[trigger] rectangles[i]@)) == rectangles[i]@
        &&& is_single_line(line_text(rectangles[i]@))
    } by {
        let f = rectangles[i]@;
        assert(holds_numbers(rectangles[i]));
        assert forall|k: int| 0 <= k < f.len() implies is_word(#[trigger] f[k]) by {
            assert(is_float_literal(f[k]));
            float_literal_is_word(f[k]);
        }
        tokens_of_joined_words(f);
        joined_words_are_single_line(f);
    }
    entries_of_line_texts(rectangles);
    if rectangles.len() == 0 {
        let empty = Seq::<char>::empty();
        assert(ls =~= Seq::<Seq<char>>::empty());
        assert(content_text(rectangles) =~= empty);
        assert(line_end(empty, 0) == 0);
        assert(empty.subrange(0, 0) =~= empty);
        assert(lines(empty) =~= seq![empty]);
        assert(tokens(empty) =~= Seq::<Seq<char>>::empty());
        assert(seq![empty].drop_last() =~= Seq::<Seq<char>>::empty());
        assert(entries_of(seq![empty]) =~= entries_for(rectangles));
    } else {
        assert forall|k: int| 0 <= k < ls.len() implies is_single_line(#[trigger] ls[k]) by {
            assert(ls[k] == line_text(rectangles[k]@));
        }
        lines_of_joined_lines(ls);
        assert forall|i: int| 0 <= i < ls.len() implies line_problem(#[trigger] ls[i]) is None by {
            let f = rectangles[i]@;
            assert(ls[i] == line_text(f));
            assert(tokens(ls[i]) == f);
            assert(holds_numbers(rectangles[i]));
            assert(is_float_literal(f[0]));
            assert(is_float_literal(f[1]));
            assert(is_float_literal(f[2]));
            assert(is_float_literal(f[3]));
            assert(is_float_literal(f[4]));
        }
    }
}

} // verus!
