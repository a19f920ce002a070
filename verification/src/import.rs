//! Reading an annotation file back: its lines, the entries they hold, and
//! the line at which a malformed file is given up.
//!
//! A file is read all or nothing: the first malformed line fails the whole
//! read, and no entry is handed out from a file that has one.

use vstd::prelude::*;
use vstd::string::*;
use crate::line::{
    is_float_literal, is_float_text, split_fields, tokens, AnnotationFields,
};
use crate::path::{annotation_path, image_path_to_annotation_path, is_supported_image};
use crate::text::{chars_of, decimal, decimal_digits, texts};

verus! {

/// The index of the first newline at or after `i`, or the length of `s`
/// where there is none.
pub open spec fn line_end(s: Seq<char>, i: int) -> int
    decreases s.len() - i,
{
    if 0 <= i < s.len() && s[i] != '\n' {
        line_end(s, i + 1)
    } else {
        i
    }
}

/// The lines of `s` from index `i` on: the stretches between newlines. After
/// a final newline stands a last, empty line.
///
/// For an index within `s` the first test never holds; it is there to make
/// the definition total.
pub open spec fn lines_from(s: Seq<char>, i: int) -> Seq<Seq<char>>
    decreases s.len() - i,
{
    let e = line_end(s, i);
    if i < 0 || i > s.len() || e < i {
        Seq::empty()
    } else if e >= s.len() {
        seq![s.subrange(i, s.len() as int)]
    } else {
        seq![s.subrange(i, e)] + lines_from(s, e + 1)
    }
}

/// The lines of a text. A carriage return before a newline stays in its
/// line, where it counts as white space.
pub open spec fn lines(s: Seq<char>) -> Seq<Seq<char>> {
    lines_from(s, 0)
}

/// The fields of an annotation line, by position.
#[derive(Clone, Copy, Debug, PartialEq, Eq)]
pub enum Field {
    ClassId,
    XCenter,
    YCenter,
    Width,
    Height,
}

/// What is wrong with a line.
#[derive(Clone, Copy, Debug, PartialEq, Eq)]
pub enum LineProblem {
    /// The line has `found` fields, which is neither none nor five.
    FieldCount { found: usize },
    /// The line has five fields, and `field` is the first that does not read
    /// as a number.
    NotANumber { field: Field },
}

/// The first malformed line of a file. Lines are counted from 1.
#[derive(Clone, Copy, Debug, PartialEq, Eq)]
pub struct MalformedLine {
    pub line: usize,
    pub problem: LineProblem,
}

/// What is wrong with a line, if anything. A line without fields is blank,
/// and nothing is wrong with it.
pub open spec fn line_problem(line: Seq<char>) -> Option<LineProblem> {
    let t = tokens(line);
    if t.len() == 0 {
        None
    } else if t.len() != 5 {
        Some(LineProblem::FieldCount { found: t.len() as usize })
    } else if !is_float_literal(t[0]) {
        Some(LineProblem::NotANumber { field: Field::ClassId })
    } else if !is_float_literal(t[1]) {
        Some(LineProblem::NotANumber { field: Field::XCenter })
    } else if !is_float_literal(t[2]) {
        Some(LineProblem::NotANumber { field: Field::YCenter })
    } else if !is_float_literal(t[3]) {
        Some(LineProblem::NotANumber { field: Field::Width })
    } else if !is_float_literal(t[4]) {
        Some(LineProblem::NotANumber { field: Field::Height })
    } else {
        None
    }
}

/// Nothing is wrong with any of the lines.
pub open spec fn all_well_formed(ls: Seq<Seq<char>>) -> bool {
    forall|i: int| 0 <= i < ls.len() ==> line_problem(#[trigger] ls[i]) is None
}

/// One annotation read from a file.
#[derive(Debug)]
pub struct AnnotationEntry {
    /// The index of the entry's line in the file, counted from 0.
    pub line_index: usize,
    /// The identifier given to the box that is made of the entry.
    pub id: String,
    pub fields: AnnotationFields,
}

/// What an [`AnnotationEntry`] holds, as a mathematical value.
pub struct EntryView {
    pub line_index: nat,
    pub id: Seq<char>,
    pub fields: Seq<Seq<char>>,
}

impl View for AnnotationEntry {
    type V = EntryView;

    open spec fn view(&self) -> EntryView {
        EntryView { line_index: self.line_index as nat, id: self.id@, fields: self.fields@ }
    }
}

/// The views of a sequence of entries.
pub open spec fn entry_views(entries: Seq<AnnotationEntry>) -> Seq<EntryView> {
    entries.map_values(|e: AnnotationEntry| e@)
}

/// The identifier of the box read from the line with the given index.
pub open spec fn entry_id(line_index: nat) -> Seq<char> {
    "loaded_rect_"@ + decimal_digits(line_index)
}

/// The entries that the given lines hold: one for each line that is not
/// blank, in the order of the lines, each with its line's index and fields.
pub open spec fn entries_of(ls: Seq<Seq<char>>) -> Seq<EntryView>
    decreases ls.len(),
{
    if ls.len() == 0 {
        Seq::empty()
    } else if tokens(ls.last()).len() == 0 {
        entries_of(ls.drop_last())
    } else {
        entries_of(ls.drop_last()).push(
            EntryView {
                line_index: (ls.len() - 1) as nat,
                id: entry_id((ls.len() - 1) as nat),
                fields: tokens(ls.last()),
            },
        )
    }
}

/// The outcome of reading the given lines: the entries they hold where
/// nothing is wrong with any line, and else the first line with which
/// something is wrong.
pub open spec fn parsed(ls: Seq<Seq<char>>, r: Result<Seq<EntryView>, MalformedLine>) -> bool {
    match r {
        Ok(entries) => all_well_formed(ls) && entries == entries_of(ls),
        Err(e) => {
            &&& 1 <= e.line <= ls.len()
            &&& all_well_formed(ls.take(e.line - 1))
            &&& line_problem(ls[e.line - 1]) == Some(e.problem)
        },
    }
}

fn find_newline(s: &Vec<char>, i: usize) -> (j: usize)
    requires
        i <= s.len(),
    ensures
        i <= j <= s.len(),
        j == line_end(s@, i as int),
{
    let mut j: usize = i;
    while j < s.len() && s[j] != '\n'
        invariant
            i <= j <= s.len(),
            line_end(s@, i as int) == line_end(s@, j as int),
        decreases s.len() - j,
    {
        j = j + 1;
    }
    j
}

fn copy_range(s: &Vec<char>, from: usize, to: usize) -> (part: Vec<char>)
    requires
        from <= to <= s.len(),
    ensures
        part@ == s@.subrange(from as int, to as int),
{
    let mut part: Vec<char> = Vec::new();
    let mut k: usize = from;
    while k < to
        invariant
            from <= k <= to <= s.len(),
            part@ == s@.subrange(from as int, k as int),
        decreases to - k,
    {
        part.push(s[k]);
        assert(part@ =~= s@.subrange(from as int, k + 1));
        k = k + 1;
    }
    part
}

/// Checks the fields of a line that is not blank.
fn check_fields(fields: &Vec<String>) -> (problem: Option<LineProblem>)
    requires
        fields.len() > 0,
    ensures
        forall|line: Seq<char>| tokens(line) == texts(fields@) ==> line_problem(line) == problem,
{
    assert(texts(fields@).len() == fields.len());
    if fields.len() != 5 {
        return Some(LineProblem::FieldCount { found: fields.len() });
    }
    assert(forall|k: int| 0 <= k < 5 ==> texts(fields@)[k] == fields@[k]@);
    if !is_float_text(fields[0].as_str()) {
        Some(LineProblem::NotANumber { field: Field::ClassId })
    } else if !is_float_text(fields[1].as_str()) {
        Some(LineProblem::NotANumber { field: Field::XCenter })
    } else if !is_float_text(fields[2].as_str()) {
        Some(LineProblem::NotANumber { field: Field::YCenter })
    } else if !is_float_text(fields[3].as_str()) {
        Some(LineProblem::NotANumber { field: Field::Width })
    } else if !is_float_text(fields[4].as_str()) {
        Some(LineProblem::NotANumber { field: Field::Height })
    } else {
        None
    }
}

/// The identifier of the box read from the line with the given index.
pub fn loaded_rectangle_id(line_index: usize) -> (id: String)
    ensures
        id@ == entry_id(line_index as nat),
{
    let mut id = String::from_str("loaded_rect_");
    id.append(decimal(line_index).as_str());
    id
}

/// Reads the content of an annotation file.
///
/// Blank lines are passed over. Every other line must hold five fields that
/// each read as a number, and gives one entry. The first line that does not
/// fails the read.
pub fn parse_annotations(content: &str) -> (r: Result<Vec<AnnotationEntry>, MalformedLine>)
    ensures
        parsed(
            lines(content@),
            match r {
                Ok(entries) => Ok(entry_views(entries@)),
                Err(e) => Err(e),
            },
        ),
{
    let s = chars_of(content);
    let n = s.len();
    let mut entries: Vec<AnnotationEntry> = Vec::new();
    let mut pos: usize = 0;
    let mut index: usize = 0;
    let ghost mut done: Seq<Seq<char>> = Seq::empty();
    assert(entry_views(entries@) =~= entries_of(done));
    loop
        invariant_except_break
            done.len() == index,
            done + lines_from(s@, pos as int) == lines(s@),
        invariant
            s@ == content@,
            n == s.len(),
            index <= pos <= n,
            all_well_formed(done),
            entry_views(entries@) == entries_of(done),
        ensures
            done == lines(s@),
            all_well_formed(done),
            entry_views(entries@) == entries_of(done),
        decreases n - pos,
    {
        let e = find_newline(&s, pos);
        let line = copy_range(&s, pos, e);
        let fields = split_fields(&line);
        let ghost next = done.push(line@);
        proof {
            assert(next.drop_last() =~= done);
            assert(next.take(index as int) =~= done);
            if e >= n {
                assert(next =~= done + lines_from(s@, pos as int));
            } else {
                assert(next + lines_from(s@, e + 1) =~= done + lines_from(s@, pos as int));
            }
        }
        if fields.len() != 0 {
            assert(texts(fields@).len() == fields.len());
            assert(line@.len() > 0) by {
                if line@.len() == 0 {
                    assert(tokens(line@) =~= Seq::<Seq<char>>::empty());
                }
            }
            match check_fields(&fields) {
                Some(problem) => {
                    proof {
                        let ls = lines(s@);
                        assert(ls.take(index as int) =~= done);
                        assert(ls[index as int] == line@);
                    }
                    return Err(MalformedLine { line: index + 1, problem });
                },
                None => {},
            }
            assert(forall|k: int| 0 <= k < 5 ==> texts(fields@)[k] == fields@[k]@);
            let entry = AnnotationEntry {
                line_index: index,
                id: loaded_rectangle_id(index),
                fields: AnnotationFields {
                    class_id: fields[0].clone(),
                    x_center: fields[1].clone(),
                    y_center: fields[2].clone(),
                    width: fields[3].clone(),
                    height: fields[4].clone(),
                },
            };
            assert(entry.fields@ =~= tokens(line@));
            let ghost before = entry_views(entries@);
            entries.push(entry);
            assert(entry_views(entries@) =~= before.push(entry@));
        }
        proof {
            assert(all_well_formed(next)) by {
                assert forall|i: int| 0 <= i < next.len() implies line_problem(
                    #[trigger] next[i],
                ) is None by {
                    if i < done.len() {
                        assert(next[i] == done[i]);
                    }
                }
            }
            done = next;
        }
        if e >= n {
            break ;
        }
        pos = e + 1;
        index = index + 1;
    }
    Ok(entries)
}

/// The name of a field in messages.
pub open spec fn field_name(field: Field) -> Seq<char> {
    match field {
        Field::ClassId => "class ID"@,
        Field::XCenter => "x_center"@,
        Field::YCenter => "y_center"@,
        Field::Width => "width"@,
        Field::Height => "height"@,
    }
}

/// The message for a malformed line: it names the line, and either the
/// number of fields found or the field that is no number.
pub open spec fn malformed_text(e: MalformedLine) -> Seq<char> {
    match e.problem {
        LineProblem::FieldCount { found } => "Invalid line "@ + decimal_digits(e.line as nat)
            + ": expected 5 parts, got "@ + decimal_digits(found as nat),
        LineProblem::NotANumber { field } => "Invalid "@ + field_name(field) + " on line "@
            + decimal_digits(e.line as nat) + ": invalid float literal"@,
    }
}

impl MalformedLine {
    /// The message for this malformed line.
    pub fn message(&self) -> (m: String)
        ensures
            m@ == malformed_text(*self),
    {
        match self.problem {
            LineProblem::FieldCount { found } => {
                let mut m = String::from_str("Invalid line ");
                m.append(decimal(self.line).as_str());
                m.append(": expected 5 parts, got ");
                m.append(decimal(found).as_str());
                m
            },
            LineProblem::NotANumber { field } => {
                let name = match field {
                    Field::ClassId => "class ID",
                    Field::XCenter => "x_center",
                    Field::YCenter => "y_center",
                    Field::Width => "width",
                    Field::Height => "height",
                };
                let mut m = String::from_str("Invalid ");
                m.append(name);
                m.append(" on line ");
                m.append(decimal(self.line).as_str());
                m.append(": invalid float literal");
                m
            },
        }
    }
}

/// What was found at an image's annotation path.
#[derive(Debug)]
pub enum AnnotationFile {
    /// No file is there: the image has no annotations yet.
    Missing,
    /// A file is there and could not be read; the text is that of the error.
    Unreadable(String),
    /// The file's content.
    Content(String),
}

/// The outcome of reading what was found at an annotation path. No file
/// gives no entries, which is no error; a file that could not be read gives
/// the error's text behind a fixed prefix; a file's content gives its
/// entries or the message for its first malformed line.
pub open spec fn read_outcome(file: AnnotationFile, r: Result<Seq<EntryView>, Seq<char>>) -> bool {
    match file {
        AnnotationFile::Missing => r == Ok::<Seq<EntryView>, Seq<char>>(Seq::empty()),
        AnnotationFile::Unreadable(error) => r == Err::<Seq<EntryView>, Seq<char>>(
            "Failed to read annotation file: "@ + error@,
        ),
        AnnotationFile::Content(content) => match r {
            Ok(entries) => parsed(lines(content@), Ok(entries)),
            Err(m) => exists|e: MalformedLine| #[trigger]
                parsed(lines(content@), Err(e)) && m == malformed_text(e),
        },
    }
}

/// Finds the annotation file to read for an image, or gives the message
/// with which the read fails: an image in no supported format has none.
pub fn annotation_file_for(image_path: &str) -> (r: Result<String, String>)
    ensures
        r is Ok <==> is_supported_image(image_path@),
        r matches Ok(path) ==> path@ == annotation_path(image_path@),
        r matches Err(m) ==> m@ == "Unsupported image format"@,
{
    match image_path_to_annotation_path(image_path) {
        Some(path) => Ok(path),
        None => Err(String::from_str("Unsupported image format")),
    }
}

/// Reads the annotations of an image from what was found at its annotation
/// path.
pub fn read_annotations(file: AnnotationFile) -> (r: Result<Vec<AnnotationEntry>, String>)
    ensures
        read_outcome(
            file,
            match r {
                Ok(entries) => Ok(entry_views(entries@)),
                Err(m) => Err(m@),
            },
        ),
{
    match file {
        AnnotationFile::Missing => {
            let entries: Vec<AnnotationEntry> = Vec::new();
            assert(entry_views(entries@) =~= Seq::<EntryView>::empty());
            Ok(entries)
        },
        AnnotationFile::Unreadable(error) => {
            let mut m = String::from_str("Failed to read annotation file: ");
            m.append(error.as_str());
            Err(m)
        },
        AnnotationFile::Content(content) => match parse_annotations(content.as_str()) {
            Ok(entries) => Ok(entries),
            Err(e) => {
                let m = e.message();
                assert(parsed(lines(content@), Err(e)) && m@ == malformed_text(e));
                Err(m)
            },
        },
    }
}

} // verus!
