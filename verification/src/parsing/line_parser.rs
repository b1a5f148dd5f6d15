//! # Lines (LINIE)
//!
//! Each row starts with the line's 7-character id and a type:
//!
//! - `K`: the line key, which starts the line;
//! - `N T`: the short name; `L T`: the long name; `W`: the internal designation;
//! - `F`: the text colour; `B`: the background colour, as three 3-character
//!   numbers (red, green, blue).
//!
//! `0000001 K ch:1:SLNID:33:1`, then `0000001 F 255 128 064`.
use vstd::prelude::*;

use crate::error::{HResult, HrdfError, ParsingError, ParsingErrorV};
use crate::layout::{fields_at, short_at, short_of, sp_fields, Field, Sep, ValueV};
use crate::models::{Color, Line, LineView};
use crate::parsing::lines::{blank, file_error, is_blank, scan_failure, texts};
use crate::scan::{
    char_lit, i32_field, sp_char, sp_i32_field, sp_map, sp_or, sp_result,
    sp_tag, sp_then, sp_till_eol, tag_lit, till_eol, IResult, Scan, ScanError,
};
use crate::storage::{id_map_get, id_map_insert, id_map_new, id_map_remove, IdMap, ResourceStorage};
use crate::text::chars_of;
use vstd::string::StringExecFns;

verus! {

broadcast use vstd::string::group_string_axioms;

/// The rows of the file.
#[derive(Debug)]
pub enum LineType {
    Kline { id: i32, name: String },
    Wline { id: i32, internal_designation: String },
    NTline { id: i32, short_name: String },
    LTline { id: i32, long_name: String },
    Fline { id: i32, r: i16, g: i16, b: i16 },
    Bline { id: i32, r: i16, g: i16, b: i16 },
}

pub enum LineTypeView {
    Kline { id: i32, name: Seq<char> },
    Wline { id: i32, internal_designation: Seq<char> },
    NTline { id: i32, short_name: Seq<char> },
    LTline { id: i32, long_name: Seq<char> },
    Fline { id: i32, r: i16, g: i16, b: i16 },
    Bline { id: i32, r: i16, g: i16, b: i16 },
}

impl DeepView for LineType {
    type V = LineTypeView;

    open spec fn deep_view(&self) -> LineTypeView {
        match self {
            LineType::Kline { id, name } => LineTypeView::Kline { id: *id, name: name@ },
            LineType::Wline { id, internal_designation } => LineTypeView::Wline {
                id: *id,
                internal_designation: internal_designation@,
            },
            LineType::NTline { id, short_name } => LineTypeView::NTline { id: *id, short_name: short_name@ },
            LineType::LTline { id, long_name } => LineTypeView::LTline { id: *id, long_name: long_name@ },
            LineType::Fline { id, r, g, b } => LineTypeView::Fline { id: *id, r: *r, g: *g, b: *b },
            LineType::Bline { id, r, g, b } => LineTypeView::Bline { id: *id, r: *r, g: *g, b: *b },
        }
    }
}

/// The kinds of rows that carry a text.
#[derive(Debug, Clone, Copy, PartialEq, Eq, Structural)]
pub enum TextKind {
    Key,
    ShortName,
    LongName,
    InternalDesignation,
}

/// The type tag of a text row: `K `, `N T `, `L T ` or `W `, the first that matches.
pub open spec fn sp_text_kind(s: Seq<char>, p: usize) -> Scan<TextKind> {
    sp_or(
        sp_map(sp_tag(s, p, "K "@, true), |u: ()| TextKind::Key),
        sp_or(
            sp_map(sp_tag(s, p, "N T "@, true), |u: ()| TextKind::ShortName),
            sp_or(
                sp_map(sp_tag(s, p, "L T "@, true), |u: ()| TextKind::LongName),
                sp_map(sp_tag(s, p, "W "@, true), |u: ()| TextKind::InternalDesignation),
            ),
        ),
    )
}

pub open spec fn text_row(k: TextKind, id: i32, t: Seq<char>) -> LineTypeView {
    match k {
        TextKind::Key => LineTypeView::Kline { id, name: t },
        TextKind::ShortName => LineTypeView::NTline { id, short_name: t },
        TextKind::LongName => LineTypeView::LTline { id, long_name: t },
        TextKind::InternalDesignation => LineTypeView::Wline { id, internal_designation: t },
    }
}

/// A text row: id (7), a space, the type tag, and the text up to the end of the line.
pub open spec fn sp_row_k_nt_lt_w(s: Seq<char>) -> Scan<Option<LineTypeView>> {
    sp_then(
        sp_i32_field(s, 0, 7),
        |id: i32, q: usize|
            sp_then(
                sp_char(s, q, ' ', true),
                |u: (), q1: usize|
                    sp_then(
                        sp_text_kind(s, q1),
                        |k: TextKind, q2: usize|
                            sp_map(sp_till_eol(s, q2), |t: Seq<char>| Some(text_row(k, id, t))),
                    ),
            ),
    )
}

/// Red, green, blue: three 3-character numbers separated by spaces.
pub open spec fn rgb_layout() -> Seq<(Sep, Field)> {
    seq![
        (Sep::Nothing, Field::Short(3)),
        (Sep::Char(' '), Field::Short(3)),
        (Sep::Char(' '), Field::Short(3)),
    ]
}

/// The colour tag: `F ` (text colour, true) or `B ` (background, false).
pub open spec fn sp_color_kind(s: Seq<char>, p: usize) -> Scan<bool> {
    sp_or(
        sp_map(sp_tag(s, p, "F "@, true), |u: ()| true),
        sp_map(sp_tag(s, p, "B "@, true), |u: ()| false),
    )
}

/// A colour row: id (7), a space, the colour tag, and the colour.
pub open spec fn sp_row_f_b(s: Seq<char>) -> Scan<Option<LineTypeView>> {
    sp_then(
        sp_i32_field(s, 0, 7),
        |id: i32, q: usize|
            sp_then(
                sp_char(s, q, ' ', true),
                |u: (), q1: usize|
                    sp_then(
                        sp_color_kind(s, q1),
                        |fg: bool, q2: usize|
                            sp_map(
                                sp_fields(s, q2, rgb_layout()),
                                |v: Seq<ValueV>|
                                    if fg {
                                        Some(
                                            LineTypeView::Fline {
                                                id,
                                                r: short_of(v[0]),
                                                g: short_of(v[1]),
                                                b: short_of(v[2]),
                                            },
                                        )
                                    } else {
                                        Some(
                                            LineTypeView::Bline {
                                                id,
                                                r: short_of(v[0]),
                                                g: short_of(v[1]),
                                                b: short_of(v[2]),
                                            },
                                        )
                                    },
                            ),
                    ),
            ),
    )
}

pub open spec fn opt_line_view(r: Scan<Option<LineType>>) -> Scan<Option<LineTypeView>> {
    match r {
        Scan::Done(Some(l), q) => Scan::Done(Some(l.deep_view()), q),
        Scan::Done(None, q) => Scan::Done(None, q),
        Scan::Error => Scan::Error,
        Scan::Incomplete => Scan::Incomplete,
    }
}

fn text_kind_at(s: &[char], p: usize) -> (r: Scan<TextKind>)
    requires
        p <= s@.len(),
    ensures
        r == sp_text_kind(s@, p),
        r matches Scan::Done(_, q) ==> p <= q <= s@.len(),
{
    match tag_lit(s, p, "K ", true) {
        Scan::Done(_, q) => return Scan::Done(TextKind::Key, q),
        Scan::Incomplete => return Scan::Incomplete,
        Scan::Error => {},
    }
    match tag_lit(s, p, "N T ", true) {
        Scan::Done(_, q) => return Scan::Done(TextKind::ShortName, q),
        Scan::Incomplete => return Scan::Incomplete,
        Scan::Error => {},
    }
    match tag_lit(s, p, "L T ", true) {
        Scan::Done(_, q) => return Scan::Done(TextKind::LongName, q),
        Scan::Incomplete => return Scan::Incomplete,
        Scan::Error => {},
    }
    match tag_lit(s, p, "W ", true) {
        Scan::Done(_, q) => Scan::Done(TextKind::InternalDesignation, q),
        Scan::Incomplete => Scan::Incomplete,
        Scan::Error => Scan::Error,
    }
}

fn row_k_nt_lt_w_at(s: &[char]) -> (r: Scan<Option<LineType>>)
    ensures
        opt_line_view(r) == sp_row_k_nt_lt_w(s@),
        r matches Scan::Done(_, q) ==> q <= s@.len(),
{
    match i32_field(s, 0, 7) {
        Scan::Done(id, q) => match char_lit(s, q, ' ', true) {
            Scan::Done(_, q1) => match text_kind_at(s, q1) {
                Scan::Done(k, q2) => match till_eol(s, q2) {
                    Scan::Done(t, q3) => {
                        let row = match k {
                            TextKind::Key => LineType::Kline { id, name: t },
                            TextKind::ShortName => LineType::NTline { id, short_name: t },
                            TextKind::LongName => LineType::LTline { id, long_name: t },
                            TextKind::InternalDesignation => LineType::Wline {
                                id,
                                internal_designation: t,
                            },
                        };
                        Scan::Done(Some(row), q3)
                    },
                    _ => Scan::Error,
                },
                Scan::Error => Scan::Error,
                Scan::Incomplete => Scan::Incomplete,
            },
            Scan::Error => Scan::Error,
            Scan::Incomplete => Scan::Incomplete,
        },
        Scan::Error => Scan::Error,
        Scan::Incomplete => Scan::Incomplete,
    }
}

fn row_f_b_at(s: &[char]) -> (r: Scan<Option<LineType>>)
    ensures
        opt_line_view(r) == sp_row_f_b(s@),
        r matches Scan::Done(_, q) ==> q <= s@.len(),
{
    let layout = [
        (Sep::Nothing, Field::Short(3)),
        (Sep::Char(' '), Field::Short(3)),
        (Sep::Char(' '), Field::Short(3)),
    ];
    assert(layout@.skip(0) =~= rgb_layout());
    match i32_field(s, 0, 7) {
        Scan::Done(id, q) => match char_lit(s, q, ' ', true) {
            Scan::Done(_, q1) => {
                let kind = match tag_lit(s, q1, "F ", true) {
                    Scan::Done(_, q2) => Scan::Done(true, q2),
                    Scan::Incomplete => Scan::Incomplete,
                    Scan::Error => match tag_lit(s, q1, "B ", true) {
                        Scan::Done(_, q2) => Scan::Done(false, q2),
                        Scan::Incomplete => Scan::Incomplete,
                        Scan::Error => Scan::Error,
                    },
                };
                assert(kind == sp_color_kind(s@, q1));
                match kind {
                    Scan::Done(fg, q2) => match fields_at(s, q2, &layout, 0) {
                        Scan::Done(v, q3) => {
                            proof {
                                crate::layout::lemma_fields_len(s@, q2, layout@);
                            }
                            let (r, g, b) = (short_at(&v, 0), short_at(&v, 1), short_at(&v, 2));
                            if fg {
                                Scan::Done(Some(LineType::Fline { id, r, g, b }), q3)
                            } else {
                                Scan::Done(Some(LineType::Bline { id, r, g, b }), q3)
                            }
                        },
                        Scan::Error => Scan::Error,
                        Scan::Incomplete => Scan::Incomplete,
                    },
                    Scan::Error => Scan::Error,
                    Scan::Incomplete => Scan::Incomplete,
                }
            },
            Scan::Error => Scan::Error,
            Scan::Incomplete => Scan::Incomplete,
        },
        Scan::Error => Scan::Error,
        Scan::Incomplete => Scan::Incomplete,
    }
}

pub open spec fn opt_line_result(r: IResult<Option<LineType>>) -> Result<(Seq<char>, Option<LineTypeView>), ScanError> {
    match r {
        Ok((rest, Some(l))) => Ok((rest@, Some(l.deep_view()))),
        Ok((rest, None)) => Ok((rest@, None)),
        Err(e) => Err(e),
    }
}

/// Reads a text row (`K`, `N T`, `L T`, `W`).
pub fn row_k_nt_lt_w_combinator(input: &str) -> (r: IResult<Option<LineType>>)
    ensures
        opt_line_result(r) == sp_result(input@, sp_row_k_nt_lt_w(input@)),
{
    let s = chars_of(input);
    match row_k_nt_lt_w_at(s.as_slice()) {
        Scan::Done(l, q) => Ok((crate::text::string_of(s.as_slice(), q, s.len()), l)),
        Scan::Error => Err(ScanError::Error),
        Scan::Incomplete => Err(ScanError::Incomplete),
    }
}

/// Reads a colour row (`F`, `B`).
pub fn row_f_b_combinator(input: &str) -> (r: IResult<Option<LineType>>)
    ensures
        opt_line_result(r) == sp_result(input@, sp_row_f_b(input@)),
{
    let s = chars_of(input);
    match row_f_b_at(s.as_slice()) {
        Scan::Done(l, q) => Ok((crate::text::string_of(s.as_slice(), q, s.len()), l)),
        Scan::Error => Err(ScanError::Error),
        Scan::Incomplete => Err(ScanError::Incomplete),
    }
}

/// A row of either kind.
pub open spec fn sp_line_row(s: Seq<char>) -> Scan<Option<LineTypeView>> {
    sp_or(sp_row_k_nt_lt_w(s), sp_row_f_b(s))
}

/// The id that a row names.
pub open spec fn row_id(l: LineTypeView) -> i32 {
    match l {
        LineTypeView::Kline { id, .. } => id,
        LineTypeView::Wline { id, .. } => id,
        LineTypeView::NTline { id, .. } => id,
        LineTypeView::LTline { id, .. } => id,
        LineTypeView::Fline { id, .. } => id,
        LineTypeView::Bline { id, .. } => id,
    }
}

/// What a row other than `K` sets on its line.
pub open spec fn amend_line(line: LineView, l: LineTypeView) -> LineView {
    match l {
        LineTypeView::Kline { .. } => line,
        LineTypeView::Wline { internal_designation, .. } => LineView {
            internal_designation: Some(internal_designation),
            ..line
        },
        LineTypeView::NTline { short_name, .. } => LineView { short_name: Some(short_name), ..line },
        LineTypeView::LTline { long_name, .. } => LineView { long_name: Some(long_name), ..line },
        LineTypeView::Fline { r, g, b, .. } => LineView { text_color: Some(Color { r, g, b }), ..line },
        LineTypeView::Bline { r, g, b, .. } => LineView {
            background_color: Some(Color { r, g, b }),
            ..line
        },
    }
}

/// What a line of the file does: a `K` row starts a line under its id (a
/// later one replaces an earlier one); any other row sets a part of the line
/// of its id, which must exist and carry that id.
pub open spec fn line_step(m: Map<i32, LineView>, line: Seq<char>) -> Result<Map<i32, LineView>, ParsingErrorV> {
    match sp_line_row(line) {
        Scan::Done(Some(l), _) => match l {
            LineTypeView::Kline { id, name } => Ok(m.insert(id, LineView::fresh(id, name))),
            _ => {
                let id = row_id(l);
                if !m.contains_key(id) {
                    Err(ParsingErrorV::MissingRow('K'))
                } else if m[id].id != id {
                    Err(ParsingErrorV::IdMismatch(id, m[id].id))
                } else {
                    Ok(m.insert(id, amend_line(m[id], l)))
                }
            },
        },
        Scan::Done(None, _) => Err(ParsingErrorV::Unknown("Error missing line type"@)),
        r => Err(ParsingErrorV::Syntax(scan_failure(r))),
    }
}

pub open spec fn lines_view(m: Map<i32, Line>) -> Map<i32, LineView> {
    m.map_values(|x: Line| x.deep_view())
}

/// Reads a line of the file into the lines.  On an error nothing changes.
pub fn parse_line(line: &str, data: &mut IdMap<Line>) -> (r: Result<(), ParsingError>)
    ensures
        match line_step(lines_view(old(data)@), line@) {
            Ok(m) => r is Ok && lines_view(final(data)@) == m,
            Err(e) => r matches Err(x) && x.deep_view() == e && final(data)@ == old(data)@,
        },
{
    let s = chars_of(line);
    let row = match row_k_nt_lt_w_at(s.as_slice()) {
        Scan::Error => row_f_b_at(s.as_slice()),
        r => r,
    };
    let row = match row {
        Scan::Done(Some(row), _) => row,
        Scan::Done(None, _) => return Err(ParsingError::Unknown(String::from_str("Error missing line type"))),
        Scan::Error => return Err(ParsingError::Syntax(ScanError::Error)),
        Scan::Incomplete => return Err(ParsingError::Syntax(ScanError::Incomplete)),
    };
    let ghost before = lines_view(data@);
    let id = match &row {
        LineType::Kline { id, .. } => *id,
        LineType::Wline { id, .. } => *id,
        LineType::NTline { id, .. } => *id,
        LineType::LTline { id, .. } => *id,
        LineType::Fline { id, .. } => *id,
        LineType::Bline { id, .. } => *id,
    };
    if let LineType::Kline { id, name } = row {
        let l = Line::new(id, name);
        let ghost lv = l.deep_view();
        id_map_insert(data, id, l);
        assert(lines_view(data@) =~= before.insert(id, lv));
        return Ok(());
    }
    match id_map_get(data, id) {
        None => return Err(ParsingError::MissingRow('K')),
        Some(existing) => {
            if existing.id != id {
                return Err(ParsingError::IdMismatch(id, existing.id));
            }
        },
    }
    let mut l = match id_map_remove(data, id) {
        Some(l) => l,
        None => return Err(ParsingError::MissingRow('K')),
    };
    match row {
        LineType::Kline { .. } => {},
        LineType::Wline { internal_designation, .. } => l.internal_designation = Some(internal_designation),
        LineType::NTline { short_name, .. } => l.short_name = Some(short_name),
        LineType::LTline { long_name, .. } => l.long_name = Some(long_name),
        LineType::Fline { r, g, b, .. } => l.text_color = Some(Color::new(r, g, b)),
        LineType::Bline { r, g, b, .. } => l.background_color = Some(Color::new(r, g, b)),
    }
    let ghost lv = l.deep_view();
    id_map_insert(data, id, l);
    assert(lines_view(data@) =~= before.insert(id, lv));
    Ok(())
}

/// The lines after the first `n` lines of the file, blank lines skipped; or
/// the first line that does not read.
pub open spec fn lines_of(lines: Seq<Seq<char>>, n: nat) -> Result<Map<i32, LineView>, (nat, ParsingErrorV)>
    decreases n,
{
    if n == 0 {
        Ok(Map::empty())
    } else {
        match lines_of(lines, (n - 1) as nat) {
            Err(e) => Err(e),
            Ok(m) => if blank(lines[n - 1]) {
                Ok(m)
            } else {
                match line_step(m, lines[n - 1]) {
                    Ok(m2) => Ok(m2),
                    Err(e) => Err(((n - 1) as nat, e)),
                }
            },
        }
    }
}

pub proof fn lemma_lines_error_stays(lines: Seq<Seq<char>>, n: nat, m: nat)
    requires
        n <= m,
        lines_of(lines, n) is Err,
    ensures
        lines_of(lines, m) == lines_of(lines, n),
    decreases m - n,
{
    if n < m {
        lemma_lines_error_stays(lines, n, (m - 1) as nat);
    }
}

/// Reads the lines of the LINIE file `file` into the lines, by id.
pub fn parse(file: &str, lines: &Vec<String>) -> (r: HResult<ResourceStorage<Line>>)
    ensures
        match (r, lines_of(texts(lines@), lines@.len())) {
            (Ok(st), Ok(m)) => lines_view(st.view()) == m,
            (Err(e), Err((n, why))) => file_error(e, why, file@, lines@[n as int]@, n),
            _ => false,
        },
{
    let mut data: IdMap<Line> = id_map_new();
    assert(lines_view(data@) =~= Map::empty());
    let mut i: usize = 0;
    while i < lines.len()
        invariant
            0 <= i <= lines@.len(),
            lines_of(texts(lines@), i as nat) == Ok::<_, (nat, ParsingErrorV)>(lines_view(data@)),
        decreases lines@.len() - i,
    {
        let line = &lines[i];
        assert(texts(lines@)[i as int] == line@);
        if !is_blank(line.as_str()) {
            match parse_line(line.as_str(), &mut data) {
                Ok(()) => {},
                Err(e) => {
                    proof {
                        lemma_lines_error_stays(texts(lines@), (i + 1) as nat, lines@.len());
                    }
                    return Err(
                        HrdfError::Parsing {
                            error: e,
                            file: String::from_str(file),
                            line: line.clone(),
                            line_number: i,
                        },
                    );
                },
            }
        }
        i = i + 1;
    }
    Ok(ResourceStorage::new(data))
}

/// Each line is under its own number.
pub open spec fn lines_keyed(m: Map<i32, LineView>) -> bool {
    forall|k: i32| #[trigger] m.contains_key(k) ==> m[k].id == k
}

/// The lines that LINIE gives are each under their own number, so that a
/// row naming a line never meets one under another number.
pub proof fn lemma_lines_keyed(lines: Seq<Seq<char>>, n: nat)
    ensures
        lines_of(lines, n) matches Ok(m) ==> lines_keyed(m),
    decreases n,
{
    if n > 0 {
        lemma_lines_keyed(lines, (n - 1) as nat);
        match lines_of(lines, (n - 1) as nat) {
            Ok(m) => {
                if !blank(lines[n - 1]) {
                    match sp_line_row(lines[n - 1]) {
                        Scan::Done(Some(l), _) => {
                            assert(amend_line(m[row_id(l)], l).id == m[row_id(l)].id);
                        },
                        _ => {},
                    }
                }
            },
            Err(_) => {},
        }
    }
}

} // verus!
