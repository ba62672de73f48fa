//! The value encoder: converts one typed cell into a literal-safe text
//! fragment, with the ordered fallback across candidate representations.

use vstd::prelude::*;
use crate::text::chars_of;
use crate::text::contains_chars;
use crate::text::contains_text;
use crate::text::escaped;
use crate::text::i32_to_dec;
use crate::text::i64_to_dec;
use crate::text::int_rep;
use crate::text::quote_escaped;
use crate::text::quoted;
use crate::text::string_text_eq;

verus! {

/// One cell of a streamed row: a tagged union over the candidate primitive
/// kinds plus an absence marker. The caller extracts each cell from the live
/// row by trying the representations in this order — native text, 32-bit
/// integer, 64-bit integer, double precision, boolean, then raw text for the
/// final string-with-quoting stage — and keeps the first one the cell
/// accepts; `Unrepresentable` records that none succeeded.
pub enum CellValue {
    /// The cell is absent (SQL NULL).
    Absent,
    /// The cell as native text.
    Text(String),
    /// The cell as a 32-bit integer.
    Int32(i32),
    /// The cell as a 64-bit integer.
    Int64(i64),
    /// The decimal text of a double-precision cell, rendered at extraction;
    /// the engine carries only that text.
    Real(String),
    /// The cell as a boolean.
    Boolean(bool),
    /// The cell as text accepted only by the final string-with-quoting stage
    /// of the fallback (an enumerated value, for one); always rendered quoted.
    FallbackText(String),
    /// No candidate representation accepted the cell.
    Unrepresentable,
}

/// The mathematical shape of a cell.
pub ghost enum CellView {
    Absent,
    Text(Seq<char>),
    Int32(int),
    Int64(int),
    Real(Seq<char>),
    Boolean(bool),
    FallbackText(Seq<char>),
    Unrepresentable,
}

impl View for CellValue {
    type V = CellView;

    open spec fn view(&self) -> CellView {
        match self {
            CellValue::Absent => CellView::Absent,
            CellValue::Text(s) => CellView::Text(s@),
            CellValue::Int32(n) => CellView::Int32(*n as int),
            CellValue::Int64(n) => CellView::Int64(*n as int),
            CellValue::Real(t) => CellView::Real(t@),
            CellValue::Boolean(b) => CellView::Boolean(*b),
            CellValue::FallbackText(s) => CellView::FallbackText(s@),
            CellValue::Unrepresentable => CellView::Unrepresentable,
        }
    }
}

impl DeepView for CellValue {
    type V = CellView;

    open spec fn deep_view(&self) -> CellView {
        self.view()
    }
}

/// A declared type name carries a character/text/time/date family marker:
/// values of such a type are quoted when rendered.
pub open spec fn marker_type(t: Seq<char>) -> bool {
    ||| contains_text(t, "char"@)
    ||| t == "text"@
    ||| contains_text(t, "time"@)
    ||| contains_text(t, "date"@)
}

/// Reports whether the declared type name carries a character/text/time/date
/// family marker.
pub fn is_marker_type(t: &str) -> (r: bool)
    ensures
        r == marker_type(t@),
{
    let tc = chars_of(t);
    let m1 = chars_of("char");
    if contains_chars(&tc, &m1) {
        return true;
    }
    if string_text_eq(t, "text") {
        return true;
    }
    let m2 = chars_of("time");
    if contains_chars(&tc, &m2) {
        return true;
    }
    let m3 = chars_of("date");
    contains_chars(&tc, &m3)
}

/// The literal text of one cell. An absent cell is the literal `NULL`; text
/// under a marker type is quoted with every embedded single quote doubled;
/// text under any other type passes through unchanged; integers and
/// double-precision values render in decimal; booleans render as `TRUE` or
/// `FALSE`; text the final fallback stage accepted is always quoted; a cell
/// no representation accepted degrades to `NULL`.
pub open spec fn encoded_cell(c: CellView, marker: bool) -> Seq<char> {
    match c {
        CellView::Absent => "NULL"@,
        CellView::Text(s) => if marker {
            quoted(s)
        } else {
            s
        },
        CellView::Int32(n) => int_rep(n),
        CellView::Int64(n) => int_rep(n),
        CellView::Real(t) => t,
        CellView::Boolean(b) => if b {
            "TRUE"@
        } else {
            "FALSE"@
        },
        CellView::FallbackText(s) => quoted(s),
        CellView::Unrepresentable => "NULL"@,
    }
}

/// Encodes one cell into a literal-safe fragment under the given declared
/// column type.
pub fn encode_cell(c: &CellValue, declared_type: &str) -> (r: String)
    ensures
        r@ == encoded_cell(c@, marker_type(declared_type@)),
{
    match c {
        CellValue::Absent => "NULL".to_owned(),
        CellValue::Text(s) => {
            if is_marker_type(declared_type) {
                quote_escaped(s.as_str())
            } else {
                s.clone()
            }
        },
        CellValue::Int32(n) => i32_to_dec(*n),
        CellValue::Int64(n) => i64_to_dec(*n),
        CellValue::Real(t) => t.clone(),
        CellValue::Boolean(b) => {
            if *b {
                "TRUE".to_owned()
            } else {
                "FALSE".to_owned()
            }
        },
        CellValue::FallbackText(s) => quote_escaped(s.as_str()),
        CellValue::Unrepresentable => "NULL".to_owned(),
    }
}

/// Under a declared type carrying a character/text/time/date marker, a text
/// cell is wrapped in single quotes with every embedded single quote doubled.
pub proof fn lemma_marker_text_is_quoted(s: Seq<char>, t: Seq<char>)
    requires
        marker_type(t),
    ensures
        encoded_cell(CellView::Text(s), marker_type(t)) == quoted(s),
{
}

/// An absent cell encodes to exactly the literal `NULL` — never an empty
/// string and never a quoted empty string — whatever the declared type.
pub proof fn lemma_absent_encodes_exactly_null(marker: bool)
    ensures
        encoded_cell(CellView::Absent, marker) == "NULL"@,
        encoded_cell(CellView::Absent, marker) != Seq::<char>::empty(),
        encoded_cell(CellView::Absent, marker) != quoted(Seq::<char>::empty()),
{
    reveal_strlit("NULL");
    assert(escaped(Seq::<char>::empty()) == Seq::<char>::empty());
    assert(quoted(Seq::<char>::empty()).len() == 2);
}

} // verus!
