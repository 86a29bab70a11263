//! The recorded trace of page-description calls.
//!
//! Positions and sizes are whole micrometres measured from the top-left
//! corner of the page; font sizes are whole millipoints.

use vstd::prelude::*;
use crate::text::{str_eq, TextValue};

verus! {

/// A whole trace: the page format and the recorded calls in order.
#[derive(Clone, Debug)]
pub struct CoordinateData {
    pub page_width: i32,
    pub page_height: i32,
    pub orientation: String,
    pub unit: String,
    pub total_pages: u32,
    pub elements: Vec<Element>,
}

/// One recorded call.
#[derive(Clone, Debug)]
pub struct Element {
    /// Position in the trace; an ordering hint only.
    pub seq: u32,
    /// The name of the call.
    pub element_type: String,
    /// The page the call was recorded on; informational.
    pub page: u32,
    /// The decoded parameters of the call.
    pub params: Params,
}

/// The parameters of a call, decoded once when the trace is read.
#[derive(Clone, Debug)]
pub enum Params {
    MultiCell(MultiCellParams),
    Cell(CellParams),
    Line(LineParams),
    Link(LinkParams),
    SetFont(SetFontParams),
    SetFontSize(SetFontSizeParams),
    SetFillColor(SetFillColorParams),
    AddPage(AddPageParams),
    SetAbsX(SetAbsXParams),
    SetAbsY(SetAbsYParams),
    Ln(LnParams),
    /// Parameters that could not be decoded for the call they came with.
    Malformed,
}

/// Parameters of a bordered, optionally filled text cell.
#[derive(Clone, Debug)]
pub struct MultiCellParams {
    pub x: i32,
    pub y: i32,
    pub w: i32,
    pub h: i32,
    pub text: TextValue,
    /// The border flag where the trace holds an integer.
    pub border: Option<i64>,
    pub align: String,
    pub fill: bool,
    /// Line-break hint; not used for rendering.
    pub ln: i32,
}

/// Parameters of a single-line cell.
#[derive(Clone, Debug)]
pub struct CellParams {
    pub x: i32,
    pub y: i32,
    pub w: i32,
    pub h: i32,
    pub text: TextValue,
    pub border: Option<i64>,
    pub align: String,
    pub fill: bool,
    pub ln: i32,
    pub link: String,
}

/// End points of a straight line.
#[derive(Clone, Copy, Debug, PartialEq, Eq, Structural)]
pub struct LineParams {
    pub x1: i32,
    pub y1: i32,
    pub x2: i32,
    pub y2: i32,
}

/// Rectangle and target of a hyperlink.
#[derive(Clone, Debug)]
pub struct LinkParams {
    pub x: i32,
    pub y: i32,
    pub w: i32,
    pub h: i32,
    pub link: String,
}

/// A font selection, with or without a size.
#[derive(Clone, Debug)]
pub struct SetFontParams {
    pub family: String,
    pub style: String,
    pub size: Option<i32>,
}

/// A font size.
#[derive(Clone, Copy, Debug, PartialEq, Eq, Structural)]
pub struct SetFontSizeParams {
    pub size: i32,
}

/// Channels of a fill colour, each out of 255. A second channel of -1
/// selects a gray of the first channel's level.
#[derive(Clone, Copy, Debug, PartialEq, Eq, Structural)]
pub struct SetFillColorParams {
    pub col1: i32,
    pub col2: i32,
    pub col3: i32,
    pub col4: i32,
}

/// Format of a new page.
#[derive(Clone, Debug)]
pub struct AddPageParams {
    pub orientation: String,
    pub format: Vec<i32>,
}

/// An absolute horizontal cursor position.
#[derive(Clone, Copy, Debug, PartialEq, Eq, Structural)]
pub struct SetAbsXParams {
    pub x: i32,
}

/// An absolute vertical cursor position.
#[derive(Clone, Copy, Debug, PartialEq, Eq, Structural)]
pub struct SetAbsYParams {
    pub y: i32,
}

/// A line feed.
#[derive(Clone, Copy, Debug, PartialEq, Eq, Structural)]
pub struct LnParams {
    pub h: Option<i32>,
    pub y_before: i32,
}

/// The calls that a trace can record.
#[derive(Clone, Copy, Debug, PartialEq, Eq, Structural)]
pub enum CommandKind {
    AddPage,
    MultiCell,
    Cell,
    Line,
    Link,
    SetFont,
    SetFontSize,
    SetFillColor,
    SetAbsX,
    SetAbsY,
    Ln,
    /// A call this library does not know.
    Unknown,
}

/// The call that a name stands for.
pub open spec fn kind_of(tag: Seq<char>) -> CommandKind {
    if tag == "AddPage"@ {
        CommandKind::AddPage
    } else if tag == "MultiCell"@ {
        CommandKind::MultiCell
    } else if tag == "Cell"@ {
        CommandKind::Cell
    } else if tag == "Line"@ {
        CommandKind::Line
    } else if tag == "Link"@ {
        CommandKind::Link
    } else if tag == "SetFont"@ {
        CommandKind::SetFont
    } else if tag == "setFontSize"@ {
        CommandKind::SetFontSize
    } else if tag == "setFillColor"@ {
        CommandKind::SetFillColor
    } else if tag == "setAbsX"@ {
        CommandKind::SetAbsX
    } else if tag == "setAbsY"@ {
        CommandKind::SetAbsY
    } else if tag == "Ln"@ {
        CommandKind::Ln
    } else {
        CommandKind::Unknown
    }
}

/// Number of page additions among `elements`.
pub open spec fn added_pages(elements: Seq<Element>) -> nat
    decreases elements.len(),
{
    if elements.len() == 0 {
        0
    } else {
        added_pages(elements.drop_last()) + if kind_of(elements.last().element_type@)
            == CommandKind::AddPage {
            1nat
        } else {
            0nat
        }
    }
}

/// Reads the name of a call.
pub fn command_kind(tag: &str) -> (r: CommandKind)
    ensures
        r == kind_of(tag@),
{
    if str_eq(tag, "AddPage") {
        CommandKind::AddPage
    } else if str_eq(tag, "MultiCell") {
        CommandKind::MultiCell
    } else if str_eq(tag, "Cell") {
        CommandKind::Cell
    } else if str_eq(tag, "Line") {
        CommandKind::Line
    } else if str_eq(tag, "Link") {
        CommandKind::Link
    } else if str_eq(tag, "SetFont") {
        CommandKind::SetFont
    } else if str_eq(tag, "setFontSize") {
        CommandKind::SetFontSize
    } else if str_eq(tag, "setFillColor") {
        CommandKind::SetFillColor
    } else if str_eq(tag, "setAbsX") {
        CommandKind::SetAbsX
    } else if str_eq(tag, "setAbsY") {
        CommandKind::SetAbsY
    } else if str_eq(tag, "Ln") {
        CommandKind::Ln
    } else {
        CommandKind::Unknown
    }
}

/// Counts the page additions among `elements`.
pub fn count_added_pages(elements: &Vec<Element>) -> (n: usize)
    ensures
        n == added_pages(elements@),
{
    let mut n: usize = 0;
    let mut i: usize = 0;
    while i < elements.len()
        invariant
            i <= elements.len(),
            n == added_pages(elements@.take(i as int)),
            n <= i,
        decreases elements.len() - i,
    {
        proof {
            assert(elements@.take(i + 1).drop_last() =~= elements@.take(i as int));
        }
        if command_kind(elements[i].element_type.as_str()) == CommandKind::AddPage {
            n = n + 1;
        }
        i = i + 1;
    }
    proof {
        assert(elements@.take(elements@.len() as int) =~= elements@);
    }
    n
}

/// A prefix of a trace adds no more pages than the whole trace.
pub proof fn lemma_added_pages_prefix(elements: Seq<Element>, n: int)
    requires
        0 <= n <= elements.len(),
    ensures
        added_pages(elements.take(n)) <= added_pages(elements),
    decreases elements.len(),
{
    if n == elements.len() {
        assert(elements.take(n) =~= elements);
    } else {
        lemma_added_pages_prefix(elements.drop_last(), n);
        assert(elements.drop_last().take(n) =~= elements.take(n));
    }
}

} // verus!
