//! The parts of the status bar and the texts they show.

use crate::numerals::{decimal, decimal_string};
use crate::position::Position;
use vstd::prelude::*;
use vstd::string::StringExecFns;

verus! {

/// The text that shows a caret position.
pub open spec fn position_text(line: usize, column: usize) -> Seq<char> {
    "Ln "@ + decimal(line as nat) + ", Col "@ + decimal(column as nat)
}

/// The text that shows the size of a selection.
pub open spec fn selection_text(char_count: usize, line_count: usize) -> Seq<char> {
    if line_count > 1 {
        decimal(char_count as nat) + " chars ("@ + decimal(line_count as nat) + " lines)"@
    } else {
        decimal(char_count as nat) + " chars"@
    }
}

/// Where the caret is, counted from 1.
#[derive(Debug, Clone)]
pub struct PositionIndicator {
    pub line: usize,
    pub column: usize,
}

impl PositionIndicator {
    pub fn new() -> (r: PositionIndicator)
        ensures
            r.line == 1,
            r.column == 1,
    {
        PositionIndicator { line: 1, column: 1 }
    }

    /// Shows a position of the buffer, which counts from 0.
    pub fn update(&mut self, position: &Position)
        requires
            position.line < usize::MAX,
            position.column < usize::MAX,
        ensures
            final(self).line == position.line + 1,
            final(self).column == position.column + 1,
    {
        self.line = position.line + 1;
        self.column = position.column + 1;
    }

    pub fn format(&self) -> (r: String)
        ensures
            r@ == position_text(self.line, self.column),
    {
        let mut s = String::from_str("Ln ");
        s.append(decimal_string(self.line).as_str());
        s.append(", Col ");
        s.append(decimal_string(self.column).as_str());
        s
    }
}

impl Default for PositionIndicator {
    fn default() -> (r: PositionIndicator)
        ensures
            r.line == 1,
            r.column == 1,
    {
        PositionIndicator::new()
    }
}

/// How much is selected.
#[derive(Debug, Clone)]
pub struct SelectionInfo {
    pub char_count: usize,
    pub line_count: usize,
}

impl SelectionInfo {
    pub fn new() -> (r: SelectionInfo)
        ensures
            r.char_count == 0,
            r.line_count == 0,
    {
        SelectionInfo { char_count: 0, line_count: 0 }
    }

    pub fn update(&mut self, char_count: usize, line_count: usize)
        ensures
            final(self).char_count == char_count,
            final(self).line_count == line_count,
    {
        self.char_count = char_count;
        self.line_count = line_count;
    }

    /// The text for the selection, if anything is selected.
    pub fn format(&self) -> (r: Option<String>)
        ensures
            match r {
                Some(s) => self.char_count > 0 && s@ == selection_text(
                    self.char_count,
                    self.line_count,
                ),
                None => self.char_count == 0,
            },
    {
        if self.char_count > 0 {
            let mut s = decimal_string(self.char_count);
            if self.line_count > 1 {
                s.append(" chars (");
                s.append(decimal_string(self.line_count).as_str());
                s.append(" lines)");
            } else {
                s.append(" chars");
            }
            Some(s)
        } else {
            None
        }
    }

    pub fn clear(&mut self)
        ensures
            final(self).char_count == 0,
            final(self).line_count == 0,
    {
        self.char_count = 0;
        self.line_count = 0;
    }
}

impl Default for SelectionInfo {
    fn default() -> (r: SelectionInfo)
        ensures
            r.char_count == 0,
            r.line_count == 0,
    {
        SelectionInfo::new()
    }
}

/// The encoding of the file.
#[derive(Debug, Clone)]
pub struct EncodingDisplay {
    pub encoding: String,
}

impl EncodingDisplay {
    pub fn new() -> (r: EncodingDisplay)
        ensures
            r.encoding@ == "UTF-8"@,
    {
        EncodingDisplay { encoding: String::from_str("UTF-8") }
    }

    pub fn set_encoding(&mut self, encoding: String)
        ensures
            final(self).encoding == encoding,
    {
        self.encoding = encoding;
    }

    pub fn format(&self) -> (r: String)
        ensures
            r == self.encoding,
    {
        self.encoding.clone()
    }
}

impl Default for EncodingDisplay {
    fn default() -> (r: EncodingDisplay)
        ensures
            r.encoding@ == "UTF-8"@,
    {
        EncodingDisplay::new()
    }
}

/// The language of the file.
#[derive(Debug, Clone)]
pub struct LanguageMode {
    pub language: String,
}

impl LanguageMode {
    pub fn new() -> (r: LanguageMode)
        ensures
            r.language@ == "Plain Text"@,
    {
        LanguageMode { language: String::from_str("Plain Text") }
    }

    pub fn set_language(&mut self, language: String)
        ensures
            final(self).language == language,
    {
        self.language = language;
    }

    pub fn format(&self) -> (r: String)
        ensures
            r == self.language,
    {
        self.language.clone()
    }
}

impl Default for LanguageMode {
    fn default() -> (r: LanguageMode)
        ensures
            r.language@ == "Plain Text"@,
    {
        LanguageMode::new()
    }
}

/// The status bar with its parts.
pub struct StatusBar {
    pub position: PositionIndicator,
    pub selection: SelectionInfo,
    pub encoding: EncodingDisplay,
    pub language: LanguageMode,
}

impl StatusBar {
    pub fn new() -> (r: StatusBar)
        ensures
            r.position.line == 1,
            r.position.column == 1,
            r.selection.char_count == 0,
            r.selection.line_count == 0,
            r.encoding.encoding@ == "UTF-8"@,
            r.language.language@ == "Plain Text"@,
    {
        StatusBar {
            position: PositionIndicator::new(),
            selection: SelectionInfo::new(),
            encoding: EncodingDisplay::new(),
            language: LanguageMode::new(),
        }
    }
}

/// The number shown in the gutter for a line. Without a reference line it is
/// the line's number counted from 1. With one, the reference line shows its
/// own number counted from 0, and every other line its distance from it.
pub open spec fn line_number_text(line: usize, relative_to: Option<usize>) -> Seq<char> {
    match relative_to {
        Some(reference) => if line == reference {
            decimal(line as nat)
        } else if line > reference {
            decimal((line - reference) as nat)
        } else {
            decimal((reference - line) as nat)
        },
        None => decimal((line + 1) as nat),
    }
}

/// The line numbers of the gutter.
pub struct LineNumbers {
    pub current_line: Option<usize>,
}

impl LineNumbers {
    pub fn new() -> (r: LineNumbers)
        ensures
            r.current_line.is_none(),
    {
        LineNumbers { current_line: None }
    }

    /// The number to show for `line`.
    pub fn render(&self, line: usize, relative_to: Option<usize>) -> (r: String)
        requires
            relative_to.is_none() ==> line < usize::MAX,
        ensures
            r@ == line_number_text(line, relative_to),
    {
        match relative_to {
            Some(reference) => {
                if line == reference {
                    decimal_string(line)
                } else if line > reference {
                    decimal_string(line - reference)
                } else {
                    decimal_string(reference - line)
                }
            },
            None => decimal_string(line + 1),
        }
    }

    pub fn set_current_line(&mut self, line: usize)
        ensures
            final(self).current_line == Some(line),
    {
        self.current_line = Some(line);
    }
}

} // verus!
