//! The engine of a document editor.
//!
//! The core holds the text of a document and edits it: positions that count
//! grapheme clusters ([`position`], [`locate`]), selections and carets
//! ([`selection`]), the buffer over a rope ([`buffer`], [`rope`], [`lines`]),
//! and the undo history with the laws of undo and redo ([`operations`],
//! [`document`]). The bidirectional engine lays a paragraph out in visual
//! runs and moves the caret over it ([`layout`], [`bidi`], [`cursor`]);
//! [`unicode`] names what it takes from Unicode segmentation and level
//! resolution.
//!
//! Around the core stands the bookkeeping of the editor's other parts:
//! diagnostics, the requests and the session of the language server, the
//! caches and widgets of the renderer, decorations, overlays, the status bar
//! and settings.

pub mod bidi;
pub mod buffer;
pub mod chars;
pub mod cursor;
pub mod document;
pub mod layout;
pub mod lines;
pub mod locate;
pub mod operations;
pub mod position;
pub mod rope;
pub mod selection;
pub mod seqs;
pub mod unicode;

pub mod decorations;
pub mod diagnostics;
pub mod lsp;
pub mod numerals;
pub mod overlays;
pub mod preview;
pub mod recent;
pub mod rendering;
pub mod requests;
pub mod settings;
pub mod status_bar;
pub mod syntax;

pub use bidi::{BidiError, BidiParagraph};
pub use buffer::{
    Buffer, BufferError, BufferId, BufferMetrics, BufferSnapshot, EditorError, LineEnding, Version,
};
pub use cursor::{CursorMovement, MovementDirection, TextPosition};
pub use layout::{Direction, VisualRun};
pub use operations::{EditOperation, OperationType, UndoGroup, UndoHistory};
pub use position::Position;
pub use selection::{Affinity, Cursor, Granularity, Selection, SelectionSet};

pub use decorations::{
    DiagnosticSeverity, FoldingMarkers, GitDiffIndicators, GitDiffKind, GutterAction,
    GutterDecoration, GutterDecorationKind, InlineDecoration, InlineDecorationKind, MarkerKind,
    Markers,
};
pub use diagnostics::{
    Diagnostic, DiagnosticList, DiagnosticRelated, Severity, SourceLocation, TypstError,
};
pub use lsp::{LspSession, LspState, NotificationKind};
pub use overlays::{
    AutocompletePopup, CodeAction, CodeActionKind, CompletionItem, CompletionKind, HoverInfo,
    Overlays, ParameterHints, ParameterInfo, QuickFixesMenu, SignatureInfo,
};
pub use preview::{PreviewError, PreviewPane, SourcePosition};
pub use recent::RecentFiles;
pub use rendering::{
    CachedLine, Font, FontData, FontFallbackChain, GlyphCacheKey, InlineWidget, InlineWidgetKind,
    InlineWidgets, LineLayout, LineRenderer, Script, TextShaper,
};
pub use requests::{LspError, PendingRequest, Priority, RequestManager};
pub use settings::{LspSettings, PreviewSettings};
pub use status_bar::{
    EncodingDisplay, LanguageMode, LineNumbers, PositionIndicator, SelectionInfo, StatusBar,
};
pub use syntax::{
    HighlightToken, SyntaxClass, SyntaxHighlighter, SyntaxTree, ThemeVariant, TokenType,
};
