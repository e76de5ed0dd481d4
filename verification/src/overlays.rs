//! The overlays shown over the text: completion popup, hover, parameter
//! hints and the quick-fix menu.

use crate::position::Position;
use vstd::arithmetic::div_mod::lemma_add_mod_noop;
use vstd::arithmetic::div_mod::lemma_small_mod;
use vstd::prelude::*;

verus! {

/// What a completion stands for.
#[derive(Debug, Clone, Copy, PartialEq, Eq, Structural)]
pub enum CompletionKind {
    Function,
    Variable,
    Keyword,
    Constant,
    Type,
    Module,
}

/// One entry of the completion popup.
#[derive(Debug, Clone)]
pub struct CompletionItem {
    pub label: String,
    pub kind: CompletionKind,
    pub detail: Option<String>,
    pub documentation: Option<String>,
}

/// The index after `selected` in a list of `len` entries, going round.
pub open spec fn next_index(selected: int, len: int) -> int {
    (selected + 1) % len
}

/// The index before `selected` in a list of `len` entries, going round.
pub open spec fn previous_index(selected: int, len: int) -> int {
    if selected == 0 {
        len - 1
    } else {
        selected - 1
    }
}

fn step_forward(selected: usize, len: usize) -> (r: usize)
    requires
        len > 0,
    ensures
        r == next_index(selected as int, len as int),
{
    proof {
        lemma_add_mod_noop(selected as int, 1, len as int);
        if len > 1 {
            lemma_small_mod(1, len as nat);
        }
    }
    let within: usize = selected % len;
    if len == 1 {
        0
    } else {
        (within + 1) % len
    }
}

/// The completion popup: its entries and the selected one.
#[derive(Debug, Clone)]
pub struct AutocompletePopup {
    pub position: Position,
    pub items: Vec<CompletionItem>,
    pub selected: usize,
}

impl AutocompletePopup {
    pub fn new(position: Position, items: Vec<CompletionItem>) -> (r: AutocompletePopup)
        ensures
            r.position == position,
            r.items == items,
            r.selected == 0,
    {
        AutocompletePopup { position, items, selected: 0 }
    }

    /// Selects the next entry; after the last comes the first. Without
    /// entries nothing changes.
    pub fn select_next(&mut self)
        ensures
            final(self).position == old(self).position,
            final(self).items == old(self).items,
            final(self).selected == if old(self).items@.len() == 0 {
                old(self).selected as int
            } else {
                next_index(old(self).selected as int, old(self).items@.len() as int)
            },
    {
        if self.items.len() > 0 {
            self.selected = step_forward(self.selected, self.items.len());
        }
    }

    /// Selects the entry before; before the first comes the last. Without
    /// entries nothing changes.
    pub fn select_previous(&mut self)
        ensures
            final(self).position == old(self).position,
            final(self).items == old(self).items,
            final(self).selected == if old(self).items@.len() == 0 {
                old(self).selected as int
            } else {
                previous_index(old(self).selected as int, old(self).items@.len() as int)
            },
    {
        if self.items.len() > 0 {
            self.selected = if self.selected == 0 {
                self.items.len() - 1
            } else {
                self.selected - 1
            };
        }
    }

    pub fn get_selected(&self) -> (r: Option<&CompletionItem>)
        ensures
            match r {
                Some(item) => self.selected < self.items@.len() && *item
                    == self.items@[self.selected as int],
                None => self.selected >= self.items@.len(),
            },
    {
        if self.selected < self.items.len() {
            Some(&self.items[self.selected])
        } else {
            None
        }
    }
}

/// What is shown when the pointer rests on a place.
#[derive(Debug, Clone)]
pub struct HoverInfo {
    pub position: Position,
    pub content: String,
}

impl HoverInfo {
    pub fn new(position: Position, content: String) -> (r: HoverInfo)
        ensures
            r.position == position,
            r.content == content,
    {
        HoverInfo { position, content }
    }
}

/// One parameter of a signature.
#[derive(Debug, Clone)]
pub struct ParameterInfo {
    pub label: String,
    pub documentation: Option<String>,
}

/// One signature of a function.
#[derive(Debug, Clone)]
pub struct SignatureInfo {
    pub label: String,
    pub parameters: Vec<ParameterInfo>,
    pub documentation: Option<String>,
}

/// The parameter hints of a call.
#[derive(Debug, Clone)]
pub struct ParameterHints {
    pub position: Position,
    pub signatures: Vec<SignatureInfo>,
    pub active_signature: usize,
    pub active_parameter: usize,
}

impl ParameterHints {
    pub fn new(position: Position, signatures: Vec<SignatureInfo>) -> (r: ParameterHints)
        ensures
            r.position == position,
            r.signatures == signatures,
            r.active_signature == 0,
            r.active_parameter == 0,
    {
        ParameterHints { position, signatures, active_signature: 0, active_parameter: 0 }
    }

    pub fn get_active_signature(&self) -> (r: Option<&SignatureInfo>)
        ensures
            match r {
                Some(s) => self.active_signature < self.signatures@.len() && *s
                    == self.signatures@[self.active_signature as int],
                None => self.active_signature >= self.signatures@.len(),
            },
    {
        if self.active_signature < self.signatures.len() {
            Some(&self.signatures[self.active_signature])
        } else {
            None
        }
    }
}

/// The kind of a code action.
#[derive(Debug, Clone, Copy, PartialEq, Eq, Structural)]
pub enum CodeActionKind {
    QuickFix,
    Refactor,
    SourceAction,
}

/// An action that the editor offers at a place.
#[derive(Debug, Clone)]
pub struct CodeAction {
    pub title: String,
    pub kind: CodeActionKind,
}

/// The menu of quick fixes: its actions and the selected one.
#[derive(Debug, Clone)]
pub struct QuickFixesMenu {
    pub position: Position,
    pub actions: Vec<CodeAction>,
    pub selected: usize,
}

impl QuickFixesMenu {
    pub fn new(position: Position, actions: Vec<CodeAction>) -> (r: QuickFixesMenu)
        ensures
            r.position == position,
            r.actions == actions,
            r.selected == 0,
    {
        QuickFixesMenu { position, actions, selected: 0 }
    }

    /// Selects the next action; after the last comes the first. Without
    /// actions nothing changes.
    pub fn select_next(&mut self)
        ensures
            final(self).position == old(self).position,
            final(self).actions == old(self).actions,
            final(self).selected == if old(self).actions@.len() == 0 {
                old(self).selected as int
            } else {
                next_index(old(self).selected as int, old(self).actions@.len() as int)
            },
    {
        if self.actions.len() > 0 {
            self.selected = step_forward(self.selected, self.actions.len());
        }
    }

    /// Selects the action before; before the first comes the last. Without
    /// actions nothing changes.
    pub fn select_previous(&mut self)
        ensures
            final(self).position == old(self).position,
            final(self).actions == old(self).actions,
            final(self).selected == if old(self).actions@.len() == 0 {
                old(self).selected as int
            } else {
                previous_index(old(self).selected as int, old(self).actions@.len() as int)
            },
    {
        if self.actions.len() > 0 {
            self.selected = if self.selected == 0 {
                self.actions.len() - 1
            } else {
                self.selected - 1
            };
        }
    }

    pub fn get_selected(&self) -> (r: Option<&CodeAction>)
        ensures
            match r {
                Some(a) => self.selected < self.actions@.len() && *a
                    == self.actions@[self.selected as int],
                None => self.selected >= self.actions@.len(),
            },
    {
        if self.selected < self.actions.len() {
            Some(&self.actions[self.selected])
        } else {
            None
        }
    }
}

/// The overlays of an editor view. Each is shown while it is there.
pub struct Overlays {
    pub autocomplete: Option<AutocompletePopup>,
    pub hover: Option<HoverInfo>,
    pub parameter_hints: Option<ParameterHints>,
    pub quick_fixes: Option<QuickFixesMenu>,
}

impl Overlays {
    pub fn new() -> (r: Overlays)
        ensures
            r.autocomplete.is_none(),
            r.hover.is_none(),
            r.parameter_hints.is_none(),
            r.quick_fixes.is_none(),
    {
        Overlays { autocomplete: None, hover: None, parameter_hints: None, quick_fixes: None }
    }

    pub fn show_autocomplete(&mut self, popup: AutocompletePopup)
        ensures
            *final(self) == (Overlays { autocomplete: Some(popup), ..*old(self) }),
    {
        self.autocomplete = Some(popup);
    }

    pub fn hide_autocomplete(&mut self)
        ensures
            *final(self) == (Overlays { autocomplete: None, ..*old(self) }),
    {
        self.autocomplete = None;
    }

    pub fn show_hover(&mut self, hover: HoverInfo)
        ensures
            *final(self) == (Overlays { hover: Some(hover), ..*old(self) }),
    {
        self.hover = Some(hover);
    }

    pub fn hide_hover(&mut self)
        ensures
            *final(self) == (Overlays { hover: None, ..*old(self) }),
    {
        self.hover = None;
    }

    pub fn show_parameter_hints(&mut self, hints: ParameterHints)
        ensures
            *final(self) == (Overlays { parameter_hints: Some(hints), ..*old(self) }),
    {
        self.parameter_hints = Some(hints);
    }

    pub fn hide_parameter_hints(&mut self)
        ensures
            *final(self) == (Overlays { parameter_hints: None, ..*old(self) }),
    {
        self.parameter_hints = None;
    }

    pub fn show_quick_fixes(&mut self, menu: QuickFixesMenu)
        ensures
            *final(self) == (Overlays { quick_fixes: Some(menu), ..*old(self) }),
    {
        self.quick_fixes = Some(menu);
    }

    pub fn hide_quick_fixes(&mut self)
        ensures
            *final(self) == (Overlays { quick_fixes: None, ..*old(self) }),
    {
        self.quick_fixes = None;
    }

    pub fn hide_all(&mut self)
        ensures
            final(self).autocomplete.is_none(),
            final(self).hover.is_none(),
            final(self).parameter_hints.is_none(),
            final(self).quick_fixes.is_none(),
    {
        self.autocomplete = None;
        self.hover = None;
        self.parameter_hints = None;
        self.quick_fixes = None;
    }

    pub fn has_visible_overlay(&self) -> (r: bool)
        ensures
            r == (self.autocomplete.is_some() || self.hover.is_some()
                || self.parameter_hints.is_some() || self.quick_fixes.is_some()),
    {
        self.autocomplete.is_some() || self.hover.is_some() || self.parameter_hints.is_some()
            || self.quick_fixes.is_some()
    }
}

} // verus!
