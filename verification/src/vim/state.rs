//! The state of modal editing.

use vstd::prelude::*;

verus! {

/// Identifies an editor.
#[derive(Clone, Copy, Debug, PartialEq, Eq, Structural)]
pub struct EditorId(pub usize);

/// What an editor is used for.
#[derive(Clone, Copy, Debug, PartialEq, Eq, Structural)]
pub enum EditorMode {
    SingleLine,
    AutoHeight { max_lines: usize },
    Full,
}

/// How keys are read.
#[derive(Clone, Copy, Debug, PartialEq, Eq, Structural)]
pub enum Mode {
    Normal,
    Insert,
    Visual { line: bool },
}

/// What there is to do after something happened to an editor.
#[derive(Clone, Copy, Debug, PartialEq, Eq, Structural)]
pub enum VimEffect {
    /// Bring the settings of all editors in line with the current mode.
    SyncSettings,
    /// Change to another mode, and move the selections unless they are to be left alone.
    SwitchMode { mode: Mode, leave_selections: bool },
    /// Forget the operator that waits for a motion.
    ClearOperator,
    /// Hear of what happens in this editor, and of no other.
    ObserveEditor { editor: EditorId },
}

/// The state of modal editing.
#[derive(Debug)]
pub struct Vim {
    /// All editors, none of them twice.
    pub editors: Vec<EditorId>,
    /// The editor that has the focus.
    pub active_editor: Option<EditorId>,
    /// Whether modal editing is switched on.
    pub enabled: bool,
    /// How keys are read.
    pub mode: Mode,
    /// Whether an operator waits for a motion.
    pub has_active_operator: bool,
}

impl Vim {
    /// No editor is there twice.
    pub open spec fn wf(self) -> bool {
        self.editors@.no_duplicates()
    }

    /// All editors.
    pub open spec fn known(self) -> Set<EditorId> {
        self.editors@.to_set()
    }

    /// Adds an editor, unless it is there.
    pub fn insert_editor(&mut self, editor: EditorId)
        requires
            old(self).wf(),
        ensures
            final(self).wf(),
            final(self).known() == old(self).known().insert(editor),
            *final(self) == (Vim { editors: final(self).editors, ..*old(self) }),
    {
        let mut index: usize = 0;
        while index < self.editors.len()
            invariant
                index <= self.editors@.len(),
                *self == *old(self),
                old(self).wf(),
                forall|at: int| 0 <= at < index ==> self.editors@[at] != editor,
            decreases self.editors@.len() - index,
        {
            if self.editors[index] == editor {
                assert(self.known().insert(editor) =~= self.known());
                return ;
            }
            index += 1;
        }
        self.editors.push(editor);
        proof {
            assert(self.editors@ == old(self).editors@.push(editor));
            assert forall|other: EditorId| #[trigger]
                self.known().contains(other) == old(self).known().insert(editor).contains(other) by {
                if other == editor {
                    assert(self.editors@.last() == editor);
                } else if old(self).editors@.contains(other) {
                    let at = choose|at: int|
                        0 <= at < old(self).editors@.len() && old(self).editors@[at] == other;
                    assert(self.editors@[at] == other);
                }
            }
            assert(self.known() =~= old(self).known().insert(editor));
        }
    }

    /// Removes an editor, if it is there.
    pub fn remove_editor(&mut self, editor: EditorId)
        requires
            old(self).wf(),
        ensures
            final(self).wf(),
            final(self).known() == old(self).known().remove(editor),
            *final(self) == (Vim { editors: final(self).editors, ..*old(self) }),
    {
        let mut index: usize = 0;
        while index < self.editors.len()
            invariant
                index <= self.editors@.len(),
                *self == *old(self),
                old(self).wf(),
                forall|at: int| 0 <= at < index ==> self.editors@[at] != editor,
            decreases self.editors@.len() - index,
        {
            if self.editors[index] == editor {
                self.editors.remove(index);
                proof {
                    assert(self.editors@ == old(self).editors@.remove(index as int));
                    assert forall|other: EditorId| #[trigger]
                        self.known().contains(other) == old(self).known().remove(editor).contains(
                            other,
                        ) by {
                        if old(self).editors@.contains(other) {
                            let at = choose|at: int|
                                0 <= at < old(self).editors@.len() && old(self).editors@[at]
                                    == other;
                            if at < index {
                                assert(self.editors@[at] == other);
                            } else if at > index {
                                assert(self.editors@[at - 1] == other);
                            }
                        }
                    }
                    assert(self.known() =~= old(self).known().remove(editor));
                }
                return ;
            }
            index += 1;
        }
        assert(self.known().remove(editor) =~= self.known());
    }
}

} // verus!
