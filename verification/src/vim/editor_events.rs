//! What follows from what happens to editors.

use vstd::prelude::*;

use crate::vim::state::{EditorId, EditorMode, Mode, Vim, VimEffect};

verus! {

/// Something that happens to editors and is of interest wherever it happens.
#[derive(Clone, Copy, Debug, PartialEq, Eq, Structural)]
pub enum GlobalEvent {
    EditorCreated,
    EditorFocused,
    EditorBlurred,
    EditorReleased,
}

/// Something that happens in the editor that has the focus.
#[derive(Clone, Copy, Debug, PartialEq, Eq, Structural)]
pub enum EditorEvent {
    SelectionsChanged { local: bool },
    IgnoredInput,
    Other,
}

/// Subscribes to all that happens to editors.
pub fn init(subscriptions: &mut Vec<GlobalEvent>)
    ensures
        final(subscriptions)@ == old(subscriptions)@ + seq![
            GlobalEvent::EditorCreated,
            GlobalEvent::EditorFocused,
            GlobalEvent::EditorBlurred,
            GlobalEvent::EditorReleased,
        ],
{
    subscriptions.push(GlobalEvent::EditorCreated);
    subscriptions.push(GlobalEvent::EditorFocused);
    subscriptions.push(GlobalEvent::EditorBlurred);
    subscriptions.push(GlobalEvent::EditorReleased);
}

/// Takes note of a new editor.
pub fn editor_created(vim: &mut Vim, editor: EditorId) -> (effects: Vec<VimEffect>)
    requires
        old(vim).wf(),
    ensures
        final(vim).wf(),
        final(vim).known() == old(vim).known().insert(editor),
        *final(vim) == (Vim { editors: final(vim).editors, ..*old(vim) }),
        effects@ == seq![VimEffect::SyncSettings],
{
    vim.insert_editor(editor);
    let mut effects: Vec<VimEffect> = Vec::new();
    effects.push(VimEffect::SyncSettings);
    effects
}

/// The mode to change to when an editor gets the focus: keys are inserted into an editor that
/// is not a full one, and a full one with a selection is in visual mode.
pub open spec fn mode_on_focus(
    enabled: bool,
    editor_mode: EditorMode,
    newest_selection_empty: bool,
) -> Option<Mode> {
    if !enabled {
        None
    } else if editor_mode != EditorMode::Full {
        Some(Mode::Insert)
    } else if !newest_selection_empty {
        Some(Mode::Visual { line: false })
    } else {
        None
    }
}

/// What follows when an editor gets the focus.
pub open spec fn effects_of_focus(
    enabled: bool,
    editor: EditorId,
    editor_mode: EditorMode,
    newest_selection_empty: bool,
) -> Seq<VimEffect> {
    seq![VimEffect::ObserveEditor { editor }] + (match mode_on_focus(
        enabled,
        editor_mode,
        newest_selection_empty,
    ) {
        Some(mode) => seq![VimEffect::SwitchMode { mode, leave_selections: true }],
        None => Seq::empty(),
    })
}

/// Of the editor that gets the focus, and of no other, it is heard from then on. Its mode changes at
/// most once, and what is selected in it stays so.
pub proof fn law_the_focused_editor_is_heard_of(
    enabled: bool,
    editor: EditorId,
    editor_mode: EditorMode,
    newest_selection_empty: bool,
)
    ensures
        ({
            let effects = effects_of_focus(enabled, editor, editor_mode, newest_selection_empty);
            &&& effects.first() == (VimEffect::ObserveEditor { editor })
            &&& effects.len() == 2 <==> enabled && (editor_mode !is Full || !newest_selection_empty)
            &&& effects.len() == 1 <==> !enabled || (editor_mode is Full && newest_selection_empty)
            &&& effects.len() == 2 ==> effects.last() == (VimEffect::SwitchMode {
                mode: if editor_mode is Full {
                    Mode::Visual { line: false }
                } else {
                    Mode::Insert
                },
                leave_selections: true,
            })
        }),
{
}

/// Takes note of the editor that got the focus.
pub fn editor_focused(
    vim: &mut Vim,
    editor: EditorId,
    editor_mode: EditorMode,
    newest_selection_empty: bool,
) -> (effects: Vec<VimEffect>)
    ensures
        *final(vim) == (Vim { active_editor: Some(editor), ..*old(vim) }),
        effects@ == effects_of_focus(
            old(vim).enabled,
            editor,
            editor_mode,
            newest_selection_empty,
        ),
{
    let mut effects: Vec<VimEffect> = Vec::new();
    vim.active_editor = Some(editor);
    effects.push(VimEffect::ObserveEditor { editor });
    if vim.enabled {
        let is_full: bool = match editor_mode {
            EditorMode::Full => true,
            _ => false,
        };
        if !is_full {
            effects.push(VimEffect::SwitchMode { mode: Mode::Insert, leave_selections: true });
        } else if !newest_selection_empty {
            effects.push(
                VimEffect::SwitchMode {
                    mode: Mode::Visual { line: false },
                    leave_selections: true,
                },
            );
        }
    }
    effects
}

/// What follows from an event in the editor that has the focus, unless that editor follows
/// someone else.
pub open spec fn effects_of_event(
    vim: Vim,
    follows_leader: bool,
    event: EditorEvent,
    newest_empty: bool,
) -> Seq<VimEffect> {
    if follows_leader {
        Seq::empty()
    } else {
        match event {
            EditorEvent::SelectionsChanged { local: true } => effects_of_selection(
                vim,
                newest_empty,
            ),
            EditorEvent::IgnoredInput => if vim.has_active_operator {
                seq![VimEffect::ClearOperator]
            } else {
                Seq::empty()
            },
            _ => Seq::empty(),
        }
    }
}

/// What follows from an event in the editor that has the focus.
pub fn focused_editor_event(
    vim: &Vim,
    follows_leader: bool,
    event: EditorEvent,
    newest_empty: bool,
) -> (effects: Vec<VimEffect>)
    ensures
        effects@ == effects_of_event(*vim, follows_leader, event, newest_empty),
{
    let mut effects: Vec<VimEffect> = Vec::new();
    if !follows_leader {
        match event {
            EditorEvent::SelectionsChanged { local: true } => {
                return editor_local_selections_changed(vim, newest_empty);
            },
            EditorEvent::IgnoredInput => {
                if vim.has_active_operator {
                    effects.push(VimEffect::ClearOperator);
                }
            },
            _ => {},
        }
    }
    effects
}

/// The editor that has the focus once `editor` no longer has it.
pub open spec fn without_focus(active: Option<EditorId>, editor: EditorId) -> Option<EditorId> {
    if active == Some(editor) {
        None
    } else {
        active
    }
}

/// Takes note of an editor that lost the focus.
pub fn editor_blurred(vim: &mut Vim, editor: EditorId) -> (effects: Vec<VimEffect>)
    ensures
        *final(vim) == (Vim {
            active_editor: without_focus(old(vim).active_editor, editor),
            ..*old(vim)
        }),
        effects@ == seq![VimEffect::SyncSettings],
{
    if let Some(previous) = vim.active_editor {
        if previous == editor {
            vim.active_editor = None;
        }
    }
    let mut effects: Vec<VimEffect> = Vec::new();
    effects.push(VimEffect::SyncSettings);
    effects
}

/// Takes note of an editor that is gone.
pub fn editor_released(vim: &mut Vim, editor: EditorId)
    requires
        old(vim).wf(),
    ensures
        final(vim).wf(),
        final(vim).known() == old(vim).known().remove(editor),
        *final(vim) == (Vim {
            editors: final(vim).editors,
            active_editor: without_focus(old(vim).active_editor, editor),
            ..*old(vim)
        }),
{
    vim.remove_editor(editor);
    if let Some(previous) = vim.active_editor {
        if previous == editor {
            vim.active_editor = None;
        }
    }
}

/// What follows from a change of the selections that the user made: in normal mode, selecting
/// something leads to visual mode.
pub open spec fn effects_of_selection(vim: Vim, newest_empty: bool) -> Seq<VimEffect> {
    if vim.enabled && vim.mode == Mode::Normal && !newest_empty {
        seq![VimEffect::SwitchMode { mode: Mode::Visual { line: false }, leave_selections: false }]
    } else {
        Seq::empty()
    }
}

/// What follows from a change of the selections that the user made.
pub fn editor_local_selections_changed(vim: &Vim, newest_empty: bool) -> (effects: Vec<VimEffect>)
    ensures
        effects@ == effects_of_selection(*vim, newest_empty),
{
    let mut effects: Vec<VimEffect> = Vec::new();
    let is_normal: bool = match vim.mode {
        Mode::Normal => true,
        _ => false,
    };
    if vim.enabled && is_normal && !newest_empty {
        effects.push(
            VimEffect::SwitchMode { mode: Mode::Visual { line: false }, leave_selections: false },
        );
    }
    effects
}

/// While modal editing is switched off, no event changes the mode.
pub proof fn law_disabled_keeps_mode(
    vim: Vim,
    editor_mode: EditorMode,
    follows_leader: bool,
    event: EditorEvent,
    newest_empty: bool,
)
    requires
        !vim.enabled,
    ensures
        mode_on_focus(vim.enabled, editor_mode, newest_empty) is None,
        forall|index: int|
            0 <= index < effects_of_event(vim, follows_leader, event, newest_empty).len()
                ==> !((#[trigger] effects_of_event(vim, follows_leader, event, newest_empty)[index]) is SwitchMode),
{
}

/// An editor that is focused and then loses the focus, or is released, does not stay active.
pub proof fn law_blurred_editor_is_not_active(active: Option<EditorId>, editor: EditorId)
    ensures
        without_focus(Some(editor), editor) is None,
        without_focus(active, editor) != Some(editor),
{
}

/// What happens in an editor that follows someone else has no effect.
pub proof fn law_followers_are_left_alone(vim: Vim, event: EditorEvent, newest_empty: bool)
    ensures
        effects_of_event(vim, true, event, newest_empty) == Seq::<VimEffect>::empty(),
{
}

/// With modal editing switched on, an editor that is not a full one is typed into as soon as it has
/// the focus; a full one comes into visual mode exactly if something is selected in it, and otherwise
/// stays in its mode.
pub proof fn law_the_mode_on_focus(editor_mode: EditorMode, newest_selection_empty: bool)
    ensures
        mode_on_focus(true, editor_mode, newest_selection_empty) == Some(Mode::Insert)
            <==> editor_mode is SingleLine || editor_mode is AutoHeight,
        mode_on_focus(true, editor_mode, newest_selection_empty) == Some(
            Mode::Visual { line: false },
        ) <==> editor_mode is Full && !newest_selection_empty,
        mode_on_focus(true, editor_mode, newest_selection_empty) is None <==> editor_mode is Full
            && newest_selection_empty,
{
}

/// Selecting something by hand in normal mode leads to visual mode, without moving the selection,
/// and ignored input drops the operator that waits; nothing else that happens has an effect.
pub proof fn law_what_events_lead_to(
    vim: Vim,
    event: EditorEvent,
    newest_empty: bool,
    effect: VimEffect,
)
    ensures
        effects_of_event(vim, false, event, newest_empty).contains(effect) <==> {
            ||| event == (EditorEvent::SelectionsChanged { local: true }) && vim.enabled
                && vim.mode is Normal && !newest_empty && effect == (VimEffect::SwitchMode {
                mode: Mode::Visual { line: false },
                leave_selections: false,
            })
            ||| event is IgnoredInput && vim.has_active_operator && effect is ClearOperator
        },
        effects_of_event(vim, false, event, newest_empty).len() <= 1,
{
    let effects = effects_of_event(vim, false, event, newest_empty);
    if effects.len() > 0 {
        assert(effects.contains(effects[0]));
    }
}

/// An editor that loses the focus does not take it from another.
pub proof fn law_other_editors_keep_the_focus(active: Option<EditorId>, editor: EditorId)
    requires
        active != Some(editor),
    ensures
        without_focus(active, editor) == active,
{
}

} // verus!
