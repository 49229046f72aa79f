//! The active tool, switching between tools, and the undo and redo keys.

use crate::drag_face::DragFaceState;
use crate::editor::SnapshottingVoxelEditor;
use crate::timeline::{redo_step, undo_step};
use vstd::prelude::*;

verus! {

/// The phases of an editing session: assets load first, then editing begins.
#[derive(Clone, Copy, Debug, PartialEq, Eq, Hash, Structural)]
pub enum EditorState {
    Loading,
    Editing,
}

/// The tool that pointer input drives.
#[derive(Clone, Copy, Debug, PartialEq, Eq, Structural)]
pub enum CurrentTool {
    DragFace(DragFaceState),
    Terraform,
    PaintMaterial,
    Tile,
    Slope,
}

/// The tool after this tick's keys: `switch_to_drag_face` selects the drag-face tool, ready
/// for a selection; otherwise `switch_to_terraform` selects the terraformer.
pub open spec fn switched_tool(tool: CurrentTool, switch_to_drag_face: bool, switch_to_terraform: bool) -> CurrentTool {
    if switch_to_drag_face {
        CurrentTool::DragFace(DragFaceState::SelectionReady)
    } else if switch_to_terraform {
        CurrentTool::Terraform
    } else {
        tool
    }
}

/// Switches tools on the keys just pressed this tick.
pub fn tool_switcher_system(switch_to_drag_face: bool, switch_to_terraform: bool, current_tool: &mut CurrentTool)
    ensures
        *final(current_tool) == switched_tool(*old(current_tool), switch_to_drag_face, switch_to_terraform),
{
    if switch_to_drag_face {
        *current_tool = CurrentTool::DragFace(DragFaceState::SelectionReady);
    } else if switch_to_terraform {
        *current_tool = CurrentTool::Terraform;
    }
}

/// Undoes when the undo key was just pressed, then redoes when the redo key was.
pub fn undo_system(editor: &mut SnapshottingVoxelEditor, undo_pressed: bool, redo_pressed: bool)
    requires
        old(editor).wf(),
    ensures
        final(editor).wf(),
        final(editor).edge_spec() == old(editor).edge_spec(),
        final(editor).current_spec() == old(editor).current_spec(),
        ({
            let h0 = (old(editor).undo_spec(), old(editor).redo_spec(), old(editor).volume());
            let h1 = if undo_pressed { undo_step(h0, old(editor).edge_spec()) } else { h0 };
            let h2 = if redo_pressed { redo_step(h1, old(editor).edge_spec()) } else { h1 };
            (final(editor).undo_spec(), final(editor).redo_spec(), final(editor).volume()) == h2
        }),
{
    if undo_pressed {
        editor.undo();
    }
    if redo_pressed {
        editor.redo();
    }
}

} // verus!
