//! Placing things on the terminal screen.
use vstd::prelude::*;

use ratatui::layout::{Constraint, Layout, Rect};

verus! {

/// Below this width the editor keeps the whole workspace and the tree floats over it.
pub const COMFORTABLE_WIDTH: u16 = 96;

/// A rectangle of terminal cells.
#[derive(Clone, Copy, PartialEq, Eq, Structural, Debug)]
pub struct Area {
    pub x: u16,
    pub y: u16,
    pub width: u16,
    pub height: u16,
}

/// The rows of a list of `len` rows that fit in `capacity` lines: as many as
/// fit, keeping the selected row (the first when none is selected, the last
/// when the selection is past the end) in the middle where the list allows.
pub open spec fn viewport_of(len: int, selected: Option<int>, capacity: int) -> (int, int) {
    let visible = if len < capacity { len } else { capacity };
    if visible == 0 {
        (0, 0)
    } else {
        let last = if len > 0 { len - 1 } else { 0 };
        let s0 = match selected {
            Some(s) => s,
            None => 0,
        };
        let s = if s0 < last { s0 } else { last };
        let half = visible / 2;
        let from = if s > half { s - half } else { 0 };
        let latest = len - visible;
        let start = if from < latest { from } else { latest };
        (start, start + visible)
    }
}

/// The range of rows to show (see [`viewport_of`]).
pub fn selection_viewport(len: usize, selected: Option<usize>, capacity: usize) -> (rows:
    std::ops::Range<usize>)
    ensures
        (rows.start as int, rows.end as int) == viewport_of(
            len as int,
            match selected {
                Some(s) => Some(s as int),
                None => None,
            },
            capacity as int,
        ),
        rows.start <= rows.end <= len,
{
    let visible = if len < capacity { len } else { capacity };
    if visible == 0 {
        return 0..0;
    }
    let last = if len > 0 { len - 1 } else { 0 };
    let s0 = match selected {
        Some(s) => s,
        None => 0,
    };
    let s = if s0 < last { s0 } else { last };
    let half = visible / 2;
    let from = if s > half { s - half } else { 0 };
    let latest = len - visible;
    let start = if from < latest { from } else { latest };
    start..start + visible
}

/// A box of the desired size (at most two cells smaller than the screen each
/// way, and at least one cell) in the middle of `area`.
pub open spec fn centered_in(area: Area, desired_width: int, desired_height: int) -> Area {
    let room_w = if area.width >= 2 { area.width - 2 } else { 0 };
    let room_h = if area.height >= 2 { area.height - 2 } else { 0 };
    let w0 = if desired_width < room_w { desired_width } else { room_w };
    let h0 = if desired_height < room_h { desired_height } else { room_h };
    let width = if w0 > 1 { w0 } else { 1 };
    let height = if h0 > 1 { h0 } else { 1 };
    let free_w = if area.width >= width { area.width - width } else { 0 };
    let free_h = if area.height >= height { area.height - height } else { 0 };
    Area {
        x: (area.x + free_w / 2) as u16,
        y: (area.y + free_h / 2) as u16,
        width: width as u16,
        height: height as u16,
    }
}

/// A dialog box of the desired size centred on the screen (see [`centered_in`]).
pub fn centered(area: Area, desired_width: u16, desired_height: u16) -> (placed: Area)
    requires
        area.x + area.width <= u16::MAX,
        area.y + area.height <= u16::MAX,
    ensures
        placed == centered_in(area, desired_width as int, desired_height as int),
{
    let room_w = area.width.saturating_sub(2);
    let room_h = area.height.saturating_sub(2);
    let w0 = if desired_width < room_w { desired_width } else { room_w };
    let h0 = if desired_height < room_h { desired_height } else { room_h };
    let width = if w0 > 1 { w0 } else { 1 };
    let height = if h0 > 1 { h0 } else { 1 };
    Area {
        x: area.x + area.width.saturating_sub(width) / 2,
        y: area.y + area.height.saturating_sub(height) / 2,
        width,
        height,
    }
}

/// How shortcuts are written: with macOS key symbols, or portably.
#[derive(Clone, Copy, PartialEq, Eq, Structural, Debug)]
pub enum ShortcutStyle {
    MacOs,
    Portable,
}

/// The shortcuts that apply everywhere, as the status area lists them.
pub fn global_shortcuts(style: ShortcutStyle) -> (line: &'static str)
    ensures
        line@ == match style {
            ShortcutStyle::MacOs => "⌘S Save  ^G Push  ⌘F Find  ⌘P Open  ⌘B Files  ⌘Z/⇧⌘Z Undo/Redo  ⌘C/X/V Clipboard  ⌘A All  ^Q Quit"@,
            ShortcutStyle::Portable => "^S Save  ^G Push  ^F Find  ^P Open  ^B Files  ^Z/Y Undo/Redo  ^C/X/V Clipboard  ^A All  ^Q Quit"@,
        },
{
    match style {
        ShortcutStyle::MacOs => "⌘S Save  ^G Push  ⌘F Find  ⌘P Open  ⌘B Files  ⌘Z/⇧⌘Z Undo/Redo  ⌘C/X/V Clipboard  ⌘A All  ^Q Quit",
        ShortcutStyle::Portable => "^S Save  ^G Push  ^F Find  ^P Open  ^B Files  ^Z/Y Undo/Redo  ^C/X/V Clipboard  ^A All  ^Q Quit",
    }
}

/// The editor's shortcuts, as the status area lists them.
pub fn editor_shortcuts(style: ShortcutStyle) -> (line: &'static str)
    ensures
        line@ == match style {
            ShortcutStyle::MacOs => "Esc Files  ⇧←→ Select  ⌥←→ Word  ⌘←→ Line  ⌘↑↓ Doc  ⌥⌫/Del Word Del  ⌘⌫/Del Line Del  Tab/S-Tab Indent"@,
            ShortcutStyle::Portable => "Esc Files  ⇧←→ Select  Alt←→ Word  Home/End Line  Alt⌫/Del Word Del  Tab/S-Tab Indent"@,
        },
{
    match style {
        ShortcutStyle::MacOs => "Esc Files  ⇧←→ Select  ⌥←→ Word  ⌘←→ Line  ⌘↑↓ Doc  ⌥⌫/Del Word Del  ⌘⌫/Del Line Del  Tab/S-Tab Indent",
        ShortcutStyle::Portable => "Esc Files  ⇧←→ Select  Alt←→ Word  Home/End Line  Alt⌫/Del Word Del  Tab/S-Tab Indent",
    }
}


/// The tree column and the editor beside it, as ratatui's layout solver
/// places a 30-cell column and the rest (at least 20 cells) in `area`.
pub uninterp spec fn tree_beside_editor(area: Area) -> (Area, Area);

/// `Layout::horizontal([Constraint::Length(30), Constraint::Min(20)]).areas(area)`
/// of the `ratatui` crate: its result is a function of the area alone. When
/// the area is at least 50 cells wide and ends within the terminal's
/// coordinates, the solver gives the 30 cells of the `Length` first and the
/// rest to the `Min`, which grows (the `Length` is held at a stronger strength
/// than the growth, and under the default `Flex::Start` a `Min` fills): a
/// 30-cell column at the area's left edge and the rest of the area beside it.
/// What the solver gives in other areas is left to the name.
#[verifier::external_body]
fn split_tree_and_editor(area: Area) -> (columns: (Area, Area))
    ensures
        columns == tree_beside_editor(area),
        area.width >= 50 && area.x + area.width <= u16::MAX ==> columns == (
            Area { x: area.x, y: area.y, width: 30, height: area.height },
            Area { x: (area.x + 30) as u16, y: area.y, width: (area.width - 30) as u16, height: area.height },
        ),
{
    let [tree, editor] = Layout::horizontal([Constraint::Length(30), Constraint::Min(20)]).areas(
        Rect { x: area.x, y: area.y, width: area.width, height: area.height },
    );
    (
        Area { x: tree.x, y: tree.y, width: tree.width, height: tree.height },
        Area { x: editor.x, y: editor.y, width: editor.width, height: editor.height },
    )
}

/// Where the editor and the file tree go in a workspace.
#[derive(Clone, Copy, PartialEq, Eq, Structural, Debug)]
pub struct WorkspaceGeometry {
    pub editor: Area,
    pub tree: Option<Area>,
    pub tree_is_overlay: bool,
}

/// The workspace layout: without the sidebar the editor takes everything; on
/// a narrow screen the editor keeps everything and the tree floats over its
/// left edge (34 cells, at most two less than the screen, at least one); on a
/// wide screen a 30-cell tree column sits at the left edge and the editor
/// takes the rest beside it (for an area that would end past the terminal's
/// coordinates, as ratatui's layout solver places them).
pub open spec fn geometry_of(area: Area, sidebar_visible: bool) -> WorkspaceGeometry {
    if !sidebar_visible {
        WorkspaceGeometry { editor: area, tree: None, tree_is_overlay: false }
    } else if area.width < COMFORTABLE_WIDTH {
        let room = if area.width >= 2 { area.width - 2 } else { 0 };
        let w0 = if 34 < room { 34 } else { room };
        let width = if w0 > 1 { w0 } else { 1 };
        WorkspaceGeometry {
            editor: area,
            tree: Some(Area { x: area.x, y: area.y, width: width as u16, height: area.height }),
            tree_is_overlay: true,
        }
    } else if area.x + area.width <= u16::MAX {
        WorkspaceGeometry {
            editor: Area { x: (area.x + 30) as u16, y: area.y, width: (area.width - 30) as u16, height: area.height },
            tree: Some(Area { x: area.x, y: area.y, width: 30, height: area.height }),
            tree_is_overlay: false,
        }
    } else {
        let (tree, editor) = tree_beside_editor(area);
        WorkspaceGeometry { editor: editor, tree: Some(tree), tree_is_overlay: false }
    }
}

/// The workspace layout (see [`geometry_of`]).
pub fn workspace_geometry(area: Area, sidebar_visible: bool) -> (geometry: WorkspaceGeometry)
    ensures
        geometry == geometry_of(area, sidebar_visible),
{
    if !sidebar_visible {
        return WorkspaceGeometry { editor: area, tree: None, tree_is_overlay: false };
    }
    if area.width < COMFORTABLE_WIDTH {
        let room = area.width.saturating_sub(2);
        let w0: u16 = if 34 < room { 34 } else { room };
        let width: u16 = if w0 > 1 { w0 } else { 1 };
        return WorkspaceGeometry {
            editor: area,
            tree: Some(Area { x: area.x, y: area.y, width, height: area.height }),
            tree_is_overlay: true,
        };
    }
    let (tree, editor) = split_tree_and_editor(area);
    WorkspaceGeometry { editor, tree: Some(tree), tree_is_overlay: false }
}
} // verus!
