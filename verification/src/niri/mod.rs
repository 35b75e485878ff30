//! What the compositor reports and what it can be asked for.
use vstd::prelude::*;

pub mod client;
pub mod events;

verus! {

/// A point in logical pixels. Each coordinate is the bit pattern of the double
/// the compositor uses; this crate stores and compares them and leaves the
/// arithmetic to its callers.
#[derive(Debug, Clone, Copy)]
pub struct Position {
    pub x: u64,
    pub y: u64,
}

/// The bit of a double that holds its sign.
pub const SIGN_BIT: u64 = 0x8000_0000_0000_0000;

/// The bit pattern of infinity; what is above it, but for the sign, is no number.
pub const INFINITE: u64 = 0x7ff0_0000_0000_0000;

/// The double with these bits is zero, of either sign.
pub open spec fn is_zero(bits: u64) -> bool {
    bits % SIGN_BIT == 0
}

/// The double with these bits is a number, be it infinite.
pub open spec fn is_number(bits: u64) -> bool {
    bits % SIGN_BIT <= INFINITE
}

/// Two doubles compare equal: what is no number equals nothing, and the two zeros
/// equal each other.
pub open spec fn same_double(a: u64, b: u64) -> bool {
    is_number(a) && is_number(b) && (a == b || (is_zero(a) && is_zero(b)))
}

/// Two points compare equal.
pub open spec fn same_point(a: Position, b: Position) -> bool {
    same_double(a.x, b.x) && same_double(a.y, b.y)
}

/// Two points that may be unknown compare equal.
pub open spec fn same_place(a: Option<Position>, b: Option<Position>) -> bool {
    match (a, b) {
        (Some(a), Some(b)) => same_point(a, b),
        (None, None) => true,
        _ => false,
    }
}

fn doubles_match(a: u64, b: u64) -> (r: bool)
    ensures
        r == same_double(a, b),
{
    a % SIGN_BIT <= INFINITE && b % SIGN_BIT <= INFINITE && (a == b || (a % SIGN_BIT == 0 && b
        % SIGN_BIT == 0))
}

impl PartialEq for Position {
    fn eq(&self, other: &Self) -> (r: bool) {
        doubles_match(self.x, other.x) && doubles_match(self.y, other.y)
    }
}

impl vstd::std_specs::cmp::PartialEqSpecImpl for Position {
    open spec fn obeys_eq_spec() -> bool {
        true
    }

    open spec fn eq_spec(&self, other: &Self) -> bool {
        same_point(*self, *other)
    }
}

/// A window as reported by the compositor.
#[derive(Debug, PartialEq)]
pub struct WindowInfo {
    pub id: u64,
    pub app_id: Option<String>,
    pub title: Option<String>,
    /// Workspace the window lives on, when the compositor reports one.
    pub workspace_id: Option<u64>,
    pub floating: bool,
    /// Logical pixels.
    pub size: Option<(i32, i32)>,
    /// Top-left corner on screen.
    pub position: Option<Position>,
}

impl Clone for WindowInfo {
    fn clone(&self) -> (r: Self)
        ensures
            r.deep_view() == self.deep_view(),
    {
        WindowInfo {
            id: self.id,
            app_id: self.app_id.clone(),
            title: self.title.clone(),
            workspace_id: self.workspace_id,
            floating: self.floating,
            size: self.size,
            position: self.position,
        }
    }
}

/// [`WindowInfo`] as a mathematical value.
pub struct WindowModel {
    pub id: u64,
    pub app_id: Option<Seq<char>>,
    pub title: Option<Seq<char>>,
    pub workspace_id: Option<u64>,
    pub floating: bool,
    pub size: Option<(i32, i32)>,
    pub position: Option<Position>,
}

impl DeepView for WindowInfo {
    type V = WindowModel;

    open spec fn deep_view(&self) -> WindowModel {
        WindowModel {
            id: self.id,
            app_id: self.app_id.deep_view(),
            title: self.title.deep_view(),
            workspace_id: self.workspace_id,
            floating: self.floating,
            size: self.size,
            position: self.position,
        }
    }
}

/// A workspace as reported by the compositor.
#[derive(Debug, Clone, PartialEq, Eq)]
pub struct WorkspaceInfo {
    pub id: u64,
    /// Position of the workspace on its output, top to bottom.
    pub idx: u8,
    pub name: Option<String>,
    /// Output the workspace lives on, when the compositor reports one.
    pub output: Option<String>,
    pub is_active: bool,
}

/// [`WorkspaceInfo`] as a mathematical value.
pub struct WorkspaceModel {
    pub id: u64,
    pub idx: u8,
    pub name: Option<Seq<char>>,
    pub output: Option<Seq<char>>,
    pub is_active: bool,
}

impl DeepView for WorkspaceInfo {
    type V = WorkspaceModel;

    open spec fn deep_view(&self) -> WorkspaceModel {
        WorkspaceModel {
            id: self.id,
            idx: self.idx,
            name: self.name.deep_view(),
            output: self.output.deep_view(),
            is_active: self.is_active,
        }
    }
}

impl WorkspaceInfo {
    /// A workspace with everything optional unset, for tests and fixtures.
    pub fn default_for_tests() -> (r: Self)
        ensures
            r.deep_view() == (WorkspaceModel {
                id: 0,
                idx: 0,
                name: None,
                output: None,
                is_active: false,
            }),
    {
        WorkspaceInfo { id: 0, idx: 0, name: None, output: None, is_active: false }
    }
}

/// Size a window can be given.
#[derive(Debug, Clone, Copy, PartialEq, Eq, Structural)]
pub enum Size {
    /// Logical pixels.
    Fixed(i32),
    /// Percentage of the working area, as the bit pattern of a double.
    Percent(u64),
}

} // verus!
