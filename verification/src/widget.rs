//! The floating icon: where it rests and which way it grows.
//!
//! Everything is in physical pixels.

use vstd::prelude::*;

verus! {

/// A point on the desktop.
#[derive(Debug, Clone, Copy, PartialEq, Eq, Structural)]
pub struct Position {
    pub x: i32,
    pub y: i32,
}

/// The monitor that the icon is on, and the widths of the icon at rest and
/// expanded.
#[derive(Debug, Clone, Copy, PartialEq, Eq, Structural)]
pub struct Screen {
    pub left: i32,
    pub width: i32,
    pub idle: i32,
    pub active: i32,
}

/// Which way the icon grows, and where its left edge then is.
#[derive(Debug, Clone, Copy, PartialEq, Eq, Structural)]
pub struct GrowPlan {
    pub grow_left: bool,
    pub new_x: i32,
}

/// How much wider the icon gets.
pub open spec fn extra_width(screen: Screen) -> int {
    if screen.active > screen.idle {
        screen.active - screen.idle
    } else {
        0
    }
}

/// Whether the icon has to grow to the left: it would overflow the right edge of
/// its monitor, and has room on the left.
pub open spec fn grows_left(screen: Screen, x: i32) -> bool {
    &&& x + screen.active > screen.left + screen.width
    &&& x - extra_width(screen) >= screen.left
}

/// Whether 32 bits hold the edges that the plan compares.
pub open spec fn edges_fit(screen: Screen, x: i32) -> bool {
    &&& i32::MIN <= screen.active - screen.idle <= i32::MAX
    &&& i32::MIN <= screen.left + screen.width <= i32::MAX
    &&& i32::MIN <= x + screen.active <= i32::MAX
    &&& i32::MIN <= x - extra_width(screen) <= i32::MAX
}

/// Whether 32 bits hold the edges that the plan compares.
pub fn edges_are_known(screen: Screen, x: i32) -> (r: bool)
    ensures
        r == edges_fit(screen, x),
{
    let low: i64 = i32::MIN as i64;
    let high: i64 = i32::MAX as i64;
    let wider: i64 = screen.active as i64 - screen.idle as i64;
    let extra: i64 = if wider > 0 {
        wider
    } else {
        0
    };
    let right: i64 = screen.left as i64 + screen.width as i64;
    let reach: i64 = x as i64 + screen.active as i64;
    let moved: i64 = x as i64 - extra;
    low <= wider && wider <= high && low <= right && right <= high && low <= reach && reach <= high
        && low <= moved && moved <= high
}

/// Plans the growth of an icon that rests at `x`. Where nothing is known of its
/// monitor it grows to the right, its left edge fixed.
pub open spec fn plan_of(screen: Option<Screen>, x: i32) -> GrowPlan {
    match screen {
        Some(s) => if grows_left(s, x) {
            GrowPlan { grow_left: true, new_x: (x - extra_width(s)) as i32 }
        } else {
            GrowPlan { grow_left: false, new_x: x }
        },
        None => GrowPlan { grow_left: false, new_x: x },
    }
}

/// Plans the growth of an icon that rests at `x`.
pub fn widget_grow_plan(screen: Option<Screen>, x: i32) -> (r: GrowPlan)
    requires
        screen matches Some(s) ==> edges_fit(s, x),
    ensures
        r == plan_of(screen, x),
{
    match screen {
        Some(s) => {
            let wider: i32 = s.active - s.idle;
            let extra: i32 = if wider > 0 {
                wider
            } else {
                0
            };
            let right: i32 = s.left + s.width;
            if x + s.active > right && x - extra >= s.left {
                GrowPlan { grow_left: true, new_x: x - extra }
            } else {
                GrowPlan { grow_left: false, new_x: x }
            }
        },
        None => GrowPlan { grow_left: false, new_x: x },
    }
}

/// Whether the icon is expanded, and where it rested before.
#[derive(Debug, Clone, Copy, PartialEq, Eq, Structural)]
pub struct Widget {
    pub anchor: Option<Position>,
    pub active: bool,
}

/// An expansion: the side that the pill ends up on, and where to move the window
/// first, if anywhere.
#[derive(Debug, Clone, Copy, PartialEq, Eq, Structural)]
pub struct Expansion {
    pub grow_left: bool,
    pub move_to: Option<Position>,
}

/// Where an icon rests that is expanded at `position`: where it was first
/// expanded.
pub open spec fn anchored(anchor: Option<Position>, position: Position) -> Position {
    match anchor {
        Some(first) => first,
        None => position,
    }
}

impl Widget {
    /// An icon at rest.
    pub fn new() -> (r: Self)
        ensures
            r == (Widget { anchor: None, active: false }),
    {
        Widget { anchor: None, active: false }
    }

    /// Expands the icon, which is at `position`. Where it rested is remembered the
    /// first time only: a second call must not take a place it was moved to.
    pub fn expand(&mut self, position: Position) -> (r: Position)
        ensures
            r == anchored(old(self).anchor, position),
            *final(self) == (Widget { anchor: Some(r), active: true }),
    {
        let anchor = match self.anchor {
            Some(anchor) => anchor,
            None => position,
        };
        self.anchor = Some(anchor);
        self.active = true;
        anchor
    }

    /// Brings the icon back to rest and gives the place to return it to, if it was
    /// expanded.
    pub fn collapse(&mut self) -> (r: Option<Position>)
        ensures
            r == old(self).anchor,
            *final(self) == (Widget { anchor: None, active: false }),
    {
        let anchor = self.anchor;
        self.anchor = None;
        self.active = false;
        anchor
    }
}

/// The side that a plan puts the pill on, and, when it is to be applied, where the
/// window moves before it grows.
pub fn set_widget_active(plan: GrowPlan, anchor: Position, apply: bool) -> (r: Expansion)
    ensures
        r.grow_left == plan.grow_left,
        r.move_to == if apply && plan.grow_left {
            Some(Position { x: plan.new_x, y: anchor.y })
        } else {
            None::<Position>
        },
{
    let move_to = if apply && plan.grow_left {
        Some(Position { x: plan.new_x, y: anchor.y })
    } else {
        None
    };
    Expansion { grow_left: plan.grow_left, move_to }
}

/// The name of the side that the pill is on.
pub fn side_name(grow_left: bool) -> (r: String)
    ensures
        r@ == if grow_left {
            "left"@
        } else {
            "right"@
        },
{
    if grow_left {
        "left".to_string()
    } else {
        "right".to_string()
    }
}

/// The icon stays put however it grows: to the right its left edge keeps its
/// place, to the left its right edge does, and the window does not leave the
/// monitor on the left.
pub proof fn law_icon_stays_put(screen: Screen, x: i32)
    requires
        edges_fit(screen, x),
        screen.active >= screen.idle,
    ensures
        ({
            let plan = plan_of(Some(screen), x);
            if plan.grow_left {
                plan.new_x + screen.active == x + screen.idle && plan.new_x >= screen.left
            } else {
                plan.new_x == x
            }
        }),
{
}

/// The place an icon returns to after being expanded at the given positions, one
/// after the other.
pub open spec fn resting_place(anchor: Option<Position>, positions: Seq<Position>) -> Option<
    Position,
>
    decreases positions.len(),
{
    if positions.len() == 0 {
        anchor
    } else {
        Some(anchored(resting_place(anchor, positions.drop_last()), positions.last()))
    }
}

/// However often a resting icon is expanded before it collapses, it returns to
/// where it was at the first expansion.
pub proof fn law_icon_returns_to_rest(positions: Seq<Position>)
    requires
        positions.len() > 0,
    ensures
        resting_place(None, positions) == Some(positions[0]),
    decreases positions.len(),
{
    if positions.len() > 1 {
        law_icon_returns_to_rest(positions.drop_last());
    } else {
        assert(resting_place(None, positions.drop_last()) is None);
    }
}

/// An icon grows to the left exactly if it would overflow the right edge of its monitor
/// and has room on the left. Growing to the left its right edge stays where it is, and
/// growing to the right, or not at all, its left edge does.
pub proof fn law_widget_grow_plan(screen: Option<Screen>, x: i32, r: GrowPlan)
    requires
        call_ensures(widget_grow_plan, (screen, x), r),
        screen matches Some(s) ==> edges_fit(s, x),
    ensures
        screen is None ==> !r.grow_left,
        screen matches Some(s) ==> s.active >= s.idle ==> (r.grow_left <==> x + s.active > s.left
            + s.width && x + s.idle - s.active >= s.left),
        screen matches Some(s) ==> s.active < s.idle ==> (r.grow_left <==> x + s.active > s.left
            + s.width && x >= s.left),
        screen matches Some(s) ==> s.active >= s.idle ==> r.grow_left ==> r.new_x + s.active == x
            + s.idle,
        screen matches Some(s) ==> s.active < s.idle ==> r.new_x == x,
        !r.grow_left ==> r.new_x == x,
{
}

/// The plan can be made exactly if 32 bits hold the right edges of the monitor and of the
/// grown icon, how much wider it gets, and its left edge grown to the left.
pub proof fn law_edges_are_known(screen: Screen, x: i32, r: bool)
    requires
        call_ensures(edges_are_known, (screen, x), r),
    ensures
        r <==> {
            &&& -2_147_483_648 <= screen.active - screen.idle <= 2_147_483_647
            &&& -2_147_483_648 <= screen.left + screen.width <= 2_147_483_647
            &&& -2_147_483_648 <= x + screen.active <= 2_147_483_647
            &&& screen.active >= screen.idle ==> -2_147_483_648 <= x + screen.idle
                - screen.active <= 2_147_483_647
        },
{
}

/// An icon that is expanded where it rests, and expanded again wherever it was moved to,
/// collapses to where it rested, and is then at rest with nothing remembered.
pub proof fn law_expand_and_collapse(
    widget: &mut Widget,
    again: &mut Widget,
    back: &mut Widget,
    position: Position,
    moved: Position,
    first: Position,
    second: Position,
    r: Option<Position>,
)
    requires
        call_ensures(Widget::new, (), *old(widget)),
        call_ensures(Widget::expand, (widget, position), first),
        *old(again) == *final(widget),
        call_ensures(Widget::expand, (again, moved), second),
        *old(back) == *final(again),
        call_ensures(Widget::collapse, (back,), r),
    ensures
        !old(widget).active,
        first == position,
        final(widget).active,
        second == position,
        final(again).active,
        r == Some(position),
        !final(back).active,
        final(back).anchor is None,
{
}

/// The pill is on the side that the plan grows to. The window is moved exactly if the
/// plan is to be applied and grows to the left: along its row, to where the plan says.
pub proof fn law_set_widget_active(
    plan: GrowPlan,
    anchor: Position,
    apply: bool,
    r: Expansion,
    side: String,
)
    requires
        call_ensures(set_widget_active, (plan, anchor, apply), r),
        call_ensures(side_name, (r.grow_left,), side),
    ensures
        r.grow_left == plan.grow_left,
        r.move_to is Some <==> apply && plan.grow_left,
        r.move_to matches Some(place) ==> place.x == plan.new_x && place.y == anchor.y,
        plan.grow_left ==> side@ == "left"@,
        !plan.grow_left ==> side@ == "right"@,
{
}

} // verus!
