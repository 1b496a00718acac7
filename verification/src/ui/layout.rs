//! Small layout arithmetic of the screens: centring a popup and scrolling a text input.
use vstd::prelude::*;

verus! {

/// A rectangle of the terminal: its corner, width and height.
#[derive(Clone, Copy, PartialEq, Eq, Structural, Debug)]
pub struct Area {
    pub x: u16,
    pub y: u16,
    pub width: u16,
    pub height: u16,
}

/// A popup of at most `width` by `height` centred in `area`, cut to the area.
pub open spec fn spec_center_popup(width: u16, height: u16, area: Area) -> Area {
    Area {
        x: (area.x + (if area.width >= width { area.width - width } else { 0 }) / 2) as u16,
        y: (area.y + (if area.height >= height { area.height - height } else { 0 }) / 2) as u16,
        width: if width <= area.width { width } else { area.width },
        height: if height <= area.height { height } else { area.height },
    }
}

/// A popup of at most `width` by `height` centred in `area`, cut to the area.
pub fn center_popup(width: u16, height: u16, area: Area) -> (r: Area)
    requires
        area.x + area.width <= u16::MAX,
        area.y + area.height <= u16::MAX,
    ensures
        r == spec_center_popup(width, height, area),
        r.x == area.x + (if area.width >= width { area.width - width } else { 0 }) / 2,
        r.y == area.y + (if area.height >= height { area.height - height } else { 0 }) / 2,
        r.width == (if width <= area.width { width } else { area.width }),
        r.height == (if height <= area.height { height } else { area.height }),
{
    let dx: u16 = if area.width >= width { area.width - width } else { 0 };
    let dy: u16 = if area.height >= height { area.height - height } else { 0 };
    Area {
        x: area.x + dx / 2,
        y: area.y + dy / 2,
        width: if width <= area.width { width } else { area.width },
        height: if height <= area.height { height } else { area.height },
    }
}

/// How a text input in `area` scrolls so that its cursor stays visible, and where the
/// cursor is drawn while editing: one cell inside the border.
pub fn text_input_view(cursor: usize, is_editing: bool, area: Area) -> (r: (u16, Option<(u16, u16)>))
    requires
        cursor <= u16::MAX,
        area.x as int + area.width as int + 1 <= u16::MAX,
        area.y + 1 <= u16::MAX,
    ensures
        ({
            let inner = if area.width >= 2 { area.width - 2 } else { 0 };
            let scroll: int = if is_editing && cursor > inner { cursor - inner } else { 0 };
            &&& r.0 == scroll
            &&& r.1 == (if is_editing { Some(((area.x + (cursor - scroll) + 1) as u16, (area.y + 1) as u16)) } else { None })
        }),
{
    let inner: usize = if area.width >= 2 { (area.width - 2) as usize } else { 0 };
    let scroll: u16 = if is_editing && cursor > inner { (cursor - inner) as u16 } else { 0 };
    if is_editing {
        let col: u16 = cursor as u16 - scroll;
        (scroll, Some((area.x + col + 1, area.y + 1)))
    } else {
        (scroll, None)
    }
}

} // verus!
