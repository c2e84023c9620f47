use vstd::prelude::*;

verus! {

/// A point in whole pixels.
#[derive(Clone, Copy, Debug, PartialEq, Eq, Structural)]
pub struct Point {
    pub x: i32,
    pub y: i32,
}

/// A width and a height in whole pixels.
#[derive(Clone, Copy, Debug, PartialEq, Eq, Structural)]
pub struct Size {
    pub width: i32,
    pub height: i32,
}

/// An axis-aligned rectangle in whole pixels.
#[derive(Clone, Copy, Debug, PartialEq, Eq, Structural)]
pub struct Bounds {
    pub origin: Point,
    pub size: Size,
}

/// Identifies one display among those the platform reports.
#[derive(Clone, Copy, Debug, PartialEq, Eq, Structural)]
pub struct DisplayId(pub u32);

pub fn point(x: i32, y: i32) -> (r: Point)
    ensures
        r.x == x,
        r.y == y,
{
    Point { x, y }
}

pub fn size(width: i32, height: i32) -> (r: Size)
    ensures
        r.width == width,
        r.height == height,
{
    Size { width, height }
}

/// Half of `v`, rounded toward zero.
pub open spec fn half(v: int) -> int {
    if v >= 0 {
        v / 2
    } else {
        -((-v) / 2)
    }
}

impl Bounds {
    /// The empty rectangle at the origin.
    pub fn zero() -> (r: Bounds)
        ensures
            r.origin.x == 0 && r.origin.y == 0,
            r.size.width == 0 && r.size.height == 0,
    {
        Bounds { origin: Point { x: 0, y: 0 }, size: Size { width: 0, height: 0 } }
    }

    /// The center point of the rectangle, half the size rounded toward zero.
    pub open spec fn center_spec(self) -> (int, int) {
        (
            self.origin.x + half(self.size.width as int),
            self.origin.y + half(self.size.height as int),
        )
    }

    pub fn center(&self) -> (r: Point)
        requires
            i32::MIN <= self.center_spec().0 <= i32::MAX,
            i32::MIN <= self.center_spec().1 <= i32::MAX,
        ensures
            r.x == self.center_spec().0,
            r.y == self.center_spec().1,
    {
        let x = (self.origin.x as i64 + (self.size.width as i64) / 2) as i32;
        let y = (self.origin.y as i64 + (self.size.height as i64) / 2) as i32;
        Point { x, y }
    }

    /// The origin of a rectangle of size `size` whose center is `center`.
    pub open spec fn centered_origin_spec(center: Point, size: Size) -> (int, int) {
        (center.x - half(size.width as int), center.y - half(size.height as int))
    }

    /// The rectangle of size `size` centered at `center`.
    pub fn centered_at(center: Point, size: Size) -> (r: Bounds)
        requires
            i32::MIN <= Self::centered_origin_spec(center, size).0 <= i32::MAX,
            i32::MIN <= Self::centered_origin_spec(center, size).1 <= i32::MAX,
        ensures
            r.origin.x == Self::centered_origin_spec(center, size).0,
            r.origin.y == Self::centered_origin_spec(center, size).1,
            r.size == size,
    {
        let x = (center.x as i64 - (size.width as i64) / 2) as i32;
        let y = (center.y as i64 - (size.height as i64) / 2) as i32;
        Bounds { origin: Point { x, y }, size }
    }
}

/// A display the platform reports, with its bounds.
#[derive(Clone, Copy, Debug, PartialEq, Eq, Structural)]
pub struct DisplayInfo {
    pub id: DisplayId,
    pub bounds: Bounds,
}

/// The first display of `displays` whose id is `id`.
pub open spec fn find_display(displays: Seq<DisplayInfo>, id: DisplayId) -> Option<DisplayInfo>
    decreases displays.len(),
{
    if displays.len() == 0 {
        None
    } else if displays[0].id == id {
        Some(displays[0])
    } else {
        find_display(displays.drop_first(), id)
    }
}

/// The display a window is placed on: the requested one when it exists, else
/// the primary display (the first one listed), else none.
pub open spec fn target_display(display_id: Option<DisplayId>, displays: Seq<DisplayInfo>) -> Option<
    DisplayInfo,
> {
    let found = match display_id {
        Some(id) => find_display(displays, id),
        None => None,
    };
    match found {
        Some(d) => Some(d),
        None => if displays.len() > 0 {
            Some(displays[0])
        } else {
            None
        },
    }
}

fn find_display_exec(displays: &Vec<DisplayInfo>, id: DisplayId) -> (r: Option<DisplayInfo>)
    ensures
        r == find_display(displays@, id),
{
    let mut i: usize = 0;
    proof {
        assert(displays@.subrange(0, displays@.len() as int) =~= displays@);
    }
    while i < displays.len()
        invariant
            0 <= i <= displays@.len(),
            find_display(displays@, id) == find_display(displays@.subrange(i as int, displays@.len() as int), id),
        decreases displays.len() - i,
    {
        proof {
            let tail = displays@.subrange(i as int, displays@.len() as int);
            assert(tail.drop_first() =~= displays@.subrange(i + 1, displays@.len() as int));
        }
        if displays[i].id == id {
            return Some(displays[i]);
        }
        i += 1;
    }
    None
}

fn pick_display(display_id: Option<DisplayId>, displays: &Vec<DisplayInfo>) -> (r: Option<DisplayInfo>)
    ensures
        r == target_display(display_id, displays@),
{
    let found = match display_id {
        Some(id) => find_display_exec(displays, id),
        None => None,
    };
    match found {
        Some(d) => Some(d),
        None => if displays.len() > 0 {
            Some(displays[0])
        } else {
            None
        },
    }
}

/// Whether a window of size `size` can be centered on `display` without
/// leaving the coordinate range.
pub open spec fn centerable(display: DisplayInfo, size: Size) -> bool {
    let c = display.bounds.center_spec();
    let o = ((c.0 - half(size.width as int)), (c.1 - half(size.height as int)));
    &&& i32::MIN <= c.0 <= i32::MAX
    &&& i32::MIN <= c.1 <= i32::MAX
    &&& i32::MIN <= o.0 <= i32::MAX
    &&& i32::MIN <= o.1 <= i32::MAX
}

/// Bounds of size `size` centered on the requested display, or on the primary
/// display when there is no such display, or at the origin when there is no
/// display at all.
pub fn centered_bounds(display_id: Option<DisplayId>, size: Size, displays: &Vec<DisplayInfo>) -> (r:
    Bounds)
    requires
        target_display(display_id, displays@) matches Some(d) ==> centerable(d, size),
    ensures
        r.size == size,
        match target_display(display_id, displays@) {
            Some(d) => {
                let c = d.bounds.center_spec();
                r.origin.x == c.0 - half(size.width as int) && r.origin.y == c.1 - half(size.height as int)
            },
            None => r.origin.x == 0 && r.origin.y == 0,
        },
{
    match pick_display(display_id, displays) {
        Some(d) => {
            proof {
                lemma_target_display_listed(display_id, displays@);
            }
            Bounds::centered_at(d.bounds.center(), size)
        },
        None => Bounds { origin: Point { x: 0, y: 0 }, size },
    }
}

/// Bounds of the requested display, or of the primary display when there is no
/// such display, or 1024 by 768 at the origin when there is no display at all.
pub fn maximized_bounds(display_id: Option<DisplayId>, displays: &Vec<DisplayInfo>) -> (r: Bounds)
    ensures
        r == match target_display(display_id, displays@) {
            Some(d) => d.bounds,
            None => Bounds { origin: Point { x: 0, y: 0 }, size: Size { width: 1024, height: 768 } },
        },
{
    match pick_display(display_id, displays) {
        Some(d) => d.bounds,
        None => Bounds { origin: Point { x: 0, y: 0 }, size: Size { width: 1024, height: 768 } },
    }
}

proof fn lemma_find_display_listed(displays: Seq<DisplayInfo>, id: DisplayId)
    ensures
        find_display(displays, id) matches Some(d) ==> exists|i: int|
            0 <= i < displays.len() && displays[i] == d,
    decreases displays.len(),
{
    if displays.len() > 0 && displays[0].id != id {
        lemma_find_display_listed(displays.drop_first(), id);
        if let Some(d) = find_display(displays, id) {
            let i = choose|i: int| 0 <= i < displays.drop_first().len() && displays.drop_first()[i] == d;
            assert(displays[i + 1] == d);
        }
    }
}

proof fn lemma_target_display_listed(display_id: Option<DisplayId>, displays: Seq<DisplayInfo>)
    ensures
        target_display(display_id, displays) matches Some(d) ==> exists|i: int|
            0 <= i < displays.len() && displays[i] == d,
{
    if let Some(id) = display_id {
        lemma_find_display_listed(displays, id);
    }
    if displays.len() > 0 {
        assert(displays[0] == displays[0]);
    }
}

} // verus!
