use vstd::prelude::*;

verus! {

/// Zoom level of a preview window, as an index into the zoom steps
/// (the same steps as Chrome's: 25% ... 300%).
#[derive(Clone, Copy, PartialEq, Eq, Structural, Debug)]
pub struct ZoomLevel(pub u8);

/// The percentage shown for a zoom step, for each of the fifteen steps.
pub open spec fn step_percent(level: int) -> int {
    if level == 0 { 25 }
    else if level == 1 { 33 }
    else if level == 2 { 50 }
    else if level == 3 { 67 }
    else if level == 4 { 75 }
    else if level == 5 { 80 }
    else if level == 6 { 90 }
    else if level == 7 { 100 }
    else if level == 8 { 110 }
    else if level == 9 { 125 }
    else if level == 10 { 150 }
    else if level == 11 { 175 }
    else if level == 12 { 200 }
    else if level == 13 { 250 }
    else { 300 }
}

/// The next larger zoom step, if any.
pub open spec fn spec_zoom_in(z: ZoomLevel) -> Option<ZoomLevel> {
    if z.0 < ZoomLevel::MAX { Some(ZoomLevel((z.0 + 1) as u8)) } else { None }
}

/// The next smaller zoom step, if any.
pub open spec fn spec_zoom_out(z: ZoomLevel) -> Option<ZoomLevel> {
    if z.0 > 0 { Some(ZoomLevel((z.0 - 1) as u8)) } else { None }
}

impl ZoomLevel {
    /// The largest zoom step.
    pub const MAX: u8 = 14;
    /// The step of 100%.
    pub const DEFAULT: u8 = 7;

    /// A level is valid when it names one of the zoom steps.
    pub open spec fn valid(self) -> bool {
        self.0 <= Self::MAX
    }

    /// The zoom factor of this level in percent.
    pub fn percent(self) -> (p: u16)
        requires
            self.valid(),
        ensures
            p == step_percent(self.0 as int),
    {
        match self.0 {
            0 => 25,
            1 => 33,
            2 => 50,
            3 => 67,
            4 => 75,
            5 => 80,
            6 => 90,
            7 => 100,
            8 => 110,
            9 => 125,
            10 => 150,
            11 => 175,
            12 => 200,
            13 => 250,
            _ => 300,
        }
    }

    /// The next larger zoom step, if any.
    pub fn zoom_in(self) -> (z: Option<ZoomLevel>)
        ensures
            z == spec_zoom_in(self),
    {
        if self.0 < Self::MAX {
            Some(ZoomLevel(self.0 + 1))
        } else {
            None
        }
    }

    /// The next smaller zoom step, if any.
    pub fn zoom_out(self) -> (z: Option<ZoomLevel>)
        ensures
            z == spec_zoom_out(self),
    {
        if self.0 > 0 {
            Some(ZoomLevel(self.0 - 1))
        } else {
            None
        }
    }
}

impl Default for ZoomLevel {
    fn default() -> (z: Self)
        ensures
            z == ZoomLevel(Self::DEFAULT),
    {
        ZoomLevel(Self::DEFAULT)
    }
}

/// Zooming in and then out again comes back to the same level, and so
/// does zooming out and then in; every level reached is valid and zooming
/// in shows a larger percentage.
pub proof fn law_zoom_in_then_out(z: ZoomLevel)
    requires
        z.valid(),
    ensures
        spec_zoom_in(z) matches Some(i) ==> i.valid() && spec_zoom_out(i) == Some(z)
            && step_percent(z.0 as int) < step_percent(i.0 as int),
        spec_zoom_out(z) matches Some(o) ==> o.valid() && spec_zoom_in(o) == Some(z)
            && step_percent(o.0 as int) < step_percent(z.0 as int),
        spec_zoom_in(z) is None <==> z.0 == ZoomLevel::MAX,
        spec_zoom_out(z) is None <==> z.0 == 0,
{
}

/// A larger zoom step always shows a larger percentage.
pub proof fn law_percent_strictly_increasing(a: ZoomLevel, b: ZoomLevel)
    requires
        a.valid(),
        b.valid(),
        a.0 < b.0,
    ensures
        step_percent(a.0 as int) < step_percent(b.0 as int),
{
}

} // verus!
