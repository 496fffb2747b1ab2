use vstd::prelude::*;

verus! {

/// Number of seconds in one GST week.
pub const SECS_IN_WEEK: u32 = 604800;

/// Length of a subframe, in seconds.
pub const SUBFRAME_SECS: u32 = 30;

/// Galileo System Time: a week number and the seconds into that week.
#[derive(Debug, Clone, Copy, PartialEq, Eq, Hash, Structural)]
pub struct Gst {
    pub wn: u16,
    pub tow: u32,
}

impl Gst {
    /// A time is well formed when its week fits in 12 bits and its time of
    /// week lies inside one week.
    pub open spec fn wf(self) -> bool {
        self.wn < 4096 && self.tow < SECS_IN_WEEK
    }

    /// Start of the subframe that holds this time.
    pub open spec fn subframe_spec(self) -> Gst {
        Gst { wn: self.wn, tow: (self.tow - self.tow % 30) as u32 }
    }

    /// Returns the start of the 30-second subframe that holds this time.
    pub fn gst_subframe(&self) -> (r: Gst)
        ensures
            r == self.subframe_spec(),
    {
        Gst { wn: self.wn, tow: self.tow - self.tow % SUBFRAME_SECS }
    }

    /// Seconds from the start of week 0 to this time.
    pub open spec fn seconds(self) -> int {
        self.wn as int * SECS_IN_WEEK as int + self.tow as int
    }

    /// Start of the subframe just before the one that starts at this time.
    pub open spec fn previous_subframe_spec(self) -> Gst {
        if self.tow == 0 {
            Gst { wn: (self.wn - 1) as u16, tow: (SECS_IN_WEEK - SUBFRAME_SECS) as u32 }
        } else {
            Gst { wn: self.wn, tow: (self.tow - SUBFRAME_SECS) as u32 }
        }
    }

    /// Returns the start of the previous subframe, going back into the
    /// previous week when this time is the start of a week.
    pub fn previous_subframe(&self) -> (r: Gst)
        requires
            self.tow == 0 ==> self.wn > 0,
            self.tow != 0 ==> self.tow >= SUBFRAME_SECS,
        ensures
            r == self.previous_subframe_spec(),
    {
        if self.tow == 0 {
            Gst { wn: self.wn - 1, tow: SECS_IN_WEEK - SUBFRAME_SECS }
        } else {
            Gst { wn: self.wn, tow: self.tow - SUBFRAME_SECS }
        }
    }
}

/// The subframe before the start of a subframe starts 30 seconds earlier,
/// across the start of a week too, and is well formed.
pub proof fn lemma_previous_subframe_seconds(g: Gst)
    requires
        g.wf(),
        g.tow % 30 == 0,
        g.seconds() >= 30,
    ensures
        g.tow == 0 ==> g.wn > 0,
        g.previous_subframe_spec().wf(),
        g.previous_subframe_spec().tow % 30 == 0,
        g.previous_subframe_spec().seconds() == g.seconds() - 30,
{
}

} // verus!
