use vstd::prelude::*;
use vstd::slice::slice_to_vec;

use crate::fields::ced_and_status_layout;
use crate::fields::extract_all_bits;
use crate::fields::fields_read;
use crate::fields::CED_AND_STATUS_BYTES;
use crate::fields::TIMING_PARAMETERS_BYTES;
use crate::gst::Gst;
use crate::gst::SECS_IN_WEEK;
use crate::gst::SUBFRAME_SECS;

verus! {

/// Number of satellites that the pipeline keeps state for.
pub const NUM_SVNS: usize = 36;

/// Word type of an INAV dummy message.
pub const DUMMY_WORD_TYPE: u8 = 63;

/// Largest week number that a time can carry (12 bits).
pub const MAX_WN: u32 = 4095;

/// A raw time folded into one week: the whole weeks held in the time of
/// week move to the week number. There is no such time when the week
/// number then needs more than 12 bits.
pub open spec fn normalize_spec(wn: u32, tow: u32) -> Option<Gst> {
    let w = wn as int + tow as int / SECS_IN_WEEK as int;
    if w <= MAX_WN {
        Some(Gst { wn: w as u16, tow: (tow % SECS_IN_WEEK) as u32 })
    } else {
        None
    }
}

/// Folds a raw week number and time of week, which may run past the end of
/// the week, into a well formed time.
pub fn normalize_gst(wn: u32, tow: u32) -> (r: Option<Gst>)
    ensures
        r == normalize_spec(wn, tow),
        r matches Some(g) ==> g.wf(),
{
    let extra = tow / SECS_IN_WEEK;
    if wn > MAX_WN || extra > MAX_WN - wn {
        None
    } else {
        Some(Gst { wn: (wn + extra) as u16, tow: tow % SECS_IN_WEEK })
    }
}

/// The time of week after the correction of a known fault in the input
/// stream: a word stamped 15 seconds into a subframe, seen after one stamped
/// 19 or more seconds in, is moved 14 seconds later.
pub open spec fn corrected_tow_spec(last_tow_mod_30: u32, tow: u32) -> u32 {
    if tow % 30 == 15 && last_tow_mod_30 >= 19 {
        (tow + 14) as u32
    } else {
        tow
    }
}

/// Remembers where in its subframe the last word was stamped.
#[derive(Debug, Clone, Copy)]
pub struct TowFix {
    last_tow_mod_30: u32,
}

impl TowFix {
    /// Seconds into its subframe of the last time seen.
    pub closed spec fn last(self) -> u32 {
        self.last_tow_mod_30
    }

    /// A corrector that has seen no time yet.
    pub fn new() -> (r: TowFix)
        ensures
            r.last() == 0,
    {
        TowFix { last_tow_mod_30: 0 }
    }

    /// Returns the corrected time of week, without remembering it.
    pub fn corrected(&self, tow: u32) -> (r: u32)
        requires
            tow < SECS_IN_WEEK,
        ensures
            r == corrected_tow_spec(self.last(), tow),
            r < SECS_IN_WEEK,
    {
        if tow % SUBFRAME_SECS == 15 && self.last_tow_mod_30 >= 19 {
            tow + (29 - 15)
        } else {
            tow
        }
    }

    /// Remembers a time of week as the last one seen.
    pub fn record(&mut self, tow: u32)
        ensures
            final(self).last() == tow % 30,
    {
        self.last_tow_mod_30 = tow % SUBFRAME_SECS;
    }

    /// Corrects a time of week and remembers it.
    pub fn correct(&mut self, tow: u32) -> (r: u32)
        requires
            tow < SECS_IN_WEEK,
        ensures
            r == corrected_tow_spec(old(self).last(), tow),
            r < SECS_IN_WEEK,
            final(self).last() == r % 30,
    {
        let t = self.corrected(tow);
        self.record(t);
        t
    }
}

/// Whether time `a` comes strictly before time `b`.
pub open spec fn gst_before(a: Gst, b: Gst) -> bool {
    a.wn < b.wn || (a.wn == b.wn && a.tow < b.tow)
}

/// A word stamped `g` is stale when its subframe started before the
/// watermark.
pub open spec fn is_stale(watermark: Option<Gst>, g: Gst) -> bool {
    watermark matches Some(w) && gst_before(g.subframe_spec(), w)
}

/// The latest subframe seen over all satellites and bands.
#[derive(Debug, Clone, Copy)]
pub struct SubframeSync {
    current: Option<Gst>,
}

impl SubframeSync {
    /// The watermark: the start of the latest subframe accepted, if any.
    pub closed spec fn watermark(self) -> Option<Gst> {
        self.current
    }

    /// A synchroniser that has accepted nothing yet.
    pub fn new() -> (r: SubframeSync)
        ensures
            r.watermark() is None,
    {
        SubframeSync { current: None }
    }

    /// Returns the watermark.
    pub fn current_subframe(&self) -> (r: Option<Gst>)
        ensures
            r == self.watermark(),
    {
        self.current
    }

    /// Accepts a word stamped `gst` unless its subframe started before the
    /// watermark; on acceptance the watermark becomes that subframe, which
    /// never moves it back.
    pub fn accept(&mut self, gst: Gst) -> (r: bool)
        ensures
            r == !is_stale(old(self).watermark(), gst),
            r ==> final(self).watermark() == Some(gst.subframe_spec()),
            !r ==> final(self).watermark() == old(self).watermark(),
            old(self).watermark() matches Some(w) ==> final(self).watermark() matches Some(
                nw,
            ) && !gst_before(nw, w),
    {
        let sub = gst.gst_subframe();
        if let Some(current) = self.current {
            if current.wn > sub.wn || (current.wn == sub.wn && current.tow > sub.tow) {
                return false;
            }
        }
        self.current = Some(sub);
        true
    }
}

/// Whether a word is an INAV dummy message: the top six bits of its first
/// byte give its type.
pub open spec fn is_dummy_spec(word: Seq<u8>) -> bool {
    word[0] >> 2u8 == DUMMY_WORD_TYPE
}

/// Tells whether an INAV word is a dummy message, which carries nothing to
/// authenticate.
pub fn is_dummy(word: &[u8]) -> (r: bool)
    requires
        word@.len() >= 1,
    ensures
        r == is_dummy_spec(word@),
{
    word[0] >> 2u8 == DUMMY_WORD_TYPE
}

/// A signal band that carries INAV words.
#[derive(Debug, Clone, Copy, PartialEq, Eq, Hash, Structural)]
pub enum InavBand {
    E1B,
    E5B,
}

/// The INAV band of a signal identifier: 1 is E1-B, 5 is E5b.
pub open spec fn band_spec(sigid: u32) -> Option<InavBand> {
    if sigid == 1 {
        Some(InavBand::E1B)
    } else if sigid == 5 {
        Some(InavBand::E5B)
    } else {
        None
    }
}

/// Returns the INAV band of a signal identifier, if it names one.
pub fn band_of_sigid(sigid: u32) -> (r: Option<InavBand>)
    ensures
        r == band_spec(sigid),
{
    match sigid {
        1 => Some(InavBand::E1B),
        5 => Some(InavBand::E5B),
        _ => None,
    }
}

/// What the pipeline decides for one INAV word.
#[derive(Debug, Clone, Copy, PartialEq, Eq, Structural)]
pub enum Verdict {
    /// The week number does not fit in 12 bits.
    BadTime,
    /// The word belongs to a subframe before the current one.
    Stale { gst: Gst, current: Gst },
    /// The signal identifier names no INAV band.
    BadBand { gst: Gst },
    /// The word is a dummy message.
    Dummy { gst: Gst, band: InavBand },
    /// The word goes to the authentication engine.
    Feed { gst: Gst, band: InavBand },
}

/// The verdict on a word, given the watermark and the corrector's memory.
/// A word on an unknown band keeps its folded time, uncorrected; the other
/// verdicts carry the corrected time.
pub open spec fn verdict_spec(
    watermark: Option<Gst>,
    last: u32,
    wn: u32,
    tow: u32,
    sigid: u32,
    word: Seq<u8>,
) -> Verdict {
    match normalize_spec(wn, tow) {
        None => Verdict::BadTime,
        Some(n) => match band_spec(sigid) {
            None => Verdict::BadBand { gst: n },
            Some(b) => {
                let g = Gst { wn: n.wn, tow: corrected_tow_spec(last, n.tow) };
                if is_stale(watermark, g) {
                    Verdict::Stale { gst: g, current: watermark->Some_0 }
                } else if is_dummy_spec(word) {
                    Verdict::Dummy { gst: g, band: b }
                } else {
                    Verdict::Feed { gst: g, band: b }
                }
            },
        },
    }
}

/// Whether a verdict lets the word move the pipeline's clock state: only a
/// word that is on an INAV band, well timed and not stale does.
pub open spec fn verdict_advances(r: Verdict) -> bool {
    r is Feed || r is Dummy
}

/// The corrected time a verdict carries, for a word that moves the clock
/// state.
pub open spec fn verdict_time(r: Verdict) -> Gst {
    match r {
        Verdict::Feed { gst, .. } => gst,
        Verdict::Dummy { gst, .. } => gst,
        Verdict::Stale { gst, .. } => gst,
        Verdict::BadBand { gst } => gst,
        Verdict::BadTime => Gst { wn: 0, tow: 0 },
    }
}

/// A cached block as bytes, if there is one.
pub open spec fn cached_view(o: Option<Vec<u8>>) -> Option<Seq<u8>> {
    match o {
        Some(v) => Some(v@),
        None => None,
    }
}

/// The state that the ingestion of INAV words keeps: the time corrector,
/// the subframe watermark, and per satellite the last authenticated clock,
/// ephemeris and status block and timing parameters block.
pub struct Pipeline {
    tow_fix: TowFix,
    sync: SubframeSync,
    ced: Vec<Option<Vec<u8>>>,
    timing: Vec<Option<Vec<u8>>>,
}

impl Pipeline {
    /// The time corrector's memory.
    pub closed spec fn last_tow_mod_30(self) -> u32 {
        self.tow_fix.last()
    }

    /// The subframe watermark.
    pub closed spec fn watermark(self) -> Option<Gst> {
        self.sync.watermark()
    }

    /// The last clock, ephemeris and status block seen per satellite, by
    /// satellite number less one.
    pub closed spec fn ced_cache(self) -> Seq<Option<Seq<u8>>> {
        self.ced@.map_values(|o: Option<Vec<u8>>| cached_view(o))
    }

    /// The last timing parameters block seen per satellite, by satellite
    /// number less one.
    pub closed spec fn timing_cache(self) -> Seq<Option<Seq<u8>>> {
        self.timing@.map_values(|o: Option<Vec<u8>>| cached_view(o))
    }

    /// One cache entry per satellite for each kind of block.
    pub closed spec fn wf(self) -> bool {
        self.ced@.len() == NUM_SVNS && self.timing@.len() == NUM_SVNS
    }

    /// A well formed pipeline caches one block of each kind per satellite.
    pub proof fn lemma_cache_len(self)
        requires
            self.wf(),
        ensures
            self.ced_cache().len() == NUM_SVNS,
            self.timing_cache().len() == NUM_SVNS,
    {
    }

    /// A block is new for a satellite when its cache holds no block or
    /// another one.
    pub open spec fn is_new(cache: Seq<Option<Seq<u8>>>, svn: int, data: Seq<u8>) -> bool {
        cache[svn - 1] != Some(data)
    }

    /// A pipeline that has seen nothing yet.
    pub fn new() -> (r: Pipeline)
        ensures
            r.wf(),
            r.last_tow_mod_30() == 0,
            r.watermark() is None,
            r.ced_cache() == Seq::new(NUM_SVNS as nat, |i: int| None::<Seq<u8>>),
            r.timing_cache() == Seq::new(NUM_SVNS as nat, |i: int| None::<Seq<u8>>),
    {
        let mut ced: Vec<Option<Vec<u8>>> = Vec::new();
        let mut timing: Vec<Option<Vec<u8>>> = Vec::new();
        let mut i: usize = 0;
        while i < NUM_SVNS
            invariant
                i <= NUM_SVNS,
                ced@.len() == i,
                timing@.len() == i,
                forall|j: int| 0 <= j < i ==> ced@[j] is None && timing@[j] is None,
            decreases NUM_SVNS - i,
        {
            ced.push(None);
            timing.push(None);
            i = i + 1;
        }
        let r = Pipeline { tow_fix: TowFix::new(), sync: SubframeSync::new(), ced, timing };
        assert(r.ced_cache() =~= Seq::new(NUM_SVNS as nat, |i: int| None::<Seq<u8>>));
        assert(r.timing_cache() =~= Seq::new(NUM_SVNS as nat, |i: int| None::<Seq<u8>>));
        r
    }

    /// Returns the subframe watermark.
    pub fn current_subframe(&self) -> (r: Option<Gst>)
        ensures
            r == self.watermark(),
    {
        self.sync.current_subframe()
    }

    /// Screens one INAV word stamped with a raw week number and time of
    /// week: folds its time, rejects a signal that is not INAV, corrects the
    /// time, drops the word when it belongs to a subframe before the
    /// watermark, and otherwise advances the watermark and remembers the
    /// time, then rejects a dummy message. Only a `Feed` verdict lets the
    /// word reach the authentication engine. A rejected word of bad time,
    /// unknown band or stale subframe changes nothing; the caches never
    /// change here.
    pub fn screen_word(&mut self, wn: u32, tow: u32, sigid: u32, word: &[u8]) -> (r: Verdict)
        requires
            old(self).wf(),
            word@.len() >= 1,
        ensures
            final(self).wf(),
            final(self).ced_cache().len() == NUM_SVNS,
            final(self).timing_cache().len() == NUM_SVNS,
            r == verdict_spec(
                old(self).watermark(),
                old(self).last_tow_mod_30(),
                wn,
                tow,
                sigid,
                word@,
            ),
            final(self).ced_cache() == old(self).ced_cache(),
            final(self).timing_cache() == old(self).timing_cache(),
            is_dummy_spec(word@) ==> !(r is Feed),
            verdict_advances(r) ==> final(self).watermark() == Some(verdict_time(r).subframe_spec())
                && final(self).last_tow_mod_30() == verdict_time(r).tow % 30,
            !verdict_advances(r) ==> final(self).watermark() == old(self).watermark()
                && final(self).last_tow_mod_30() == old(self).last_tow_mod_30(),
    {
        proof {
            self.lemma_cache_len();
        }
        let n = match normalize_gst(wn, tow) {
            Some(n) => n,
            None => {
                return Verdict::BadTime;
            },
        };
        let band = match band_of_sigid(sigid) {
            Some(b) => b,
            None => {
                return Verdict::BadBand { gst: n };
            },
        };
        let t = self.tow_fix.corrected(n.tow);
        let gst = Gst { wn: n.wn, tow: t };
        let before = self.sync.current_subframe();
        let accepted = self.sync.accept(gst);
        if let Some(current) = before {
            if !accepted {
                return Verdict::Stale { gst, current };
            }
        }
        self.tow_fix.record(t);
        if is_dummy(word) {
            Verdict::Dummy { gst, band }
        } else {
            Verdict::Feed { gst, band }
        }
    }

    /// Records the clock, ephemeris and status block that the engine gives
    /// as authenticated for satellite `svn`. When it differs from the one
    /// cached, returns its fields, for a report; when it is the same,
    /// returns nothing. Either way the cache then holds it.
    pub fn observe_ced(&mut self, svn: usize, data: &[u8]) -> (r: Option<Vec<(&'static str, u32)>>)
        requires
            old(self).wf(),
            1 <= svn <= NUM_SVNS,
            data@.len() == CED_AND_STATUS_BYTES,
        ensures
            final(self).wf(),
            final(self).ced_cache().len() == NUM_SVNS,
            final(self).timing_cache().len() == NUM_SVNS,
            r is Some <==> Self::is_new(old(self).ced_cache(), svn as int, data@),
            r matches Some(f) ==> fields_read(data@, ced_and_status_layout(), f@),
            final(self).ced_cache() == old(self).ced_cache().update(svn - 1, Some(data@)),
            final(self).timing_cache() == old(self).timing_cache(),
            final(self).watermark() == old(self).watermark(),
            final(self).last_tow_mod_30() == old(self).last_tow_mod_30(),
    {
        proof {
            self.lemma_cache_len();
        }
        let idx = svn - 1;
        let same = match &self.ced[idx] {
            Some(cached) => same_bytes(cached.as_slice(), data),
            None => false,
        };
        assert(self.ced_cache()[idx as int] == cached_view(self.ced@[idx as int]));
        if same {
            assert(self.ced_cache().update(idx as int, Some(data@)) =~= self.ced_cache());
            return None;
        }
        let fields = extract_all_bits(data);
        let ghost before = self.ced_cache();
        self.ced.set(idx, Some(slice_to_vec(data)));
        assert(self.ced_cache() =~= before.update(idx as int, Some(data@)));
        Some(fields)
    }

    /// Records the timing parameters block that the engine gives as
    /// authenticated for satellite `svn`; returns whether it differs from
    /// the one cached, which calls for a report. Either way the cache then
    /// holds it.
    pub fn observe_timing(&mut self, svn: usize, data: &[u8]) -> (r: bool)
        requires
            old(self).wf(),
            1 <= svn <= NUM_SVNS,
            data@.len() == TIMING_PARAMETERS_BYTES,
        ensures
            final(self).wf(),
            final(self).ced_cache().len() == NUM_SVNS,
            final(self).timing_cache().len() == NUM_SVNS,
            r == Self::is_new(old(self).timing_cache(), svn as int, data@),
            final(self).timing_cache() == old(self).timing_cache().update(svn - 1, Some(data@)),
            final(self).ced_cache() == old(self).ced_cache(),
            final(self).watermark() == old(self).watermark(),
            final(self).last_tow_mod_30() == old(self).last_tow_mod_30(),
    {
        proof {
            self.lemma_cache_len();
        }
        let idx = svn - 1;
        let same = match &self.timing[idx] {
            Some(cached) => same_bytes(cached.as_slice(), data),
            None => false,
        };
        assert(self.timing_cache()[idx as int] == cached_view(self.timing@[idx as int]));
        if same {
            assert(self.timing_cache().update(idx as int, Some(data@)) =~= self.timing_cache());
            return false;
        }
        let ghost before = self.timing_cache();
        self.timing.set(idx, Some(slice_to_vec(data)));
        assert(self.timing_cache() =~= before.update(idx as int, Some(data@)));
        true
    }
}

/// Once the watermark has reached a subframe, a word from an earlier
/// subframe stays stale from then on, whichever satellite sends it: the
/// watermark never moves back.
pub proof fn lemma_stale_stays_stale(reached: Gst, later: Gst, g: Gst)
    requires
        !gst_before(later, reached),
        gst_before(g.subframe_spec(), reached),
    ensures
        is_stale(Some(later), g),
{
}

/// A block cached for a satellite is not new for it: recording the same
/// block twice in a row reports it at most once.
pub proof fn lemma_dedup_idempotent(cache: Seq<Option<Seq<u8>>>, svn: int, data: Seq<u8>)
    requires
        1 <= svn <= cache.len(),
    ensures
        !Pipeline::is_new(cache.update(svn - 1, Some(data)), svn, data),
{
}

/// After a pipeline records a block for a satellite, the same block for
/// that satellite is not new: of two identical polls in a row only the
/// first gives a report, for either kind of block.
pub proof fn lemma_observe_twice_reports_once(p: Pipeline, svn: int, data: Seq<u8>)
    requires
        p.wf(),
        1 <= svn <= NUM_SVNS,
    ensures
        !Pipeline::is_new(p.ced_cache().update(svn - 1, Some(data)), svn, data),
        !Pipeline::is_new(p.timing_cache().update(svn - 1, Some(data)), svn, data),
{
    p.lemma_cache_len();
    lemma_dedup_idempotent(p.ced_cache(), svn, data);
    lemma_dedup_idempotent(p.timing_cache(), svn, data);
}

/// A dummy word never gets a `Feed` verdict, whatever the pipeline's state,
/// its time or its band: it never reaches the authentication engine.
pub proof fn lemma_dummy_never_fed(
    watermark: Option<Gst>,
    last: u32,
    wn: u32,
    tow: u32,
    sigid: u32,
    word: Seq<u8>,
)
    requires
        word.len() >= 1,
        is_dummy_spec(word),
    ensures
        !(verdict_spec(watermark, last, wn, tow, sigid, word) is Feed),
{
}

/// Tells whether two buffers hold the same bytes.
pub fn same_bytes(a: &[u8], b: &[u8]) -> (r: bool)
    ensures
        r == (a@ == b@),
{
    if a.len() != b.len() {
        return false;
    }
    let mut i: usize = 0;
    while i < a.len()
        invariant
            i <= a@.len(),
            a@.len() == b@.len(),
            forall|j: int| 0 <= j < i ==> a@[j] == b@[j],
        decreases a@.len() - i,
    {
        if a[i] != b[i] {
            return false;
        }
        i = i + 1;
    }
    assert(a@ =~= b@);
    true
}

} // verus!
